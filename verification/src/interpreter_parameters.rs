//! The parameters of instructions: variables and literals, and what they
//! resolve to against the environment of a compile session.

use vstd::prelude::*;
use crate::interpreter::AdapterInterpreter;
use crate::interpreter_errors::{NewTokenizationError, TokenizationError};
use crate::language::{
    failure_messages,
    first_of,
    first_success,
    has_type,
    literal_tokenized,
    parameter_tokenized,
    rendered_parameter,
    resolved_boolean,
    resolved_number,
    resolved_text,
    resolved_text_array,
    name_of_type,
    truth_value,
    variable_tokenized,
    Environment,
    ParameterModel,
    Tokenized,
};
pub use crate::language::VerifiableDataType;
use crate::text::{
    concat3,
    join,
    lowered_equals,
    parse_i32,
    split_at_char,
    split_trim,
    strip_prefix,
    texts,
    trim,
    trim_start,
};

verus! {

impl VerifiableDataType {
    /// The name of the type, as it stands in messages.
    pub fn get_type_name(&self) -> (r: String)
        ensures
            r@ == name_of_type(*self),
    {
        match self {
            VerifiableDataType::Text => "Text",
            VerifiableDataType::TextArray => "TextArray",
            VerifiableDataType::Number => "Number",
            VerifiableDataType::Boolean => "Boolean",
        }.to_string()
    }
}

/// What an executable result of tokenizing stands for.
pub open spec fn outcome_of<T: View>(result: Result<(T, String), TokenizationError>) -> Tokenized<
    T::V,
> {
    match result {
        Ok((value, rest)) => Ok((value@, rest@)),
        Err(error) => Err(error@),
    }
}

/// The text of a string that may be absent.
pub open spec fn optional_text(value: Option<String>) -> Option<Seq<char>> {
    match value {
        Some(text) => Some(text@),
        None => None,
    }
}

/// The alternatives that a backtracking tokenizer has tried so far: it keeps
/// the first that succeeded and the message of every one that failed.
pub struct Alternatives<T: View> {
    found: Option<(T, String)>,
    messages: Vec<String>,
    outcomes: Ghost<Seq<Tokenized<T::V>>>,
}

impl<T: View> Alternatives<T> {
    #[verifier::type_invariant]
    spec fn consistent(self) -> bool {
        &&& match self.found {
            Some((value, rest)) => first_success(self.outcomes@) == Some((value@, rest@)),
            None => first_success(self.outcomes@) is None,
        }
        &&& texts(self.messages@) == failure_messages(self.outcomes@)
    }

    /// What each alternative tried so far has given, in order.
    pub closed spec fn outcomes(self) -> Seq<Tokenized<T::V>> {
        self.outcomes@
    }

    /// Nothing tried yet.
    pub fn new() -> (r: Self)
        ensures
            r.outcomes() == Seq::<Tokenized<T::V>>::empty(),
    {
        let messages: Vec<String> = Vec::new();
        assert(texts(messages@) =~= Seq::empty());
        Alternatives { found: None, messages, outcomes: Ghost(Seq::empty()) }
    }

    /// Takes note of what one more alternative has given.
    pub fn offer(self, result: Result<(T, String), TokenizationError>) -> (r: Self)
        ensures
            r.outcomes() == self.outcomes().push(outcome_of(result)),
    {
        proof {
            use_type_invariant(&self);
            assert(self.outcomes@.push(outcome_of(result)).drop_last() =~= self.outcomes@);
        }
        let Alternatives { found, messages, outcomes } = self;
        let mut found = found;
        let mut messages = messages;
        let ghost before = messages@;
        match result {
            Ok(success) => {
                if found.is_none() {
                    found = Some(success);
                }
            },
            Err(error) => {
                messages.push(error.message());
                assert(texts(messages@) =~= texts(before).push(error@));
            },
        }
        Alternatives { found, messages, outcomes: Ghost(outcomes@.push(outcome_of(result))) }
    }

    /// The first alternative that succeeded, or else one failure with the
    /// messages of all.
    pub fn finish(self) -> (r: Result<(T, String), TokenizationError>)
        ensures
            outcome_of(r) == first_of(self.outcomes()),
    {
        proof {
            use_type_invariant(&self);
        }
        match self.found {
            Some(success) => Ok(success),
            None => Err(TokenizationError::new(join(&self.messages, " or\n"))),
        }
    }
}

/// A value that stands for a parameter: a variable, a literal, or either.
pub trait VerifiableData: Sized + View<V = ParameterModel> {
    /// What tokenizing a value of this type from `code` gives.
    spec fn tokenized(env: Environment, code: Seq<char>) -> Tokenized<ParameterModel>;

    fn to_string(&self) -> (r: String)
        ensures
            r@ == rendered_parameter(self@),
    ;

    /// Reads a value of this type from the beginning of `code`. The session is
    /// only looked at.
    fn try_tokenize(interpreter: &mut AdapterInterpreter, code: String) -> (r: Result<
        (Self, String),
        TokenizationError,
    >)
        ensures
            final(interpreter)@ == old(interpreter)@,
            outcome_of(r) == Self::tokenized(old(interpreter)@.env, code@),
    ;

    fn is_valid_type(&self, interpreter: &AdapterInterpreter, v_type: VerifiableDataType) -> (b:
        bool)
        ensures
            b == has_type(self@, interpreter@.env, v_type),
    {
        match v_type {
            VerifiableDataType::Text => self.get_text(interpreter).is_some(),
            VerifiableDataType::TextArray => self.get_text_array(interpreter).is_some(),
            VerifiableDataType::Number => self.get_number(interpreter).is_some(),
            VerifiableDataType::Boolean => self.get_boolean(interpreter).is_some(),
        }
    }

    fn get_text(&self, interpreter: &AdapterInterpreter) -> (r: Option<String>)
        ensures
            optional_text(r) == resolved_text(self@, interpreter@.env),
    ;

    fn get_text_array(&self, interpreter: &AdapterInterpreter) -> (r: Option<Vec<String>>)
        ensures
            match r {
                Some(pieces) => resolved_text_array(self@, interpreter@.env) == Some(
                    texts(pieces@),
                ),
                None => resolved_text_array(self@, interpreter@.env) is None,
            },
    ;

    fn get_number(&self, interpreter: &AdapterInterpreter) -> (r: Option<i32>)
        ensures
            match r {
                Some(number) => resolved_number(self@, interpreter@.env) == Some(number as int),
                None => resolved_number(self@, interpreter@.env) is None,
            },
    ;

    fn get_boolean(&self, interpreter: &AdapterInterpreter) -> (r: Option<bool>)
        ensures
            r == resolved_boolean(self@, interpreter@.env),
    ;
}

/// Reads a word as a truth value.
fn read_truth_value(text: &str) -> (r: Option<bool>)
    ensures
        r == truth_value(text@),
{
    let word = trim(text);
    if lowered_equals(word, "yes") || lowered_equals(word, "true") || lowered_equals(word, "1") {
        Some(true)
    } else if lowered_equals(word, "no") || lowered_equals(word, "false") || lowered_equals(
        word,
        "0",
    ) {
        Some(false)
    } else {
        None
    }
}

/// A named variable of the environment.
#[derive(Eq, Hash, Ord, PartialEq, PartialOrd, Debug)]
pub struct Variable {
    variable_name: String,
}

impl View for Variable {
    type V = ParameterModel;

    closed spec fn view(&self) -> ParameterModel {
        ParameterModel::Variable(self.variable_name@)
    }
}

impl Variable {
    /// The variable of the given name.
    pub fn new(variable_name: String) -> (r: Variable)
        ensures
            r@ == ParameterModel::Variable(variable_name@),
    {
        Variable { variable_name }
    }
}

impl VerifiableData for Variable {
    open spec fn tokenized(env: Environment, code: Seq<char>) -> Tokenized<ParameterModel> {
        variable_tokenized(env, code)
    }

    fn to_string(&self) -> (r: String) {
        concat3("(::", self.variable_name.as_str(), ") ")
    }

    fn try_tokenize(interpreter: &mut AdapterInterpreter, code: String) -> (r: Result<
        (Self, String),
        TokenizationError,
    >) {
        let start = trim_start(code.as_str());
        match strip_prefix(start, "(::") {
            None => Err(TokenizationError::new("Expected (:: for Variable")),
            Some(body) => match split_at_char(body, ')') {
                None => Err(TokenizationError::new("Expected ) for Variable")),
                Some((inner, rest)) => {
                    let final_variable = trim(inner).to_string();
                    if interpreter.has_variable(&final_variable) {
                        Ok((Variable { variable_name: final_variable }, rest.to_string()))
                    } else {
                        Err(
                            TokenizationError::new(
                                concat3("::", final_variable.as_str(), " is not known."),
                            ),
                        )
                    }
                },
            },
        }
    }

    fn get_text(&self, interpreter: &AdapterInterpreter) -> (r: Option<String>) {
        match interpreter.get_variable(&self.variable_name) {
            Some(found_var) => Some(found_var.clone()),
            None => None,
        }
    }

    fn get_text_array(&self, interpreter: &AdapterInterpreter) -> (r: Option<Vec<String>>) {
        match interpreter.get_variable(&self.variable_name) {
            Some(found_var) => Some(split_trim(found_var.as_str(), ',')),
            None => None,
        }
    }

    fn get_number(&self, interpreter: &AdapterInterpreter) -> (r: Option<i32>) {
        match interpreter.get_variable(&self.variable_name) {
            Some(found_var) => parse_i32(found_var.as_str()),
            None => None,
        }
    }

    fn get_boolean(&self, interpreter: &AdapterInterpreter) -> (r: Option<bool>) {
        match interpreter.get_variable(&self.variable_name) {
            Some(found_var) => read_truth_value(found_var.as_str()),
            None => None,
        }
    }
}

/// Literal text.
#[derive(Eq, Hash, Ord, PartialEq, PartialOrd, Debug)]
pub struct Literal {
    literal: String,
}

impl View for Literal {
    type V = ParameterModel;

    closed spec fn view(&self) -> ParameterModel {
        ParameterModel::Literal(self.literal@)
    }
}

impl Literal {
    /// The literal of the given text.
    pub fn new(literal: String) -> (r: Literal)
        ensures
            r@ == ParameterModel::Literal(literal@),
    {
        Literal { literal }
    }
}

impl VerifiableData for Literal {
    open spec fn tokenized(env: Environment, code: Seq<char>) -> Tokenized<ParameterModel> {
        literal_tokenized(code)
    }

    fn to_string(&self) -> (r: String) {
        concat3("(", self.literal.as_str(), ") ")
    }

    fn try_tokenize(interpreter: &mut AdapterInterpreter, code: String) -> (r: Result<
        (Self, String),
        TokenizationError,
    >) {
        let start = trim_start(code.as_str());
        match strip_prefix(start, "(") {
            None => Err(TokenizationError::new("Expected ( for Literal")),
            Some(body) => {
                if strip_prefix(start, "(::").is_some() {
                    return Err(TokenizationError::new("Not allowed to interpret :: as Literal"));
                }
                match split_at_char(body, ')') {
                    None => Err(TokenizationError::new("Expected ) for Literal")),
                    Some((inner, rest)) => {
                        let final_literal = trim(inner).to_string();
                        if !final_literal.as_str().is_empty() {
                            Ok((Literal { literal: final_literal }, rest.to_string()))
                        } else {
                            Err(TokenizationError::new("(...) cannot be empty!"))
                        }
                    },
                }
            },
        }
    }

    fn get_text(&self, interpreter: &AdapterInterpreter) -> (r: Option<String>) {
        Some(self.literal.clone())
    }

    fn get_text_array(&self, interpreter: &AdapterInterpreter) -> (r: Option<Vec<String>>) {
        Some(split_trim(self.literal.as_str(), ','))
    }

    fn get_number(&self, interpreter: &AdapterInterpreter) -> (r: Option<i32>) {
        parse_i32(self.literal.as_str())
    }

    fn get_boolean(&self, interpreter: &AdapterInterpreter) -> (r: Option<bool>) {
        read_truth_value(self.literal.as_str())
    }
}

/// The argument of an instruction.
#[derive(Eq, Hash, Ord, PartialEq, PartialOrd, Debug)]
pub enum Parameter {
    Variable(Variable),
    Literal(Literal),
}

impl View for Parameter {
    type V = ParameterModel;

    open spec fn view(&self) -> ParameterModel {
        match self {
            Parameter::Variable(variable) => variable@,
            Parameter::Literal(literal) => literal@,
        }
    }
}

impl VerifiableData for Parameter {
    open spec fn tokenized(env: Environment, code: Seq<char>) -> Tokenized<ParameterModel> {
        parameter_tokenized(env, code)
    }

    fn to_string(&self) -> (r: String) {
        match self {
            Parameter::Variable(variable) => variable.to_string(),
            Parameter::Literal(literal) => literal.to_string(),
        }
    }

    fn try_tokenize(interpreter: &mut AdapterInterpreter, code: String) -> (r: Result<
        (Self, String),
        TokenizationError,
    >) {
        let results: Alternatives<Parameter> = Alternatives::new();
        let results = results.offer(
            match Variable::try_tokenize(interpreter, code.clone()) {
                Ok(result) => Ok((Parameter::Variable(result.0), result.1)),
                Err(err) => Err(err),
            },
        );
        let results = results.offer(
            match Literal::try_tokenize(interpreter, code) {
                Ok(result) => Ok((Parameter::Literal(result.0), result.1)),
                Err(err) => Err(err),
            },
        );
        proof {
            assert(results.outcomes() =~= seq![
                variable_tokenized(old(interpreter)@.env, code@),
                literal_tokenized(code@),
            ]);
        }
        results.finish()
    }

    fn get_text(&self, interpreter: &AdapterInterpreter) -> (r: Option<String>) {
        match self {
            Parameter::Variable(variable) => variable.get_text(interpreter),
            Parameter::Literal(literal) => literal.get_text(interpreter),
        }
    }

    fn get_text_array(&self, interpreter: &AdapterInterpreter) -> (r: Option<Vec<String>>) {
        match self {
            Parameter::Variable(variable) => variable.get_text_array(interpreter),
            Parameter::Literal(literal) => literal.get_text_array(interpreter),
        }
    }

    fn get_number(&self, interpreter: &AdapterInterpreter) -> (r: Option<i32>) {
        match self {
            Parameter::Variable(variable) => variable.get_number(interpreter),
            Parameter::Literal(literal) => literal.get_number(interpreter),
        }
    }

    fn get_boolean(&self, interpreter: &AdapterInterpreter) -> (r: Option<bool>) {
        match self {
            Parameter::Variable(variable) => variable.get_boolean(interpreter),
            Parameter::Literal(literal) => literal.get_boolean(interpreter),
        }
    }
}

} // verus!
