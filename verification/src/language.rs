//! The filter language as mathematics: what a text tokenizes to, how instructions
//! are rendered back to text, and which SQL a list of instructions generates.
//!
//! Everything here is specification. The executable tokenizer and generator are
//! proved against these definitions.

use vstd::prelude::*;
use crate::text::{
    decimal,
    joined,
    lowered,
    parsed_i32,
    position,
    split_trimmed,
    trimmed,
    trimmed_start,
    lemma_position,
    lemma_trimmed_start_suffix,
};

verus! {

/// Text, as a sequence of characters.
pub type Text = Seq<char>;

/// The variable bindings of a compile session: names to the text bound to them.
pub type Environment = Map<Seq<char>, Seq<char>>;

/// A result of tokenizing: what was recognised and the text left over, or a message.
pub type Tokenized<T> = Result<(T, Seq<char>), Seq<char>>;

/// The types that an instruction can demand of its parameter.
#[derive(Clone, Copy, PartialEq, Eq, Debug, Structural)]
pub enum VerifiableDataType {
    Text,
    TextArray,
    Number,
    Boolean,
}

/// The argument of an instruction: a named variable or literal text.
pub enum ParameterModel {
    Variable(Seq<char>),
    Literal(Seq<char>),
}

/// The instruction kinds that are written as a keyword and one argument.
#[derive(Clone, Copy, PartialEq, Eq, Debug, Structural)]
pub enum FunctionKind {
    WithState,
    WithTag,
    InBucket,
    TitleContains,
    DescriptionContains,
    AssignedTo,
    DueInDays,
}

/// One clause of a filter: a function instruction with its argument, or the
/// separator between two segments.
pub enum InstructionModel {
    Function(FunctionKind, ParameterModel),
    Join,
}

/// Which of the singleton kinds may still be tokenized in the current pass.
pub struct Allowance {
    pub title_contains: bool,
    pub description_contains: bool,
    pub due_in_days: bool,
}

/// The state of a compile session.
pub struct InterpreterState {
    pub env: Environment,
    pub pending: Seq<InstructionModel>,
    pub last_error: Option<Seq<char>>,
    pub allowance: Allowance,
}

/// The text that separates the messages of alternatives that all failed.
pub open spec fn alternative_separator() -> Seq<char> {
    " or\n"@
}

/// The marker that tells a variable from a literal.
pub open spec fn variable_prefix() -> Seq<char> {
    "(::"@
}

/// The text that separates two segments.
pub open spec fn join_keyword() -> Seq<char> {
    ";;"@
}

// ---------------------------------------------------------------------------
// Instruction kinds
// ---------------------------------------------------------------------------

/// The keyword of a kind.
pub open spec fn keyword(kind: FunctionKind) -> Seq<char> {
    match kind {
        FunctionKind::WithState => "with_state"@,
        FunctionKind::WithTag => "with_tag"@,
        FunctionKind::InBucket => "in_bucket"@,
        FunctionKind::TitleContains => "title_contains"@,
        FunctionKind::DescriptionContains => "description_contains"@,
        FunctionKind::AssignedTo => "assigned_to"@,
        FunctionKind::DueInDays => "due_in_days"@,
    }
}

/// The type that the parameter of a kind must resolve to.
pub open spec fn required_type(kind: FunctionKind) -> VerifiableDataType {
    match kind {
        FunctionKind::AssignedTo => VerifiableDataType::TextArray,
        FunctionKind::DueInDays => VerifiableDataType::Number,
        _ => VerifiableDataType::Text,
    }
}

/// Whether an instruction of this kind may occur only once in a compile pass.
pub open spec fn is_singleton(kind: FunctionKind) -> bool {
    kind == FunctionKind::TitleContains || kind == FunctionKind::DescriptionContains || kind
        == FunctionKind::DueInDays
}

/// The name of a type, as it stands in messages.
pub open spec fn name_of_type(data_type: VerifiableDataType) -> Seq<char> {
    match data_type {
        VerifiableDataType::Text => "Text"@,
        VerifiableDataType::TextArray => "TextArray"@,
        VerifiableDataType::Number => "Number"@,
        VerifiableDataType::Boolean => "Boolean"@,
    }
}

/// The function kinds in the order in which the tokenizer tries them.
pub open spec fn kinds_in_order() -> Seq<FunctionKind> {
    seq![
        FunctionKind::WithState,
        FunctionKind::WithTag,
        FunctionKind::InBucket,
        FunctionKind::TitleContains,
        FunctionKind::DescriptionContains,
        FunctionKind::AssignedTo,
        FunctionKind::DueInDays,
    ]
}

impl Allowance {
    /// Nothing has been used yet.
    pub open spec fn fresh() -> Allowance {
        Allowance { title_contains: true, description_contains: true, due_in_days: true }
    }

    /// Whether one more instruction of `kind` may be tokenized.
    pub open spec fn allows(self, kind: FunctionKind) -> bool {
        match kind {
            FunctionKind::TitleContains => self.title_contains,
            FunctionKind::DescriptionContains => self.description_contains,
            FunctionKind::DueInDays => self.due_in_days,
            _ => true,
        }
    }

    /// The allowance once an instruction of `kind` has asked for its place.
    pub open spec fn claimed(self, kind: FunctionKind) -> Allowance {
        match kind {
            FunctionKind::TitleContains => Allowance { title_contains: false, ..self },
            FunctionKind::DescriptionContains => Allowance { description_contains: false, ..self },
            FunctionKind::DueInDays => Allowance { due_in_days: false, ..self },
            _ => self,
        }
    }
}

// ---------------------------------------------------------------------------
// Resolving parameters
// ---------------------------------------------------------------------------

/// The text that a parameter stands for: a literal's own text, a variable's binding.
pub open spec fn resolved_text(parameter: ParameterModel, env: Environment) -> Option<Seq<char>> {
    match parameter {
        ParameterModel::Literal(text) => Some(text),
        ParameterModel::Variable(name) => if env.contains_key(name) {
            Some(env[name])
        } else {
            None
        },
    }
}

/// The resolved text split at commas, each piece trimmed.
pub open spec fn resolved_text_array(parameter: ParameterModel, env: Environment) -> Option<
    Seq<Seq<char>>,
> {
    match resolved_text(parameter, env) {
        Some(text) => Some(split_trimmed(text, ',')),
        None => None,
    }
}

/// The resolved text read as a signed integer.
pub open spec fn resolved_number(parameter: ParameterModel, env: Environment) -> Option<int> {
    match resolved_text(parameter, env) {
        Some(text) => parsed_i32(text),
        None => None,
    }
}

/// The truth value that a word denotes: trimmed and without regard to case,
/// `yes`, `true` and `1` are true, `no`, `false` and `0` are false.
pub open spec fn truth_value(text: Seq<char>) -> Option<bool> {
    let word = lowered(trimmed(text));
    if word == "yes"@ || word == "true"@ || word == "1"@ {
        Some(true)
    } else if word == "no"@ || word == "false"@ || word == "0"@ {
        Some(false)
    } else {
        None
    }
}

/// The resolved text read as a truth value.
pub open spec fn resolved_boolean(parameter: ParameterModel, env: Environment) -> Option<bool> {
    match resolved_text(parameter, env) {
        Some(text) => truth_value(text),
        None => None,
    }
}

/// Whether `parameter` resolves to a value of `data_type`.
pub open spec fn has_type(
    parameter: ParameterModel,
    env: Environment,
    data_type: VerifiableDataType,
) -> bool {
    match data_type {
        VerifiableDataType::Text => resolved_text(parameter, env) is Some,
        VerifiableDataType::TextArray => resolved_text_array(parameter, env) is Some,
        VerifiableDataType::Number => resolved_number(parameter, env) is Some,
        VerifiableDataType::Boolean => resolved_boolean(parameter, env) is Some,
    }
}

// ---------------------------------------------------------------------------
// Rendering
// ---------------------------------------------------------------------------

/// A parameter as text: in brackets, a variable behind two colons, and a space.
pub open spec fn rendered_parameter(parameter: ParameterModel) -> Seq<char> {
    match parameter {
        ParameterModel::Variable(name) => "(::"@ + name + ") "@,
        ParameterModel::Literal(text) => "("@ + text + ") "@,
    }
}

/// An instruction as text: the keyword and the parameter, or the separator and a space.
pub open spec fn rendered_instruction(instruction: InstructionModel) -> Seq<char> {
    match instruction {
        InstructionModel::Function(kind, parameter) => keyword(kind) + rendered_parameter(
            parameter,
        ),
        InstructionModel::Join => ";; "@,
    }
}

/// The instructions, one per line, without white space at either end of the whole.
pub open spec fn rendered_instructions(instructions: Seq<InstructionModel>) -> Seq<char> {
    trimmed(
        joined(
            instructions.map_values(|instruction: InstructionModel| rendered_instruction(instruction)),
            "\n"@,
        ),
    )
}

/// Whether `instruction` may stand directly behind `previous`: only a
/// separator behind a separator may not.
pub open spec fn may_follow(instruction: InstructionModel, previous: InstructionModel) -> bool {
    !(instruction is Join && previous is Join)
}

// ---------------------------------------------------------------------------
// Tokenizing
// ---------------------------------------------------------------------------

/// The first alternative that succeeded, if any did.
pub open spec fn first_success<T>(outcomes: Seq<Tokenized<T>>) -> Option<(T, Seq<char>)>
    decreases outcomes.len(),
{
    if outcomes.len() == 0 {
        None
    } else {
        match first_success(outcomes.drop_last()) {
            Some(found) => Some(found),
            None => match outcomes.last() {
                Ok(found) => Some(found),
                Err(_) => None,
            },
        }
    }
}

/// The messages of the alternatives that failed, in order.
pub open spec fn failure_messages<T>(outcomes: Seq<Tokenized<T>>) -> Seq<Seq<char>>
    decreases outcomes.len(),
{
    if outcomes.len() == 0 {
        Seq::empty()
    } else {
        match outcomes.last() {
            Ok(_) => failure_messages(outcomes.drop_last()),
            Err(message) => failure_messages(outcomes.drop_last()).push(message),
        }
    }
}

/// Backtracking choice: the first alternative that succeeded, else one failure
/// that joins the messages of them all.
pub open spec fn first_of<T>(outcomes: Seq<Tokenized<T>>) -> Tokenized<T> {
    match first_success(outcomes) {
        Some(found) => Ok(found),
        None => Err(joined(failure_messages(outcomes), alternative_separator())),
    }
}

/// A variable: `(::name)` after optional white space, with a name that the
/// environment binds.
pub open spec fn variable_tokenized(env: Environment, code: Seq<char>) -> Tokenized<ParameterModel> {
    let start = trimmed_start(code);
    if !variable_prefix().is_prefix_of(start) {
        Err("Expected (:: for Variable"@)
    } else {
        let body = start.skip(variable_prefix().len() as int);
        match position(body, ')') {
            None => Err("Expected ) for Variable"@),
            Some(end) => {
                let name = trimmed(body.take(end));
                if env.contains_key(name) {
                    Ok((ParameterModel::Variable(name), body.skip(end + 1)))
                } else {
                    Err("::"@ + name + " is not known."@)
                }
            },
        }
    }
}

/// A literal: `(text)` after optional white space, where the text is not empty
/// and the argument does not begin like a variable.
pub open spec fn literal_tokenized(code: Seq<char>) -> Tokenized<ParameterModel> {
    let start = trimmed_start(code);
    if !"("@.is_prefix_of(start) {
        Err("Expected ( for Literal"@)
    } else if variable_prefix().is_prefix_of(start) {
        Err("Not allowed to interpret :: as Literal"@)
    } else {
        let body = start.skip("("@.len() as int);
        match position(body, ')') {
            None => Err("Expected ) for Literal"@),
            Some(end) => {
                let text = trimmed(body.take(end));
                if text.len() > 0 {
                    Ok((ParameterModel::Literal(text), body.skip(end + 1)))
                } else {
                    Err("(...) cannot be empty!"@)
                }
            },
        }
    }
}

/// A parameter: a variable if the text reads as one, else a literal.
pub open spec fn parameter_tokenized(env: Environment, code: Seq<char>) -> Tokenized<
    ParameterModel,
> {
    first_of(seq![variable_tokenized(env, code), literal_tokenized(code)])
}

/// The parameter of a function instruction, before the kind's uniqueness is
/// looked at: the keyword, then a parameter of the type that the kind demands.
pub open spec fn function_argument(kind: FunctionKind, env: Environment, code: Seq<char>) -> Tokenized<
    ParameterModel,
> {
    let start = trimmed_start(code);
    if !keyword(kind).is_prefix_of(start) {
        Err("Expected "@ + keyword(kind) + " for Token"@)
    } else {
        match parameter_tokenized(env, start.skip(keyword(kind).len() as int)) {
            Err(message) => Err(message),
            Ok((parameter, rest)) => if has_type(parameter, env, required_type(kind)) {
                Ok((parameter, rest))
            } else {
                Err("Type of "@ + name_of_type(required_type(kind)) + " required for "@ + keyword(kind))
            },
        }
    }
}

/// A function instruction of `kind`.
pub open spec fn function_tokenized(
    kind: FunctionKind,
    env: Environment,
    allowance: Allowance,
    code: Seq<char>,
) -> Tokenized<InstructionModel> {
    match function_argument(kind, env, code) {
        Err(message) => Err(message),
        Ok((parameter, rest)) => if allowance.allows(kind) {
            Ok((InstructionModel::Function(kind, parameter), rest))
        } else {
            Err("Can't have more than one "@ + keyword(kind))
        },
    }
}

/// The allowance after an attempt to tokenize a function instruction of `kind`:
/// the attempt claims the kind's place as soon as the argument is in order,
/// whether or not the place was still free.
pub open spec fn function_allowance(
    kind: FunctionKind,
    env: Environment,
    allowance: Allowance,
    code: Seq<char>,
) -> Allowance {
    if function_argument(kind, env, code) is Ok {
        allowance.claimed(kind)
    } else {
        allowance
    }
}

/// The separator between two segments.
pub open spec fn join_tokenized(code: Seq<char>) -> Tokenized<InstructionModel> {
    let start = trimmed_start(code);
    if join_keyword().is_prefix_of(start) {
        Ok((InstructionModel::Join, start.skip(join_keyword().len() as int)))
    } else {
        Err("Expected ;; for Token"@)
    }
}

/// What each of the eight alternatives makes of `code`, in the order in which
/// they are tried.
pub open spec fn instruction_alternatives(
    env: Environment,
    allowance: Allowance,
    code: Seq<char>,
) -> Seq<Tokenized<InstructionModel>> {
    kinds_in_order().map_values(|kind: FunctionKind| function_tokenized(kind, env, allowance, code)).push(
        join_tokenized(code),
    )
}

/// One instruction, of whichever kind the text reads as.
pub open spec fn instruction_tokenized(
    env: Environment,
    allowance: Allowance,
    code: Seq<char>,
) -> Tokenized<InstructionModel> {
    first_of(instruction_alternatives(env, allowance, code))
}

/// The allowance after the first `count` function kinds were tried on `code`.
pub open spec fn allowance_through(
    count: nat,
    env: Environment,
    allowance: Allowance,
    code: Seq<char>,
) -> Allowance
    decreases count,
{
    if count == 0 || count > kinds_in_order().len() {
        allowance
    } else {
        function_allowance(
            kinds_in_order()[count - 1],
            env,
            allowance_through((count - 1) as nat, env, allowance, code),
            code,
        )
    }
}

/// The allowance after one instruction was tokenized from `code`, or failed to be.
pub open spec fn instruction_allowance(
    env: Environment,
    allowance: Allowance,
    code: Seq<char>,
) -> Allowance {
    allowance_through(kinds_in_order().len(), env, allowance, code)
}

/// Trying one function kind after the others extends the allowance by that
/// kind's claim, and what the kind makes of the code does not depend on the
/// kinds that were tried before it.
pub proof fn lemma_alternative_independent(
    index: nat,
    env: Environment,
    allowance: Allowance,
    code: Seq<char>,
)
    requires
        index < kinds_in_order().len(),
    ensures
        allowance_through(index + 1, env, allowance, code) == function_allowance(
            kinds_in_order()[index as int],
            env,
            allowance_through(index, env, allowance, code),
            code,
        ),
        function_tokenized(
            kinds_in_order()[index as int],
            env,
            allowance_through(index, env, allowance, code),
            code,
        ) == function_tokenized(kinds_in_order()[index as int], env, allowance, code),
{
    reveal_with_fuel(allowance_through, 8);
    let kind = kinds_in_order()[index as int];
    assert(allowance_through(index, env, allowance, code).allows(kind) == allowance.allows(kind));
}

/// The first success is what one of the alternatives gave; where there is
/// none, every alternative failed.
pub proof fn lemma_first_success<T>(outcomes: Seq<Tokenized<T>>)
    ensures
        match first_success(outcomes) {
            Some(found) => exists|i: int|
                0 <= i < outcomes.len() && outcomes[i] == Ok::<(T, Seq<char>), Seq<char>>(found),
            None => forall|i: int| 0 <= i < outcomes.len() ==> outcomes[i] is Err,
        },
    decreases outcomes.len(),
{
    if outcomes.len() > 0 {
        lemma_first_success(outcomes.drop_last());
        match first_success(outcomes.drop_last()) {
            Some(found) => {
                let i = choose|i: int|
                    0 <= i < outcomes.drop_last().len() && outcomes.drop_last()[i] == Ok::<
                        (T, Seq<char>),
                        Seq<char>,
                    >(found);
                assert(outcomes[i] == Ok::<(T, Seq<char>), Seq<char>>(found));
            },
            None => {
                match outcomes.last() {
                    Ok(found) => {
                        assert(outcomes[outcomes.len() - 1] == Ok::<(T, Seq<char>), Seq<char>>(
                            found,
                        ));
                    },
                    Err(_) => {
                        assert forall|i: int| 0 <= i < outcomes.len() implies outcomes[i] is Err by {
                            if i < outcomes.len() - 1 {
                                assert(outcomes.drop_last()[i] == outcomes[i]);
                            }
                        }
                    },
                }
            },
        }
    }
}

/// A parameter that is tokenized takes at least one character.
pub proof fn lemma_parameter_consumes(env: Environment, code: Seq<char>)
    ensures
        match parameter_tokenized(env, code) {
            Ok((_, rest)) => rest.len() < code.len(),
            Err(_) => true,
        },
{
    let outcomes = seq![variable_tokenized(env, code), literal_tokenized(code)];
    lemma_first_success(outcomes);
    let start = trimmed_start(code);
    lemma_trimmed_start_suffix(code);
    if variable_prefix().is_prefix_of(start) {
        lemma_position(start.skip(variable_prefix().len() as int), ')');
    }
    if "("@.is_prefix_of(start) {
        lemma_position(start.skip("("@.len() as int), ')');
    }
}

/// An instruction that is tokenized takes at least one character.
pub proof fn lemma_instruction_consumes(env: Environment, allowance: Allowance, code: Seq<char>)
    ensures
        match instruction_tokenized(env, allowance, code) {
            Ok((_, rest)) => rest.len() < code.len(),
            Err(_) => true,
        },
{
    let outcomes = instruction_alternatives(env, allowance, code);
    lemma_first_success(outcomes);
    let start = trimmed_start(code);
    lemma_trimmed_start_suffix(code);
    if let Some(found) = first_success(outcomes) {
        let i = choose|i: int|
            0 <= i < outcomes.len() && outcomes[i] == Ok::<(InstructionModel, Seq<char>), Seq<char>>(
                found,
            );
        if i < kinds_in_order().len() {
            let kind = kinds_in_order()[i];
            assert(outcomes[i] == function_tokenized(kind, env, allowance, code));
            lemma_parameter_consumes(env, start.skip(keyword(kind).len() as int));
        } else {
            assert(outcomes[i] == join_tokenized(code));
            reveal_strlit(";;");
        }
    }
}

/// The outcome of a run of the tokenizer: the instructions, or the message
/// of the first that failed, and the allowance that is left.
pub type Pass = (Result<Seq<InstructionModel>, Seq<char>>, Allowance);

/// `outcome` with `first` put before the instructions it found.
pub open spec fn preceded_by(first: Seq<InstructionModel>, outcome: Pass) -> Pass {
    match outcome.0 {
        Ok(more) => (Ok(first + more), outcome.1),
        Err(message) => (Err(message), outcome.1),
    }
}

/// A whole filter text: instructions until nothing but white space is left.
pub open spec fn text_tokenized(env: Environment, allowance: Allowance, code: Seq<char>) -> Pass
    decreases code.len(),
{
    let start = trimmed_start(code);
    if start.len() == 0 {
        (Ok(Seq::empty()), allowance)
    } else {
        let after = instruction_allowance(env, allowance, start);
        match instruction_tokenized(env, allowance, start) {
            Err(message) => (Err(message), after),
            Ok((instruction, rest)) => {
                proof {
                    lemma_instruction_consumes(env, allowance, start);
                    lemma_trimmed_start_suffix(code);
                }
                preceded_by(seq![instruction], text_tokenized(env, after, rest))
            },
        }
    }
}

/// What tokenizing `code` in a new pass gives.
pub open spec fn filter_tokenized(env: Environment, code: Seq<char>) -> Pass {
    text_tokenized(env, Allowance::fresh(), code)
}

/// The state in which tokenizing `code` leaves a compile session: the pass
/// begins with every singleton kind allowed again, whatever was used before;
/// after a failure nothing is pending and the failure is kept.
pub open spec fn after_tokenizing(state: InterpreterState, code: Seq<char>) -> InterpreterState {
    let pass = filter_tokenized(state.env, code);
    match pass.0 {
        Ok(instructions) => InterpreterState {
            env: state.env,
            pending: instructions,
            last_error: None,
            allowance: pass.1,
        },
        Err(message) => InterpreterState {
            env: state.env,
            pending: Seq::empty(),
            last_error: Some(message),
            allowance: pass.1,
        },
    }
}

// ---------------------------------------------------------------------------
// Generating SQL
// ---------------------------------------------------------------------------

/// The accumulator of the code generator: the finished text, and the join and
/// predicate fragments of the segment that is being collected.
pub struct SqlModel {
    pub finished: Seq<char>,
    pub joins: Seq<Seq<char>>,
    pub predicates: Seq<Seq<char>>,
}

impl SqlModel {
    /// Nothing finished, nothing collected.
    pub open spec fn empty() -> SqlModel {
        SqlModel { finished: Seq::empty(), joins: Seq::empty(), predicates: Seq::empty() }
    }

    /// Whether nothing was finished and nothing is collected.
    pub open spec fn is_buffer_empty(self) -> bool {
        self.finished.len() == 0 && self.joins.len() == 0 && self.predicates.len() == 0
    }

    /// Whether the current segment holds nothing.
    pub open spec fn is_accumulator_empty(self) -> bool {
        self.joins.len() == 0 && self.predicates.len() == 0
    }

    /// With one more join fragment, unless the segment already has it.
    pub open spec fn with_join(self, fragment: Seq<char>) -> SqlModel {
        if self.joins.contains(fragment) {
            self
        } else {
            SqlModel { joins: self.joins.push(fragment), ..self }
        }
    }

    /// With one more predicate.
    pub open spec fn with_predicate(self, predicate: Seq<char>) -> SqlModel {
        SqlModel { predicates: self.predicates.push(predicate), ..self }
    }

    /// With the current segment written to the finished text as one `SELECT`,
    /// after `UNION` where it is not the first, and a new segment begun.
    pub open spec fn flushed(self) -> SqlModel {
        SqlModel {
            finished: self.finished + select_head(self.finished) + nested_joins(self.joins)
                + where_clause(self.predicates),
            joins: Seq::empty(),
            predicates: Seq::empty(),
        }
    }

    /// The finished text, closed.
    pub open spec fn closed(self) -> Seq<char> {
        self.finished.push(';')
    }
}

/// How a `SELECT` begins, given the text that was finished before it.
pub open spec fn select_head(finished: Seq<char>) -> Seq<char> {
    if finished.len() == 0 {
        "SELECT tickets.* FROM "@
    } else {
        " UNION SELECT tickets.* FROM "@
    }
}

/// The tickets table joined with each fragment in turn, nested to the left.
pub open spec fn nested_joins(joins: Seq<Seq<char>>) -> Seq<char>
    decreases joins.len(),
{
    if joins.len() == 0 {
        "tickets"@
    } else {
        "("@ + nested_joins(joins.drop_last()) + ") JOIN "@ + joins.last()
    }
}

/// The predicates of a segment, all of which must hold; nothing where there is none.
pub open spec fn where_clause(predicates: Seq<Seq<char>>) -> Seq<char> {
    if predicates.len() == 0 {
        Seq::empty()
    } else {
        " WHERE "@ + joined(predicates, " AND "@)
    }
}

/// Resolved text as a quoted SQL literal. The text is taken as it is.
pub open spec fn sql_literal(text: Seq<char>) -> Seq<char> {
    "'"@ + text + "'"@
}

/// The comparison of one assignee.
pub open spec fn assignee_predicate(user: Seq<char>) -> Seq<char> {
    "tickets.assigned_to = "@ + sql_literal(user)
}

/// The predicate that an instruction of `kind` adds, where its parameter
/// resolves to the type that the kind demands.
pub open spec fn predicate(kind: FunctionKind, parameter: ParameterModel, env: Environment) -> Option<
    Seq<char>,
> {
    match kind {
        FunctionKind::WithState => match resolved_text(parameter, env) {
            Some(state) => Some("tickets.state_name = "@ + sql_literal(state)),
            None => None,
        },
        FunctionKind::WithTag => match resolved_text(parameter, env) {
            Some(tag) => Some("ticket_tags.tag_name = "@ + sql_literal(tag)),
            None => None,
        },
        FunctionKind::InBucket => match resolved_text(parameter, env) {
            Some(bucket) => Some("buckets.name = "@ + sql_literal(bucket)),
            None => None,
        },
        FunctionKind::TitleContains => match resolved_text(parameter, env) {
            Some(title) => Some("tickets.title LIKE "@ + sql_literal("%"@ + title + "%"@)),
            None => None,
        },
        FunctionKind::DescriptionContains => match resolved_text(parameter, env) {
            Some(description) => Some(
                "tickets.description LIKE "@ + sql_literal("%"@ + description + "%"@),
            ),
            None => None,
        },
        FunctionKind::AssignedTo => match resolved_text_array(parameter, env) {
            Some(users) => Some(
                "("@ + joined(
                    users.map_values(|user: Seq<char>| assignee_predicate(user)),
                    " OR "@,
                ) + ")"@,
            ),
            None => None,
        },
        FunctionKind::DueInDays => match resolved_number(parameter, env) {
            Some(days) => Some(
                "tickets.due_at < (SELECT unixepoch('now','start of day','+"@ + decimal(days)
                    + " day'))"@,
            ),
            None => None,
        },
    }
}

/// The table that an instruction of `kind` needs joined, if it needs one.
pub open spec fn join_fragment(kind: FunctionKind) -> Option<Seq<char>> {
    match kind {
        FunctionKind::WithTag => Some("ticket_tags ON tickets.id = ticket_tags.ticket_id"@),
        FunctionKind::InBucket => Some("buckets ON tickets.bucket_id = buckets.id"@),
        _ => None,
    }
}

/// The message of an instruction whose parameter does not resolve when SQL is generated.
pub open spec fn resolution_failure(kind: FunctionKind) -> Seq<char> {
    "Wasn't able to parse "@ + keyword(kind) + " because of wrong Parameter Type"@
}

/// What one instruction makes of the accumulator.
pub open spec fn applied(instruction: InstructionModel, env: Environment, sql: SqlModel) -> Result<
    SqlModel,
    Seq<char>,
> {
    match instruction {
        InstructionModel::Function(kind, parameter) => match predicate(kind, parameter, env) {
            None => Err(resolution_failure(kind)),
            Some(found) => match join_fragment(kind) {
                Some(fragment) => Ok(sql.with_predicate(found).with_join(fragment)),
                None => Ok(sql.with_predicate(found)),
            },
        },
        InstructionModel::Join => if sql.is_buffer_empty() {
            Err("Join instruction in the beginning is not allowed."@)
        } else if sql.is_accumulator_empty() {
            Err("Can't have more than one ;; after eachother."@)
        } else {
            Ok(sql.flushed())
        },
    }
}

/// What the instructions make of the accumulator, one after the other, up to
/// the first that fails.
pub open spec fn applied_all(
    instructions: Seq<InstructionModel>,
    env: Environment,
    sql: SqlModel,
) -> Result<SqlModel, Seq<char>>
    decreases instructions.len(),
{
    if instructions.len() == 0 {
        Ok(sql)
    } else {
        match applied(instructions[0], env, sql) {
            Ok(next) => applied_all(instructions.skip(1), env, next),
            Err(message) => Err(message),
        }
    }
}

/// The SQL query of a list of instructions.
pub open spec fn compiled(instructions: Seq<InstructionModel>, env: Environment) -> Result<
    Seq<char>,
    Seq<char>,
> {
    match applied_all(instructions, env, SqlModel::empty()) {
        Ok(sql) => Ok(sql.flushed().closed()),
        Err(message) => Err(message),
    }
}

/// The SQL query that a compile session yields in its current state.
pub open spec fn constructed(state: InterpreterState) -> Result<Seq<char>, Seq<char>> {
    if state.last_error is Some {
        Err("Cannot parse Instructions, because there was an Error when Tokenizing."@)
    } else if state.pending.len() == 0 {
        Err(
            "Cannot parse Instruction, because nothing is in Buffer. Did you forget to tokenize first?"@,
        )
    } else {
        compiled(state.pending, state.env)
    }
}

/// The state in which generating SQL leaves a compile session. Where the
/// last tokenization has failed, generation is not attempted and the session
/// stays as it is. Else nothing is pending any more, whether the query was
/// generated or an instruction failed: generation is all or nothing, and it
/// consumes the instructions.
pub open spec fn after_construction(state: InterpreterState) -> InterpreterState {
    if state.last_error is Some {
        state
    } else {
        InterpreterState { pending: Seq::empty(), ..state }
    }
}

} // verus!
