//! The instructions of the filter language: how each is tokenized, rendered
//! and turned into SQL.

use vstd::prelude::*;
use crate::interpreter::{quote_literal, AdapterInterpreter, SqlExpression, SqlParsable};
use crate::interpreter_errors::{
    NewSqlParseError,
    NewTokenizationError,
    SqlParseError,
    TokenizationError,
};
use crate::interpreter_parameters::{
    outcome_of,
    Alternatives,
    Parameter,
    VerifiableData,
    VerifiableDataType,
};
use crate::language::{
    assignee_predicate,
    function_allowance,
    function_tokenized,
    instruction_allowance,
    instruction_alternatives,
    instruction_tokenized,
    join_tokenized,
    keyword,
    lemma_alternative_independent,
    may_follow,
    rendered_instruction,
    required_type,
    Allowance,
    Environment,
    FunctionKind,
    InstructionModel,
    InterpreterState,
    Tokenized,
};
use crate::text::{concat2, concat3, join, render_i32, strip_prefix, texts, trim_start};

verus! {

/// What every instruction can do: say whether it may follow another, render
/// itself, and read itself from text.
pub trait VerifiableInstruction: Sized + View<V = InstructionModel> {
    /// What tokenizing an instruction of this type from `code` gives.
    spec fn tokenized(env: Environment, allowance: Allowance, code: Seq<char>) -> Tokenized<
        InstructionModel,
    >;

    /// The allowance that an attempt to tokenize from `code` leaves.
    spec fn allowance_after(env: Environment, allowance: Allowance, code: Seq<char>) -> Allowance;

    fn is_valid_after(&self, interpreter: &AdapterInterpreter, instruction: Instruction) -> (b:
        bool)
        ensures
            b == may_follow(self@, instruction@),
    ;

    fn to_string(&self) -> (r: String)
        ensures
            r@ == rendered_instruction(self@),
    ;

    /// Reads an instruction of this type from the beginning of `code`. Of the
    /// session only the allowance changes.
    fn try_tokenize(interpreter: &mut AdapterInterpreter, code: String) -> (r: Result<
        (Self, String),
        TokenizationError,
    >)
        ensures
            outcome_of(r) == Self::tokenized(
                old(interpreter)@.env,
                old(interpreter)@.allowance,
                code@,
            ),
            final(interpreter)@ == (InterpreterState {
                allowance: Self::allowance_after(
                    old(interpreter)@.env,
                    old(interpreter)@.allowance,
                    code@,
                ),
                ..old(interpreter)@
            }),
    ;
}

/// An instruction that is written as a keyword and one parameter.
pub trait FunctionTypeInstruction: Sized + View<V = InstructionModel> {
    /// Which of the function instructions this is.
    spec fn kind() -> FunctionKind;

    /// An instruction of this type is a function instruction of that kind.
    proof fn lemma_kind(&self)
        ensures
            self@ is Function,
            self@->Function_0 == Self::kind(),
    ;

    /// Returns its single parameter.
    fn get_content(&self) -> (content: &Parameter)
        ensures
            self@ == InstructionModel::Function(Self::kind(), content@),
    ;

    /// Returns the type that the parameter must resolve to.
    fn required_parameter_type() -> (data_type: VerifiableDataType)
        ensures
            data_type == required_type(Self::kind()),
    ;

    /// Returns the keyword.
    fn get_function_name() -> (name: String)
        ensures
            name@ == keyword(Self::kind()),
    ;

    /// Returns an instance with the parameter filled.
    fn get_instance(param: Parameter) -> (instance: Self)
        ensures
            instance@ == InstructionModel::Function(Self::kind(), param@),
    ;

    /// Returns whether one more instruction of this kind may be used, and
    /// takes its place in the session.
    fn initiate_unique(interpreter: &mut AdapterInterpreter) -> (unique: bool)
        ensures
            unique == old(interpreter)@.allowance.allows(Self::kind()),
            final(interpreter)@ == (InterpreterState {
                allowance: old(interpreter)@.allowance.claimed(Self::kind()),
                ..old(interpreter)@
            }),
    ;
}

impl<T> VerifiableInstruction for T where T: FunctionTypeInstruction {
    open spec fn tokenized(env: Environment, allowance: Allowance, code: Seq<char>) -> Tokenized<
        InstructionModel,
    > {
        function_tokenized(T::kind(), env, allowance, code)
    }

    open spec fn allowance_after(env: Environment, allowance: Allowance, code: Seq<char>) -> Allowance {
        function_allowance(T::kind(), env, allowance, code)
    }

    fn is_valid_after(&self, _interpreter: &AdapterInterpreter, _instruction: Instruction) -> (b:
        bool) {
        proof {
            self.lemma_kind();
        }
        true
    }

    fn to_string(&self) -> (r: String) {
        let mut expression: String = Self::get_function_name();
        expression.append(self.get_content().to_string().as_str());
        expression
    }

    fn try_tokenize(interpreter: &mut AdapterInterpreter, code: String) -> (r: Result<
        (Self, String),
        TokenizationError,
    >) {
        let code_internal = trim_start(code.as_str());
        let name = Self::get_function_name();
        match strip_prefix(code_internal, name.as_str()) {
            Some(argument) => match Parameter::try_tokenize(interpreter, argument.to_string()) {
                Ok(result) => {
                    if result.0.is_valid_type(interpreter, Self::required_parameter_type()) {
                        if Self::initiate_unique(interpreter) {
                            let instruction = Self::get_instance(result.0);
                            Ok((instruction, result.1))
                        } else {
                            Err(
                                TokenizationError::new(
                                    concat2("Can't have more than one ", name.as_str()),
                                ),
                            )
                        }
                    } else {
                        let mut message = concat3(
                            "Type of ",
                            Self::required_parameter_type().get_type_name().as_str(),
                            " required for ",
                        );
                        message.append(name.as_str());
                        Err(TokenizationError::new(message))
                    }
                },
                Err(err) => Err(err),
            },
            None => Err(TokenizationError::new(concat3("Expected ", name.as_str(), " for Token"))),
        }
    }
}

/// The failure of an instruction whose parameter does not resolve.
fn resolution_error(name: &str) -> (r: SqlParseError)
    ensures
        r@ == "Wasn't able to parse "@ + name@ + " because of wrong Parameter Type"@,
{
    SqlParseError::new(concat3("Wasn't able to parse ", name, " because of wrong Parameter Type"))
}

/// Tickets in a given state.
#[derive(Eq, Hash, Ord, PartialEq, PartialOrd, Debug)]
pub struct WithStateInstruction {
    state: Parameter,
}

impl View for WithStateInstruction {
    type V = InstructionModel;

    closed spec fn view(&self) -> InstructionModel {
        InstructionModel::Function(FunctionKind::WithState, self.state@)
    }
}

impl FunctionTypeInstruction for WithStateInstruction {
    open spec fn kind() -> FunctionKind {
        FunctionKind::WithState
    }

    proof fn lemma_kind(&self) {
    }

    fn get_content(&self) -> (content: &Parameter) {
        &self.state
    }

    fn get_function_name() -> (name: String) {
        "with_state".to_string()
    }

    fn get_instance(param: Parameter) -> (instance: Self) {
        WithStateInstruction { state: param }
    }

    fn initiate_unique(interpreter: &mut AdapterInterpreter) -> (unique: bool) {
        interpreter.initiate_unique(FunctionKind::WithState)
    }

    fn required_parameter_type() -> (data_type: VerifiableDataType) {
        VerifiableDataType::Text
    }
}

impl SqlParsable for WithStateInstruction {
    fn to_sql(&self, interpreter: &AdapterInterpreter, sql_expression: SqlExpression) -> (r: Result<
        SqlExpression,
        SqlParseError,
    >) {
        let mut sql_expression = sql_expression;
        let state_option = self.state.get_text(interpreter);
        if let Some(state) = state_option {
            sql_expression.add_to_where(
                concat2("tickets.state_name = ", quote_literal(state.as_str()).as_str()),
            );
            Ok(sql_expression)
        } else {
            Err(resolution_error("with_state"))
        }
    }
}

/// Tickets that carry a given tag.
#[derive(Eq, Hash, Ord, PartialEq, PartialOrd, Debug)]
pub struct WithTagInstruction {
    tag: Parameter,
}

impl View for WithTagInstruction {
    type V = InstructionModel;

    closed spec fn view(&self) -> InstructionModel {
        InstructionModel::Function(FunctionKind::WithTag, self.tag@)
    }
}

impl FunctionTypeInstruction for WithTagInstruction {
    open spec fn kind() -> FunctionKind {
        FunctionKind::WithTag
    }

    proof fn lemma_kind(&self) {
    }

    fn get_content(&self) -> (content: &Parameter) {
        &self.tag
    }

    fn get_function_name() -> (name: String) {
        "with_tag".to_string()
    }

    fn get_instance(param: Parameter) -> (instance: Self) {
        WithTagInstruction { tag: param }
    }

    fn initiate_unique(interpreter: &mut AdapterInterpreter) -> (unique: bool) {
        interpreter.initiate_unique(FunctionKind::WithTag)
    }

    fn required_parameter_type() -> (data_type: VerifiableDataType) {
        VerifiableDataType::Text
    }
}

impl SqlParsable for WithTagInstruction {
    fn to_sql(&self, interpreter: &AdapterInterpreter, sql_expression: SqlExpression) -> (r: Result<
        SqlExpression,
        SqlParseError,
    >) {
        let mut sql_expression = sql_expression;
        let tag_option = self.tag.get_text(interpreter);
        if let Some(tag) = tag_option {
            sql_expression.add_to_where(
                concat2("ticket_tags.tag_name = ", quote_literal(tag.as_str()).as_str()),
            );
            sql_expression.add_to_from(
                "ticket_tags ON tickets.id = ticket_tags.ticket_id".to_string(),
            );
            Ok(sql_expression)
        } else {
            Err(resolution_error("with_tag"))
        }
    }
}

/// Tickets in a given bucket.
#[derive(Eq, Hash, Ord, PartialEq, PartialOrd, Debug)]
pub struct InBucketInstruction {
    bucket: Parameter,
}

impl View for InBucketInstruction {
    type V = InstructionModel;

    closed spec fn view(&self) -> InstructionModel {
        InstructionModel::Function(FunctionKind::InBucket, self.bucket@)
    }
}

impl FunctionTypeInstruction for InBucketInstruction {
    open spec fn kind() -> FunctionKind {
        FunctionKind::InBucket
    }

    proof fn lemma_kind(&self) {
    }

    fn get_content(&self) -> (content: &Parameter) {
        &self.bucket
    }

    fn get_function_name() -> (name: String) {
        "in_bucket".to_string()
    }

    fn get_instance(param: Parameter) -> (instance: Self) {
        InBucketInstruction { bucket: param }
    }

    fn initiate_unique(interpreter: &mut AdapterInterpreter) -> (unique: bool) {
        interpreter.initiate_unique(FunctionKind::InBucket)
    }

    fn required_parameter_type() -> (data_type: VerifiableDataType) {
        VerifiableDataType::Text
    }
}

impl SqlParsable for InBucketInstruction {
    fn to_sql(&self, interpreter: &AdapterInterpreter, sql_expression: SqlExpression) -> (r: Result<
        SqlExpression,
        SqlParseError,
    >) {
        let mut sql_expression = sql_expression;
        let bucket_option = self.bucket.get_text(interpreter);
        if let Some(bucket) = bucket_option {
            sql_expression.add_to_where(
                concat2("buckets.name = ", quote_literal(bucket.as_str()).as_str()),
            );
            sql_expression.add_to_from("buckets ON tickets.bucket_id = buckets.id".to_string());
            Ok(sql_expression)
        } else {
            Err(resolution_error("in_bucket"))
        }
    }
}

/// Tickets whose title contains a given text. At most one per compile pass.
#[derive(Eq, Hash, Ord, PartialEq, PartialOrd, Debug)]
pub struct TitleContainsInstruction {
    title: Parameter,
}

impl View for TitleContainsInstruction {
    type V = InstructionModel;

    closed spec fn view(&self) -> InstructionModel {
        InstructionModel::Function(FunctionKind::TitleContains, self.title@)
    }
}

impl FunctionTypeInstruction for TitleContainsInstruction {
    open spec fn kind() -> FunctionKind {
        FunctionKind::TitleContains
    }

    proof fn lemma_kind(&self) {
    }

    fn get_content(&self) -> (content: &Parameter) {
        &self.title
    }

    fn get_function_name() -> (name: String) {
        "title_contains".to_string()
    }

    fn get_instance(param: Parameter) -> (instance: Self) {
        TitleContainsInstruction { title: param }
    }

    fn initiate_unique(interpreter: &mut AdapterInterpreter) -> (unique: bool) {
        interpreter.initiate_unique(FunctionKind::TitleContains)
    }

    fn required_parameter_type() -> (data_type: VerifiableDataType) {
        VerifiableDataType::Text
    }
}

impl SqlParsable for TitleContainsInstruction {
    fn to_sql(&self, interpreter: &AdapterInterpreter, sql_expression: SqlExpression) -> (r: Result<
        SqlExpression,
        SqlParseError,
    >) {
        let mut sql_expression = sql_expression;
        let title_option = self.title.get_text(interpreter);
        if let Some(title) = title_option {
            let pattern = concat3("%", title.as_str(), "%");
            sql_expression.add_to_where(
                concat2("tickets.title LIKE ", quote_literal(pattern.as_str()).as_str()),
            );
            Ok(sql_expression)
        } else {
            Err(resolution_error("title_contains"))
        }
    }
}

/// Tickets whose description contains a given text. At most one per compile pass.
#[derive(Eq, Hash, Ord, PartialEq, PartialOrd, Debug)]
pub struct DescriptionContainsInstruction {
    description: Parameter,
}

impl View for DescriptionContainsInstruction {
    type V = InstructionModel;

    closed spec fn view(&self) -> InstructionModel {
        InstructionModel::Function(FunctionKind::DescriptionContains, self.description@)
    }
}

impl DescriptionContainsInstruction {
    /// The instruction with the given parameter.
    pub fn new(description: Parameter) -> (r: DescriptionContainsInstruction)
        ensures
            r@ == InstructionModel::Function(FunctionKind::DescriptionContains, description@),
    {
        DescriptionContainsInstruction { description }
    }
}

impl FunctionTypeInstruction for DescriptionContainsInstruction {
    open spec fn kind() -> FunctionKind {
        FunctionKind::DescriptionContains
    }

    proof fn lemma_kind(&self) {
    }

    fn get_content(&self) -> (content: &Parameter) {
        &self.description
    }

    fn get_function_name() -> (name: String) {
        "description_contains".to_string()
    }

    fn get_instance(param: Parameter) -> (instance: Self) {
        DescriptionContainsInstruction { description: param }
    }

    fn initiate_unique(interpreter: &mut AdapterInterpreter) -> (unique: bool) {
        interpreter.initiate_unique(FunctionKind::DescriptionContains)
    }

    fn required_parameter_type() -> (data_type: VerifiableDataType) {
        VerifiableDataType::Text
    }
}

impl SqlParsable for DescriptionContainsInstruction {
    fn to_sql(&self, interpreter: &AdapterInterpreter, sql_expression: SqlExpression) -> (r: Result<
        SqlExpression,
        SqlParseError,
    >) {
        let mut sql_expression = sql_expression;
        let desc_option = self.description.get_text(interpreter);
        if let Some(desc) = desc_option {
            let pattern = concat3("%", desc.as_str(), "%");
            sql_expression.add_to_where(
                concat2("tickets.description LIKE ", quote_literal(pattern.as_str()).as_str()),
            );
            Ok(sql_expression)
        } else {
            Err(resolution_error("description_contains"))
        }
    }
}

/// Tickets assigned to one of the given users.
#[derive(Eq, Hash, Ord, PartialEq, PartialOrd, Debug)]
pub struct AssignedToInstruction {
    pub user: Parameter,
}

impl View for AssignedToInstruction {
    type V = InstructionModel;

    open spec fn view(&self) -> InstructionModel {
        InstructionModel::Function(FunctionKind::AssignedTo, self.user@)
    }
}

impl FunctionTypeInstruction for AssignedToInstruction {
    open spec fn kind() -> FunctionKind {
        FunctionKind::AssignedTo
    }

    proof fn lemma_kind(&self) {
    }

    fn get_content(&self) -> (content: &Parameter) {
        &self.user
    }

    fn get_function_name() -> (name: String) {
        "assigned_to".to_string()
    }

    fn get_instance(param: Parameter) -> (instance: Self) {
        AssignedToInstruction { user: param }
    }

    fn initiate_unique(interpreter: &mut AdapterInterpreter) -> (unique: bool) {
        interpreter.initiate_unique(FunctionKind::AssignedTo)
    }

    fn required_parameter_type() -> (data_type: VerifiableDataType) {
        VerifiableDataType::TextArray
    }
}

/// The comparisons of the assignees, one for each user.
fn assignee_predicates(users: &Vec<String>) -> (r: Vec<String>)
    ensures
        texts(r@) == texts(users@).map_values(|user: Seq<char>| assignee_predicate(user)),
{
    let mut user_comps: Vec<String> = Vec::new();
    let mut i: usize = 0;
    while i < users.len()
        invariant
            i <= users.len(),
            user_comps@.len() == i,
            forall|j: int| 0 <= j < i ==> user_comps@[j]@ == assignee_predicate(users@[j]@),
        decreases users.len() - i,
    {
        user_comps.push(
            concat2("tickets.assigned_to = ", quote_literal(users[i].as_str()).as_str()),
        );
        i += 1;
    }
    assert(texts(user_comps@) =~= texts(users@).map_values(
        |user: Seq<char>| assignee_predicate(user),
    ));
    user_comps
}

impl SqlParsable for AssignedToInstruction {
    fn to_sql(&self, interpreter: &AdapterInterpreter, sql_expression: SqlExpression) -> (r: Result<
        SqlExpression,
        SqlParseError,
    >) {
        let mut sql_expression = sql_expression;
        let users_option = self.user.get_text_array(interpreter);
        if let Some(users) = users_option {
            let user_comps = assignee_predicates(&users);
            sql_expression.add_to_where(
                concat3("(", join(&user_comps, " OR ").as_str(), ")"),
            );
            Ok(sql_expression)
        } else {
            Err(resolution_error("assigned_to"))
        }
    }
}

/// Tickets that are due within a given number of days. At most one per compile pass.
#[derive(Eq, Hash, Ord, PartialEq, PartialOrd, Debug)]
pub struct DueInDaysInstruction {
    pub days: Parameter,
}

impl View for DueInDaysInstruction {
    type V = InstructionModel;

    open spec fn view(&self) -> InstructionModel {
        InstructionModel::Function(FunctionKind::DueInDays, self.days@)
    }
}

impl FunctionTypeInstruction for DueInDaysInstruction {
    open spec fn kind() -> FunctionKind {
        FunctionKind::DueInDays
    }

    proof fn lemma_kind(&self) {
    }

    fn get_content(&self) -> (content: &Parameter) {
        &self.days
    }

    fn get_function_name() -> (name: String) {
        "due_in_days".to_string()
    }

    fn get_instance(param: Parameter) -> (instance: Self) {
        DueInDaysInstruction { days: param }
    }

    fn initiate_unique(interpreter: &mut AdapterInterpreter) -> (unique: bool) {
        interpreter.initiate_unique(FunctionKind::DueInDays)
    }

    fn required_parameter_type() -> (data_type: VerifiableDataType) {
        VerifiableDataType::Number
    }
}

impl SqlParsable for DueInDaysInstruction {
    fn to_sql(&self, interpreter: &AdapterInterpreter, sql_expression: SqlExpression) -> (r: Result<
        SqlExpression,
        SqlParseError,
    >) {
        let mut sql_expression = sql_expression;
        let days_options = self.days.get_number(interpreter);
        if let Some(days) = days_options {
            sql_expression.add_to_where(
                concat3(
                    "tickets.due_at < (SELECT unixepoch('now','start of day','+",
                    render_i32(days).as_str(),
                    " day'))",
                ),
            );
            Ok(sql_expression)
        } else {
            Err(resolution_error("due_in_days"))
        }
    }
}

/// The separator between two segments, each of which becomes one `SELECT`.
#[derive(Eq, Hash, Ord, PartialEq, PartialOrd, Debug)]
pub struct JoinInstruction {}

impl View for JoinInstruction {
    type V = InstructionModel;

    open spec fn view(&self) -> InstructionModel {
        InstructionModel::Join
    }
}

impl VerifiableInstruction for JoinInstruction {
    open spec fn tokenized(env: Environment, allowance: Allowance, code: Seq<char>) -> Tokenized<
        InstructionModel,
    > {
        join_tokenized(code)
    }

    open spec fn allowance_after(env: Environment, allowance: Allowance, code: Seq<char>) -> Allowance {
        allowance
    }

    fn is_valid_after(&self, _interpreter: &AdapterInterpreter, instruction: Instruction) -> (b:
        bool) {
        !matches!(instruction, Instruction::Join(_))
    }

    fn to_string(&self) -> (r: String) {
        ";; ".to_string()
    }

    fn try_tokenize(_interpreter: &mut AdapterInterpreter, code: String) -> (r: Result<
        (Self, String),
        TokenizationError,
    >) {
        let code_internal = trim_start(code.as_str());
        match strip_prefix(code_internal, ";;") {
            Some(code_final) => Ok((JoinInstruction {  }, code_final.to_string())),
            None => Err(TokenizationError::new("Expected ;; for Token")),
        }
    }
}

impl SqlParsable for JoinInstruction {
    fn to_sql(&self, _interpreter: &AdapterInterpreter, sql_expression: SqlExpression) -> (r: Result<
        SqlExpression,
        SqlParseError,
    >) {
        let mut sql_expression = sql_expression;
        if sql_expression.is_buffer_empty() {
            return Err(SqlParseError::new("Join instruction in the beginning is not allowed."));
        }
        if sql_expression.is_accumulator_empty() {
            return Err(SqlParseError::new("Can't have more than one ;; after eachother."));
        }
        sql_expression.flush();
        Ok(sql_expression)
    }
}

/// One instruction of any kind.
pub enum Instruction {
    WithState(WithStateInstruction),
    WithTag(WithTagInstruction),
    InBucket(InBucketInstruction),
    TitleContains(TitleContainsInstruction),
    DescriptionContains(DescriptionContainsInstruction),
    AssignedTo(AssignedToInstruction),
    DueInDays(DueInDaysInstruction),
    Join(JoinInstruction),
}

impl View for Instruction {
    type V = InstructionModel;

    open spec fn view(&self) -> InstructionModel {
        match self {
            Instruction::WithState(instr) => instr@,
            Instruction::WithTag(instr) => instr@,
            Instruction::InBucket(instr) => instr@,
            Instruction::TitleContains(instr) => instr@,
            Instruction::DescriptionContains(instr) => instr@,
            Instruction::AssignedTo(instr) => instr@,
            Instruction::DueInDays(instr) => instr@,
            Instruction::Join(instr) => instr@,
        }
    }
}

impl VerifiableInstruction for Instruction {
    open spec fn tokenized(env: Environment, allowance: Allowance, code: Seq<char>) -> Tokenized<
        InstructionModel,
    > {
        instruction_tokenized(env, allowance, code)
    }

    open spec fn allowance_after(env: Environment, allowance: Allowance, code: Seq<char>) -> Allowance {
        instruction_allowance(env, allowance, code)
    }

    fn is_valid_after(&self, interpreter: &AdapterInterpreter, instruction: Instruction) -> (b:
        bool) {
        match self {
            Instruction::WithState(instr) => instr.is_valid_after(interpreter, instruction),
            Instruction::WithTag(instr) => instr.is_valid_after(interpreter, instruction),
            Instruction::InBucket(instr) => instr.is_valid_after(interpreter, instruction),
            Instruction::TitleContains(instr) => instr.is_valid_after(interpreter, instruction),
            Instruction::DescriptionContains(instr) => instr.is_valid_after(
                interpreter,
                instruction,
            ),
            Instruction::AssignedTo(instr) => instr.is_valid_after(interpreter, instruction),
            Instruction::DueInDays(instr) => instr.is_valid_after(interpreter, instruction),
            Instruction::Join(instr) => instr.is_valid_after(interpreter, instruction),
        }
    }

    fn to_string(&self) -> (r: String) {
        match self {
            Instruction::WithState(instr) => instr.to_string(),
            Instruction::WithTag(instr) => instr.to_string(),
            Instruction::InBucket(instr) => instr.to_string(),
            Instruction::TitleContains(instr) => instr.to_string(),
            Instruction::DescriptionContains(instr) => instr.to_string(),
            Instruction::AssignedTo(instr) => instr.to_string(),
            Instruction::DueInDays(instr) => instr.to_string(),
            Instruction::Join(instr) => instr.to_string(),
        }
    }

    fn try_tokenize(interpreter: &mut AdapterInterpreter, code: String) -> (r: Result<
        (Self, String),
        TokenizationError,
    >) {
        let ghost env = interpreter@.env;
        let ghost allowance = interpreter@.allowance;
        let ghost wanted = instruction_alternatives(env, allowance, code@);
        let results: Alternatives<Instruction> = Alternatives::new();
        proof {
            assert(results.outcomes() =~= wanted.take(0));
        }
        proof {
            lemma_alternative_independent(0, env, allowance, code@);
        }
        let results = results.offer(
            match WithStateInstruction::try_tokenize(interpreter, code.clone()) {
                Ok(result) => Ok((Instruction::WithState(result.0), result.1)),
                Err(err) => Err(err),
            },
        );
        proof {
            assert(results.outcomes() =~= wanted.take(1));
        }
        proof {
            lemma_alternative_independent(1, env, allowance, code@);
        }
        let results = results.offer(
            match WithTagInstruction::try_tokenize(interpreter, code.clone()) {
                Ok(result) => Ok((Instruction::WithTag(result.0), result.1)),
                Err(err) => Err(err),
            },
        );
        proof {
            assert(results.outcomes() =~= wanted.take(2));
        }
        proof {
            lemma_alternative_independent(2, env, allowance, code@);
        }
        let results = results.offer(
            match InBucketInstruction::try_tokenize(interpreter, code.clone()) {
                Ok(result) => Ok((Instruction::InBucket(result.0), result.1)),
                Err(err) => Err(err),
            },
        );
        proof {
            assert(results.outcomes() =~= wanted.take(3));
        }
        proof {
            lemma_alternative_independent(3, env, allowance, code@);
        }
        let results = results.offer(
            match TitleContainsInstruction::try_tokenize(interpreter, code.clone()) {
                Ok(result) => Ok((Instruction::TitleContains(result.0), result.1)),
                Err(err) => Err(err),
            },
        );
        proof {
            assert(results.outcomes() =~= wanted.take(4));
        }
        proof {
            lemma_alternative_independent(4, env, allowance, code@);
        }
        let results = results.offer(
            match DescriptionContainsInstruction::try_tokenize(interpreter, code.clone()) {
                Ok(result) => Ok((Instruction::DescriptionContains(result.0), result.1)),
                Err(err) => Err(err),
            },
        );
        proof {
            assert(results.outcomes() =~= wanted.take(5));
        }
        proof {
            lemma_alternative_independent(5, env, allowance, code@);
        }
        let results = results.offer(
            match AssignedToInstruction::try_tokenize(interpreter, code.clone()) {
                Ok(result) => Ok((Instruction::AssignedTo(result.0), result.1)),
                Err(err) => Err(err),
            },
        );
        proof {
            assert(results.outcomes() =~= wanted.take(6));
        }
        proof {
            lemma_alternative_independent(6, env, allowance, code@);
        }
        let results = results.offer(
            match DueInDaysInstruction::try_tokenize(interpreter, code.clone()) {
                Ok(result) => Ok((Instruction::DueInDays(result.0), result.1)),
                Err(err) => Err(err),
            },
        );
        proof {
            assert(results.outcomes() =~= wanted.take(7));
        }
        let results = results.offer(
            match JoinInstruction::try_tokenize(interpreter, code) {
                Ok(result) => Ok((Instruction::Join(result.0), result.1)),
                Err(err) => Err(err),
            },
        );
        proof {
            assert(results.outcomes() =~= wanted);
        }
        results.finish()
    }
}

impl SqlParsable for Instruction {
    fn to_sql(&self, interpreter: &AdapterInterpreter, sql_expression: SqlExpression) -> (r: Result<
        SqlExpression,
        SqlParseError,
    >) {
        match self {
            Instruction::WithState(instr) => instr.to_sql(interpreter, sql_expression),
            Instruction::WithTag(instr) => instr.to_sql(interpreter, sql_expression),
            Instruction::InBucket(instr) => instr.to_sql(interpreter, sql_expression),
            Instruction::TitleContains(instr) => instr.to_sql(interpreter, sql_expression),
            Instruction::DescriptionContains(instr) => instr.to_sql(interpreter, sql_expression),
            Instruction::AssignedTo(instr) => instr.to_sql(interpreter, sql_expression),
            Instruction::DueInDays(instr) => instr.to_sql(interpreter, sql_expression),
            Instruction::Join(instr) => instr.to_sql(interpreter, sql_expression),
        }
    }
}

} // verus!
