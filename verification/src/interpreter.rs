//! The compile session and the accumulator into which SQL is generated.

use std::collections::VecDeque;
use vstd::hash_map::StringHashMap;
use vstd::prelude::*;
use crate::config_base::Config;
use crate::config_option::ConfigOptionModel;
use crate::interpreter_errors::{NewSqlParseError, SqlParseError, TokenizationError};
use crate::interpreter_instructions::{Instruction, VerifiableInstruction};
use crate::language::{
    after_construction,
    after_tokenizing,
    applied_all,
    constructed,
    filter_tokenized,
    lemma_instruction_consumes,
    nested_joins,
    preceded_by,
    rendered_instruction,
    rendered_instructions,
    text_tokenized,
    Allowance,
    FunctionKind,
    InstructionModel,
    InterpreterState,
    SqlModel,
    applied,
    sql_literal,
};
use crate::text::{concat3, join, lemma_trimmed_start_suffix, texts, trim, trim_start, trimmed_start};

verus! {

/// The accumulator of the code generator. Its view is a [`SqlModel`].
pub struct SqlExpression {
    finished_expression: String,
    from_expression: Vec<String>,
    where_expression: Vec<String>,
}

impl View for SqlExpression {
    type V = SqlModel;

    closed spec fn view(&self) -> SqlModel {
        SqlModel {
            finished: self.finished_expression@,
            joins: texts(self.from_expression@),
            predicates: texts(self.where_expression@),
        }
    }
}

impl Default for SqlExpression {
    fn default() -> (r: Self)
        ensures
            r@ == SqlModel::empty(),
    {
        let r = SqlExpression {
            finished_expression: String::new(),
            from_expression: Vec::new(),
            where_expression: Vec::new(),
        };
        assert(r@.joins =~= Seq::empty());
        assert(r@.predicates =~= Seq::empty());
        r
    }
}

/// Whether one of `strings` has the text of `wanted`.
fn contains_text(strings: &Vec<String>, wanted: &String) -> (found: bool)
    ensures
        found == texts(strings@).contains(wanted@),
{
    let mut i: usize = 0;
    while i < strings.len()
        invariant
            i <= strings.len(),
            forall|j: int| 0 <= j < i ==> texts(strings@)[j] != wanted@,
        decreases strings.len() - i,
    {
        if strings[i] == *wanted {
            assert(texts(strings@)[i as int] == wanted@);
            return true;
        }
        i += 1;
    }
    false
}

/// The tickets table joined with each fragment in turn.
fn nest_joins(fragments: &Vec<String>) -> (r: String)
    ensures
        r@ == nested_joins(texts(fragments@)),
{
    let mut r = "tickets".to_string();
    let mut i: usize = 0;
    proof {
        assert(texts(fragments@).take(0) =~= Seq::<Seq<char>>::empty());
    }
    while i < fragments.len()
        invariant
            i <= fragments.len(),
            r@ == nested_joins(texts(fragments@).take(i as int)),
        decreases fragments.len() - i,
    {
        proof {
            assert(texts(fragments@).take(i + 1).drop_last() =~= texts(fragments@).take(i as int));
            assert(texts(fragments@).take(i + 1).last() == fragments@[i as int]@);
        }
        let mut nested = "(".to_string();
        nested.append(r.as_str());
        nested.append(") JOIN ");
        nested.append(fragments[i].as_str());
        r = nested;
        i += 1;
    }
    proof {
        assert(texts(fragments@).take(fragments@.len() as int) =~= texts(fragments@));
    }
    r
}

/// Renders resolved text as a quoted SQL literal. The text is taken as it is:
/// a quote inside it ends the literal early.
pub fn quote_literal(text: &str) -> (r: String)
    ensures
        r@ == sql_literal(text@),
{
    concat3("'", text, "'")
}

impl SqlExpression {
    /// Adds a join fragment to the segment, unless the segment has it.
    pub fn add_to_from(&mut self, expression: String)
        ensures
            final(self)@ == old(self)@.with_join(expression@),
    {
        if !contains_text(&self.from_expression, &expression) {
            self.from_expression.push(expression);
            assert(texts(self.from_expression@) =~= texts(old(self).from_expression@).push(
                expression@,
            ));
        }
    }

    /// Adds a predicate to the segment.
    pub fn add_to_where(&mut self, expression: String)
        ensures
            final(self)@ == old(self)@.with_predicate(expression@),
    {
        self.where_expression.push(expression);
        assert(texts(self.where_expression@) =~= texts(old(self).where_expression@).push(
            expression@,
        ));
    }

    /// Writes text behind the finished text.
    pub fn _add_directly(&mut self, expression: String)
        ensures
            final(self)@ == (SqlModel {
                finished: old(self)@.finished + expression@,
                ..old(self)@
            }),
    {
        self.finished_expression.append(expression.as_str());
    }

    /// Writes the segment to the finished text as one `SELECT`, and begins a new one.
    pub fn flush(&mut self)
        ensures
            final(self)@ == old(self)@.flushed(),
    {
        if self.finished_expression.as_str().is_empty() {
            self.finished_expression.append("SELECT tickets.* FROM ");
        } else {
            self.finished_expression.append(" UNION SELECT tickets.* FROM ");
        }
        let join_expression = nest_joins(&self.from_expression);
        self.finished_expression.append(join_expression.as_str());
        if self.where_expression.len() > 0 {
            self.finished_expression.append(" WHERE ");
            let predicates = join(&self.where_expression, " AND ");
            self.finished_expression.append(predicates.as_str());
        }
        self.where_expression.clear();
        self.from_expression.clear();
        proof {
            assert(texts(self.from_expression@) =~= Seq::empty());
            assert(texts(self.where_expression@) =~= Seq::empty());
            assert(self@.finished =~= old(self)@.flushed().finished);
        }
    }

    /// Whether nothing was finished and the segment holds nothing.
    pub fn is_buffer_empty(&self) -> (b: bool)
        ensures
            b == self@.is_buffer_empty(),
    {
        self.finished_expression.as_str().is_empty() && self.from_expression.len() == 0
            && self.where_expression.len() == 0
    }

    /// Whether the segment holds nothing.
    pub fn is_accumulator_empty(&self) -> (b: bool)
        ensures
            b == self@.is_accumulator_empty(),
    {
        self.from_expression.len() == 0 && self.where_expression.len() == 0
    }

    /// Closes the finished text and hands it out.
    pub fn get_final(&mut self) -> (r: &String)
        ensures
            final(self)@ == (SqlModel { finished: old(self)@.closed(), ..old(self)@ }),
            r@ == old(self)@.closed(),
    {
        proof {
            reveal_strlit(";");
        }
        self.finished_expression.append(";");
        assert(self.finished_expression@ =~= old(self)@.closed());
        &self.finished_expression
    }
}

/// What can add itself to the accumulator of the code generator.
pub trait SqlParsable: Sized + View<V = InstructionModel> {
    fn to_sql(&self, interpreter: &AdapterInterpreter, sql_expression: SqlExpression) -> (r: Result<
        SqlExpression,
        SqlParseError,
    >)
        ensures
            match applied(self@, interpreter@.env, sql_expression@) {
                Ok(sql) => r matches Ok(done) && done@ == sql,
                Err(message) => r matches Err(e) && e@ == message,
            },
    ;
}

/// A compile session: the variable environment, the instructions that were
/// tokenized and wait for code generation, the failure of the last tokenization
/// if it failed, and which singleton instructions may still be tokenized.
///
/// Its view is an [`InterpreterState`].
pub struct AdapterInterpreter {
    instructions: VecDeque<Instruction>,
    variables: StringHashMap<String>,
    last_error: Option<TokenizationError>,
    pub can_have_title_contains: bool,
    pub can_have_descr_contains: bool,
    pub can_have_due_in_days: bool,
}

impl View for AdapterInterpreter {
    type V = InterpreterState;

    closed spec fn view(&self) -> InterpreterState {
        InterpreterState {
            env: self.variables@.map_values(|value: String| value@),
            pending: self.instructions@.map_values(|instruction: Instruction| instruction@),
            last_error: match self.last_error {
                Some(error) => Some(error@),
                None => None,
            },
            allowance: Allowance {
                title_contains: self.can_have_title_contains,
                description_contains: self.can_have_descr_contains,
                due_in_days: self.can_have_due_in_days,
            },
        }
    }
}

impl Default for AdapterInterpreter {
    fn default() -> (r: Self)
        ensures
            r@ == (InterpreterState {
                env: Map::empty(),
                pending: Seq::empty(),
                last_error: None,
                allowance: Allowance::fresh(),
            }),
    {
        let r = AdapterInterpreter {
            instructions: VecDeque::new(),
            variables: StringHashMap::new(),
            can_have_title_contains: true,
            can_have_descr_contains: true,
            can_have_due_in_days: true,
            last_error: None,
        };
        assert(r@.env =~= Map::empty());
        assert(r@.pending =~= Seq::empty());
        r
    }
}

impl AdapterInterpreter {
    /// Whether the environment binds the name.
    pub fn has_variable(&self, variable_name: &String) -> (b: bool)
        ensures
            b == self@.env.contains_key(variable_name@),
    {
        self.variables.contains_key(variable_name.as_str())
    }

    /// The text that the environment binds to the name, if it binds it.
    pub fn get_variable(&self, variable_name: &String) -> (r: Option<&String>)
        ensures
            match r {
                Some(value) => self@.env.contains_key(variable_name@) && value@
                    == self@.env[variable_name@],
                None => !self@.env.contains_key(variable_name@),
            },
    {
        self.variables.get(variable_name.as_str())
    }

    /// Binds the name to the text, in the place of what it was bound to.
    pub fn set_variable(&mut self, variable_name: &str, value: &str)
        ensures
            final(self)@ == (InterpreterState {
                env: old(self)@.env.insert(variable_name@, value@),
                ..old(self)@
            }),
    {
        self.variables.insert(variable_name.to_string(), value.to_string());
        assert(self@.env =~= old(self)@.env.insert(variable_name@, value@));
    }

    /// Binds the variable `me` to the name of the user, which is the option
    /// `username` of the configuration. Where the configuration has no such
    /// option, it gets one, with the name `new User`.
    pub fn setup_environment(&mut self, config: &mut Config)
        ensures
            final(config)@ == if old(config)@.contains_key("username"@) {
                old(config)@
            } else {
                old(config)@.insert(
                    "username"@,
                    ConfigOptionModel { value: "new User"@, display_options: ""@ },
                )
            },
            final(self)@ == (InterpreterState {
                env: old(self)@.env.insert("me"@, final(config)@["username"@].value),
                ..old(self)@
            }),
    {
        let username = config.get_or_default("username", "new User", "").raw();
        self.set_variable("me", username.as_str());
    }

    /// The failure of the last tokenization, if it failed.
    pub fn get_last_error(&self) -> (r: Option<TokenizationError>)
        ensures
            match r {
                Some(error) => self@.last_error == Some(error@),
                None => self@.last_error is None,
            },
    {
        match &self.last_error {
            Some(error) => Some(error.clone()),
            None => None,
        }
    }

    /// Tokenizes a filter text. Whatever was pending before is dropped, and
    /// every singleton kind is allowed again: each call is a pass of its own.
    /// After a failure nothing is pending, and the failure is kept until the
    /// next call succeeds.
    pub fn try_tokenize(&mut self, code: String) -> (r: Result<(), TokenizationError>)
        ensures
            final(self)@ == after_tokenizing(old(self)@, code@),
            match filter_tokenized(old(self)@.env, code@).0 {
                Ok(_) => r is Ok,
                Err(message) => r matches Err(error) && error@ == message,
            },
    {
        self.instructions.clear();
        self.can_have_title_contains = true;
        self.can_have_descr_contains = true;
        self.can_have_due_in_days = true;
        let ghost env = self@.env;
        let ghost mut remaining = code@;
        let mut code_internal = trim_start(code.as_str()).to_string();
        proof {
            assert(self@.pending =~= Seq::empty());
            assert(self@.pending + seq![] =~= seq![]);
        }
        while !code_internal.as_str().is_empty()
            invariant
                self@.env == env,
                env == old(self)@.env,
                code_internal@ == trimmed_start(remaining),
                filter_tokenized(env, code@) == preceded_by(
                    self@.pending,
                    text_tokenized(env, self@.allowance, remaining),
                ),
            decreases remaining.len(),
        {
            let ghost pending = self@.pending;
            let ghost allowance = self@.allowance;
            proof {
                lemma_instruction_consumes(env, allowance, code_internal@);
                lemma_trimmed_start_suffix(remaining);
            }
            match Instruction::try_tokenize(self, code_internal.clone()) {
                Ok(verified_instr) => {
                    proof {
                        let more = text_tokenized(env, self@.allowance, verified_instr.1@);
                        assert(text_tokenized(env, allowance, remaining) == preceded_by(
                            seq![verified_instr.0@],
                            more,
                        ));
                        if let Ok(rest) = more.0 {
                            assert(pending + (seq![verified_instr.0@] + rest) =~= pending.push(
                                verified_instr.0@,
                            ) + rest);
                        }
                        remaining = verified_instr.1@;
                    }
                    code_internal = trim_start(verified_instr.1.as_str()).to_string();
                    self.instructions.push_back(verified_instr.0);
                    proof {
                        assert(self@.pending =~= pending.push(verified_instr.0@));
                    }
                },
                Err(token_error) => {
                    proof {
                        assert(text_tokenized(env, allowance, remaining) == (
                            Err::<Seq<InstructionModel>, Seq<char>>(token_error@),
                            self@.allowance,
                        ));
                    }
                    self.last_error = Some(token_error.clone());
                    self.instructions.clear();
                    proof {
                        assert(self@.pending =~= Seq::empty());
                    }
                    return Err(token_error);
                },
            }
        }
        self.last_error = None;
        proof {
            assert(self@.pending + Seq::<InstructionModel>::empty() =~= self@.pending);
        }
        Ok(())
    }

    /// Generates the SQL query of the pending instructions and takes them from
    /// the session. Generation is all or nothing: where an instruction fails,
    /// what was generated is dropped, and so are the instructions behind it.
    /// Nothing is pending after an attempt, so that a second call without
    /// tokenizing again fails for want of instructions. Where the last
    /// tokenization has failed, nothing is attempted.
    pub fn construct_sql(&mut self) -> (r: Result<String, SqlParseError>)
        ensures
            match constructed(old(self)@) {
                Ok(sql) => r matches Ok(text) && text@ == sql,
                Err(message) => r matches Err(error) && error@ == message,
            },
            final(self)@ == after_construction(old(self)@),
    {
        if self.last_error.is_some() {
            return Err(
                SqlParseError::new(
                    "Cannot parse Instructions, because there was an Error when Tokenizing.",
                ),
            );
        }
        if self.instructions.len() == 0 {
            proof {
                assert(self@.pending =~= Seq::empty());
            }
            return Err(
                SqlParseError::new(
                    "Cannot parse Instruction, because nothing is in Buffer. Did you forget to tokenize first?",
                ),
            );
        }
        let ghost env = self@.env;
        let ghost whole = self@.pending;
        let mut expression: SqlExpression = SqlExpression::default();
        loop
            invariant
                self@ == (InterpreterState { pending: self@.pending, ..old(self)@ }),
                env == old(self)@.env,
                whole == old(self)@.pending,
                whole.len() > 0,
                old(self)@.last_error is None,
                applied_all(whole, env, SqlModel::empty()) == applied_all(
                    self@.pending,
                    env,
                    expression@,
                ),
            ensures
                self@.pending.len() == 0,
            decreases self@.pending.len(),
        {
            let ghost before = self@.pending;
            let ghost sql = expression@;
            match self.instructions.pop_front() {
                None => {
                    break ;
                },
                Some(instruction) => {
                    proof {
                        assert(self@.pending =~= before.skip(1));
                        assert(before[0] == instruction@);
                    }
                    match instruction.to_sql(self, expression) {
                        Ok(new_expression) => {
                            expression = new_expression;
                        },
                        Err(parse_error) => {
                            proof {
                                assert(applied_all(before, env, sql) == Err::<SqlModel, Seq<char>>(
                                    parse_error@,
                                ));
                            }
                            self.instructions.clear();
                            proof {
                                assert(self@.pending =~= Seq::empty());
                            }
                            return Err(parse_error);
                        },
                    }
                },
            }
        }
        proof {
            assert(self@.pending =~= Seq::empty());
        }
        expression.flush();
        Ok(expression.get_final().clone())
    }

    /// The pending instructions as text, one per line.
    pub fn to_string(&self) -> (r: String)
        ensures
            r@ == rendered_instructions(self@.pending),
    {
        let mut lines: Vec<String> = Vec::new();
        let mut i: usize = 0;
        while i < self.instructions.len()
            invariant
                i <= self.instructions@.len(),
                lines@.len() == i,
                forall|j: int|
                    0 <= j < i ==> lines@[j]@ == rendered_instruction(self.instructions@[j]@),
            decreases self.instructions@.len() - i,
        {
            lines.push(self.instructions[i].to_string());
            i += 1;
        }
        proof {
            assert(texts(lines@) =~= self@.pending.map_values(
                |instruction: InstructionModel| rendered_instruction(instruction),
            ));
        }
        trim(join(&lines, "\n").as_str()).to_string()
    }

    /// Asks for the place of one more instruction of `kind` in the current
    /// pass. The place is taken from now on, whether or not it was free.
    pub fn initiate_unique(&mut self, kind: FunctionKind) -> (unique: bool)
        ensures
            unique == old(self)@.allowance.allows(kind),
            final(self)@ == (InterpreterState {
                allowance: old(self)@.allowance.claimed(kind),
                ..old(self)@
            }),
    {
        match kind {
            FunctionKind::TitleContains => {
                let unique = self.can_have_title_contains;
                self.can_have_title_contains = false;
                unique
            },
            FunctionKind::DescriptionContains => {
                let unique = self.can_have_descr_contains;
                self.can_have_descr_contains = false;
                unique
            },
            FunctionKind::DueInDays => {
                let unique = self.can_have_due_in_days;
                self.can_have_due_in_days = false;
                unique
            },
            _ => true,
        }
    }
}

} // verus!
