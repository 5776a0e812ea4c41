//! What holds of the filter language as a whole: statements about every
//! text, every environment and every list of instructions, proved from the
//! definitions that the tokenizer and the generator are verified against.

use vstd::prelude::*;
use crate::language::{
    after_construction,
    after_tokenizing,
    applied,
    applied_all,
    compiled,
    constructed,
    filter_tokenized,
    first_success,
    function_allowance,
    function_argument,
    function_tokenized,
    instruction_allowance,
    instruction_alternatives,
    instruction_tokenized,
    is_singleton,
    join_keyword,
    keyword,
    kinds_in_order,
    lemma_first_success,
    preceded_by,
    text_tokenized,
    Allowance,
    Environment,
    FunctionKind,
    InstructionModel,
    InterpreterState,
    SqlModel,
    Tokenized,
};
use crate::text::{is_white_space, lemma_trimmed_start_idempotent, trimmed_start};

verus! {

// ---------------------------------------------------------------------------
// Keywords
// ---------------------------------------------------------------------------

/// An index at which the keywords of two different kinds differ.
pub open spec fn keyword_difference(first: FunctionKind, second: FunctionKind) -> int {
    if (first == FunctionKind::WithState && second == FunctionKind::WithTag) || (first
        == FunctionKind::WithTag && second == FunctionKind::WithState) {
        5
    } else if (first == FunctionKind::DescriptionContains && second == FunctionKind::DueInDays) || (
    first == FunctionKind::DueInDays && second == FunctionKind::DescriptionContains) {
        1
    } else {
        0
    }
}

/// A keyword begins with a letter: no white space, no bracket, no semicolon.
pub proof fn lemma_keyword_begins(kind: FunctionKind)
    ensures
        keyword(kind).len() > 0,
        !is_white_space(keyword(kind)[0]),
        keyword(kind)[0] != ';',
        keyword(kind)[0] != '(',
{
    reveal_strlit("with_state");
    reveal_strlit("with_tag");
    reveal_strlit("in_bucket");
    reveal_strlit("title_contains");
    reveal_strlit("description_contains");
    reveal_strlit("assigned_to");
    reveal_strlit("due_in_days");
}

/// No keyword is the beginning of another: two different keywords differ at
/// an index that both have.
pub proof fn lemma_keywords_differ(first: FunctionKind, second: FunctionKind)
    requires
        first != second,
    ensures
        0 <= keyword_difference(first, second) < keyword(first).len(),
        keyword_difference(first, second) < keyword(second).len(),
        keyword(first)[keyword_difference(first, second)] != keyword(second)[keyword_difference(
            first,
            second,
        )],
{
    reveal_strlit("with_state");
    reveal_strlit("with_tag");
    reveal_strlit("in_bucket");
    reveal_strlit("title_contains");
    reveal_strlit("description_contains");
    reveal_strlit("assigned_to");
    reveal_strlit("due_in_days");
}

/// A text begins with the keyword of at most one kind.
pub proof fn lemma_keyword_exclusive(first: FunctionKind, second: FunctionKind, text: Seq<char>)
    requires
        first != second,
        keyword(first).is_prefix_of(text),
    ensures
        !keyword(second).is_prefix_of(text),
{
    lemma_keywords_differ(first, second);
    let at = keyword_difference(first, second);
    if keyword(second).is_prefix_of(text) {
        assert(text.subrange(0, keyword(first).len() as int)[at] == text[at]);
        assert(text.subrange(0, keyword(second).len() as int)[at] == text[at]);
    }
}

/// A text that begins with the separator begins with no keyword.
pub proof fn lemma_join_exclusive(kind: FunctionKind, text: Seq<char>)
    requires
        join_keyword().is_prefix_of(text),
    ensures
        !keyword(kind).is_prefix_of(text),
{
    lemma_keyword_begins(kind);
    reveal_strlit(";;");
    if keyword(kind).is_prefix_of(text) {
        assert(text.subrange(0, keyword(kind).len() as int)[0] == text[0]);
        assert(text.subrange(0, join_keyword().len() as int)[0] == text[0]);
    }
}

// ---------------------------------------------------------------------------
// Backtracking
// ---------------------------------------------------------------------------

/// Where every alternative before one that succeeded has failed, that one is
/// the first success.
pub proof fn lemma_first_success_at<T>(outcomes: Seq<Tokenized<T>>, index: int)
    requires
        0 <= index < outcomes.len(),
        outcomes[index] is Ok,
        forall|i: int| 0 <= i < index ==> outcomes[i] is Err,
    ensures
        first_success(outcomes) == Some(outcomes[index]->Ok_0),
    decreases outcomes.len(),
{
    if index == outcomes.len() - 1 {
        lemma_first_success(outcomes.drop_last());
    } else {
        lemma_first_success_at(outcomes.drop_last(), index);
    }
}

// ---------------------------------------------------------------------------
// Singleton instructions
// ---------------------------------------------------------------------------

/// A singleton instruction can be tokenized once in a pass and not again:
/// where two texts each hold an instruction of the same singleton kind with
/// its argument in order, the first is tokenized in a new pass, and the
/// second, tried in the same pass, fails with a message that names the
/// keyword. Tried in a new pass, the second is tokenized too.
pub proof fn law_singleton_once(
    kind: FunctionKind,
    env: Environment,
    first: Seq<char>,
    second: Seq<char>,
)
    requires
        is_singleton(kind),
        function_argument(kind, env, first) is Ok,
        function_argument(kind, env, second) is Ok,
    ensures
        function_tokenized(kind, env, Allowance::fresh(), first) is Ok,
        function_tokenized(
            kind,
            env,
            function_allowance(kind, env, Allowance::fresh(), first),
            second,
        ) == Err::<(InstructionModel, Seq<char>), Seq<char>>(
            "Can't have more than one "@ + keyword(kind),
        ),
        function_tokenized(kind, env, Allowance::fresh(), second) is Ok,
{
}

/// An instruction that is no singleton can be tokenized any number of times:
/// what was used before does not matter to it.
pub proof fn law_repeatable(kind: FunctionKind, env: Environment, allowance: Allowance, code: Seq<char>)
    requires
        !is_singleton(kind),
    ensures
        function_tokenized(kind, env, allowance, code) == function_tokenized(
            kind,
            env,
            Allowance::fresh(),
            code,
        ),
        function_allowance(kind, env, allowance, code) == allowance,
{
}

/// Each call to tokenize is a pass of its own: the state it leaves depends on
/// the environment and the text, not on what was pending, what had failed or
/// which singleton kinds had been used.
pub proof fn law_pass_starts_fresh(first: InterpreterState, second: InterpreterState, code: Seq<char>)
    requires
        first.env == second.env,
    ensures
        after_tokenizing(first, code) == after_tokenizing(second, code),
{
}

// ---------------------------------------------------------------------------
// Compiling without instructions
// ---------------------------------------------------------------------------

/// A session in which nothing is pending and nothing has failed, such as a
/// new one, does not compile: the author is asked whether tokenizing was
/// forgotten.
pub proof fn law_compile_needs_instructions(state: InterpreterState)
    requires
        state.last_error is None,
        state.pending.len() == 0,
    ensures
        constructed(state) == Err::<Seq<char>, Seq<char>>(
            "Cannot parse Instruction, because nothing is in Buffer. Did you forget to tokenize first?"@,
        ),
{
}

/// After a tokenization that failed, compiling fails and says that there was
/// an error when tokenizing, whatever the session held before.
pub proof fn law_compile_after_failure(state: InterpreterState, code: Seq<char>)
    requires
        filter_tokenized(state.env, code).0 is Err,
    ensures
        constructed(after_tokenizing(state, code)) == Err::<Seq<char>, Seq<char>>(
            "Cannot parse Instructions, because there was an Error when Tokenizing."@,
        ),
{
}

/// Compiling consumes the instructions, whether it succeeds or fails: in a
/// session whose last tokenization has not failed, nothing is pending after
/// a compile, and a second compile, without tokenizing again, fails for want
/// of instructions. No part of a query can be had from what an aborted
/// compile has left.
pub proof fn law_compile_consumes(state: InterpreterState)
    requires
        state.last_error is None,
    ensures
        after_construction(state).pending == Seq::<InstructionModel>::empty(),
        constructed(after_construction(state)) == Err::<Seq<char>, Seq<char>>(
            "Cannot parse Instruction, because nothing is in Buffer. Did you forget to tokenize first?"@,
        ),
{
}

/// After a compile, a second compile without tokenizing again never yields
/// a query, in whatever state the session was.
pub proof fn law_second_compile_fails(state: InterpreterState)
    ensures
        constructed(after_construction(state)) is Err,
{
}

// ---------------------------------------------------------------------------
// Separators
// ---------------------------------------------------------------------------

/// A list of instructions that begins with a separator does not compile.
pub proof fn law_leading_join(instructions: Seq<InstructionModel>, env: Environment)
    requires
        instructions.len() > 0,
        instructions[0] is Join,
    ensures
        compiled(instructions, env) == Err::<Seq<char>, Seq<char>>(
            "Join instruction in the beginning is not allowed."@,
        ),
{
}

/// A filter text that begins with `;;` does not compile: where it can be
/// tokenized, generating SQL fails at the separator.
pub proof fn law_text_begins_with_join(state: InterpreterState, code: Seq<char>)
    requires
        join_keyword().is_prefix_of(trimmed_start(code)),
        filter_tokenized(state.env, code).0 is Ok,
    ensures
        constructed(after_tokenizing(state, code)) == Err::<Seq<char>, Seq<char>>(
            "Join instruction in the beginning is not allowed."@,
        ),
{
    let env = state.env;
    let start = trimmed_start(code);
    let outcomes = instruction_alternatives(env, Allowance::fresh(), start);
    reveal_strlit(";;");
    lemma_trimmed_start_idempotent(code);
    assert forall|i: int| 0 <= i < 7 implies outcomes[i] is Err by {
        lemma_join_exclusive(kinds_in_order()[i], start);
    }
    lemma_first_success_at(outcomes, 7);
    let rest = start.skip(join_keyword().len() as int);
    assert(instruction_tokenized(env, Allowance::fresh(), start) == Ok::<
        (InstructionModel, Seq<char>),
        Seq<char>,
    >((InstructionModel::Join, rest)));
    let after = instruction_allowance(env, Allowance::fresh(), start);
    let more = text_tokenized(env, after, rest);
    assert(filter_tokenized(env, code) == preceded_by(seq![InstructionModel::Join], more));
    let pending = after_tokenizing(state, code).pending;
    assert(pending[0] == InstructionModel::Join);
}

/// After a separator the accumulator holds finished text and an empty segment.
proof fn lemma_flushed_shape(sql: SqlModel)
    ensures
        sql.flushed().is_accumulator_empty(),
        !sql.flushed().is_buffer_empty(),
{
    reveal_strlit("SELECT tickets.* FROM ");
    reveal_strlit(" UNION SELECT tickets.* FROM ");
}

/// Two separators in a row do not compile, from whatever accumulator the
/// instructions before them were applied.
proof fn lemma_consecutive_joins(
    instructions: Seq<InstructionModel>,
    env: Environment,
    sql: SqlModel,
    index: int,
)
    requires
        0 <= index,
        index + 1 < instructions.len(),
        instructions[index] is Join,
        instructions[index + 1] is Join,
        applied_all(instructions.take(index + 1), env, sql) is Ok,
    ensures
        applied_all(instructions, env, sql) == Err::<SqlModel, Seq<char>>(
            "Can't have more than one ;; after eachother."@,
        ),
    decreases index,
{
    let prefix = instructions.take(index + 1);
    assert(prefix[0] == instructions[0]);
    if index == 0 {
        assert(prefix.skip(1) =~= Seq::<InstructionModel>::empty());
        lemma_flushed_shape(sql);
        assert(instructions.skip(1)[0] == instructions[1]);
    } else {
        let next = applied(instructions[0], env, sql)->Ok_0;
        assert(prefix.skip(1) =~= instructions.skip(1).take(index));
        lemma_consecutive_joins(instructions.skip(1), env, next, index - 1);
    }
}

/// Two separators in a row do not compile: where the instructions up to the
/// first of them generate SQL, generation fails at the second.
pub proof fn law_consecutive_joins(instructions: Seq<InstructionModel>, env: Environment, index: int)
    requires
        0 <= index,
        index + 1 < instructions.len(),
        instructions[index] is Join,
        instructions[index + 1] is Join,
        applied_all(instructions.take(index + 1), env, SqlModel::empty()) is Ok,
    ensures
        compiled(instructions, env) == Err::<Seq<char>, Seq<char>>(
            "Can't have more than one ;; after eachother."@,
        ),
{
    lemma_consecutive_joins(instructions, env, SqlModel::empty(), index);
}

} // verus!
