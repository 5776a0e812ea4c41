//! Tokenizing and rendering are inverse to each other: what the tokenizer
//! found, rendered and tokenized again, is found again.

use vstd::prelude::*;
use crate::language::{
    allowance_through,
    filter_tokenized,
    first_success,
    function_argument,
    function_tokenized,
    has_type,
    instruction_allowance,
    instruction_alternatives,
    instruction_tokenized,
    join_keyword,
    join_tokenized,
    keyword,
    kinds_in_order,
    lemma_first_success,
    lemma_instruction_consumes,
    literal_tokenized,
    parameter_tokenized,
    rendered_instruction,
    rendered_instructions,
    required_type,
    text_tokenized,
    variable_prefix,
    variable_tokenized,
    Allowance,
    Environment,
    FunctionKind,
    InstructionModel,
    ParameterModel,
};
use crate::laws::{
    lemma_first_success_at,
    lemma_join_exclusive,
    lemma_keyword_begins,
    lemma_keyword_exclusive,
};
use crate::text::{
    is_white_space,
    joined,
    lemma_position,
    lemma_position_is,
    lemma_trimmed_idempotent,
    lemma_trimmed_start_idempotent,
    lemma_trimmed_start_suffix,
    lemma_trimmed_without,
    position,
    trimmed,
    trimmed_end,
    trimmed_start,
};

verus! {

// ---------------------------------------------------------------------------
// The normalized form
// ---------------------------------------------------------------------------

/// A parameter written without white space.
pub open spec fn compact_parameter(parameter: ParameterModel) -> Seq<char> {
    match parameter {
        ParameterModel::Variable(name) => "(::"@ + name + ")"@,
        ParameterModel::Literal(text) => "("@ + text + ")"@,
    }
}

/// An instruction written without white space.
pub open spec fn compact_instruction(instruction: InstructionModel) -> Seq<char> {
    match instruction {
        InstructionModel::Function(kind, parameter) => keyword(kind) + compact_parameter(parameter),
        InstructionModel::Join => ";;"@,
    }
}

/// The normalized text of a list of instructions: each written without white
/// space, with a space and a line break between neighbours.
pub open spec fn normalized(instructions: Seq<InstructionModel>) -> Seq<char>
    decreases instructions.len(),
{
    if instructions.len() == 0 {
        Seq::empty()
    } else if instructions.len() == 1 {
        compact_instruction(instructions[0])
    } else {
        normalized(instructions.drop_last()) + " \n"@ + compact_instruction(instructions.last())
    }
}

/// Whether a parameter is a literal that begins like the name of a variable.
/// Such a literal comes from an argument with white space before the colons,
/// as in `( ::name)`. Rendered, it reads as the variable.
pub open spec fn reads_as_variable(parameter: ParameterModel) -> bool {
    parameter matches ParameterModel::Literal(text) && "::"@.is_prefix_of(text)
}

/// Whether the parameter of an instruction is a literal that begins like the
/// name of a variable.
pub open spec fn ambiguous(instruction: InstructionModel) -> bool {
    match instruction {
        InstructionModel::Function(_, parameter) => reads_as_variable(parameter),
        InstructionModel::Join => false,
    }
}

/// Whether no instruction has a literal that begins like the name of a variable.
pub open spec fn unambiguous(instructions: Seq<InstructionModel>) -> bool {
    forall|i: int| 0 <= i < instructions.len() ==> !ambiguous(#[trigger] instructions[i])
}

/// The kind of a function instruction.
pub open spec fn kind_of(instruction: InstructionModel) -> Option<FunctionKind> {
    match instruction {
        InstructionModel::Function(kind, _) => Some(kind),
        InstructionModel::Join => None,
    }
}

// ---------------------------------------------------------------------------
// What the tokenizer finds
// ---------------------------------------------------------------------------

/// What holds of every parameter that the tokenizer finds: a variable is
/// bound, a literal is not empty, and neither has white space at an end or a
/// closing bracket inside.
pub open spec fn proper_parameter(parameter: ParameterModel, env: Environment) -> bool {
    match parameter {
        ParameterModel::Variable(name) => env.contains_key(name) && trimmed(name) == name
            && !name.contains(')'),
        ParameterModel::Literal(text) => text.len() > 0 && trimmed(text) == text && !text.contains(
            ')',
        ),
    }
}

/// What holds of every instruction that the tokenizer finds: its parameter is
/// proper and of the type that its kind demands.
pub open spec fn proper_instruction(instruction: InstructionModel, env: Environment) -> bool {
    match instruction {
        InstructionModel::Function(kind, parameter) => proper_parameter(parameter, env) && has_type(
            parameter,
            env,
            required_type(kind),
        ),
        InstructionModel::Join => true,
    }
}

/// Whether the allowance has a place for the instruction.
pub open spec fn permits(allowance: Allowance, instruction: InstructionModel) -> bool {
    match instruction {
        InstructionModel::Function(kind, _) => allowance.allows(kind),
        InstructionModel::Join => true,
    }
}

/// The allowance once the instruction has taken its place.
pub open spec fn claimed_by(allowance: Allowance, instruction: InstructionModel) -> Allowance {
    match instruction {
        InstructionModel::Function(kind, _) => allowance.claimed(kind),
        InstructionModel::Join => allowance,
    }
}

/// The allowance once each of the instructions has taken its place.
pub open spec fn claimed_by_all(allowance: Allowance, instructions: Seq<InstructionModel>) -> Allowance
    decreases instructions.len(),
{
    if instructions.len() == 0 {
        allowance
    } else {
        claimed_by_all(claimed_by(allowance, instructions[0]), instructions.skip(1))
    }
}

/// What holds of every list that the tokenizer finds: each instruction is
/// proper and had its place when its turn came.
pub open spec fn proper_instructions(
    instructions: Seq<InstructionModel>,
    env: Environment,
    allowance: Allowance,
) -> bool
    decreases instructions.len(),
{
    if instructions.len() == 0 {
        true
    } else {
        &&& proper_instruction(instructions[0], env)
        &&& permits(allowance, instructions[0])
        &&& proper_instructions(
            instructions.skip(1),
            env,
            claimed_by(allowance, instructions[0]),
        )
    }
}

/// The place of a kind in the order in which the kinds are tried.
pub open spec fn order_of(kind: FunctionKind) -> int {
    match kind {
        FunctionKind::WithState => 0,
        FunctionKind::WithTag => 1,
        FunctionKind::InBucket => 2,
        FunctionKind::TitleContains => 3,
        FunctionKind::DescriptionContains => 4,
        FunctionKind::AssignedTo => 5,
        FunctionKind::DueInDays => 6,
    }
}

/// A parameter that the tokenizer finds is proper.
pub proof fn lemma_parameter_proper(env: Environment, code: Seq<char>)
    ensures
        match parameter_tokenized(env, code) {
            Ok((parameter, _)) => proper_parameter(parameter, env),
            Err(_) => true,
        },
{
    let outcomes = seq![variable_tokenized(env, code), literal_tokenized(code)];
    lemma_first_success(outcomes);
    let start = trimmed_start(code);
    if variable_prefix().is_prefix_of(start) {
        let body = start.skip(variable_prefix().len() as int);
        lemma_position(body, ')');
        if let Some(end) = position(body, ')') {
            lemma_trimmed_idempotent(body.take(end));
            lemma_trimmed_without(body.take(end), ')');
        }
    }
    if "("@.is_prefix_of(start) {
        let body = start.skip("("@.len() as int);
        lemma_position(body, ')');
        if let Some(end) = position(body, ')') {
            lemma_trimmed_idempotent(body.take(end));
            lemma_trimmed_without(body.take(end), ')');
        }
    }
}

/// Of the function kinds, only the one whose keyword the text begins with
/// claims its place; where the text begins with no keyword, none does.
proof fn lemma_claims_of(
    env: Environment,
    allowance: Allowance,
    code: Seq<char>,
    instruction: InstructionModel,
)
    requires
        match instruction {
            InstructionModel::Function(kind, _) => function_argument(kind, env, code) is Ok,
            InstructionModel::Join => join_keyword().is_prefix_of(trimmed_start(code)),
        },
    ensures
        instruction_allowance(env, allowance, code) == claimed_by(allowance, instruction),
{
    reveal_with_fuel(allowance_through, 8);
    let start = trimmed_start(code);
    assert forall|other: FunctionKind| kind_of(instruction) != Some(other) implies !(
    #[trigger] function_argument(other, env, code) is Ok) by {
        match instruction {
            InstructionModel::Function(kind, _) => {
                lemma_keyword_exclusive(kind, other, start);
            },
            InstructionModel::Join => {
                lemma_join_exclusive(other, start);
            },
        }
    }
    assert(function_argument(FunctionKind::WithState, env, code) is Ok ==> kind_of(instruction)
        == Some(FunctionKind::WithState));
    assert(function_argument(FunctionKind::WithTag, env, code) is Ok ==> kind_of(instruction)
        == Some(FunctionKind::WithTag));
    assert(function_argument(FunctionKind::InBucket, env, code) is Ok ==> kind_of(instruction)
        == Some(FunctionKind::InBucket));
    assert(function_argument(FunctionKind::TitleContains, env, code) is Ok ==> kind_of(
        instruction,
    ) == Some(FunctionKind::TitleContains));
    assert(function_argument(FunctionKind::DescriptionContains, env, code) is Ok ==> kind_of(
        instruction,
    ) == Some(FunctionKind::DescriptionContains));
    assert(function_argument(FunctionKind::AssignedTo, env, code) is Ok ==> kind_of(instruction)
        == Some(FunctionKind::AssignedTo));
    assert(function_argument(FunctionKind::DueInDays, env, code) is Ok ==> kind_of(instruction)
        == Some(FunctionKind::DueInDays));
}

/// An instruction that the tokenizer finds is proper and had its place, and
/// it is the only one to take a place.
pub proof fn lemma_instruction_proper(env: Environment, allowance: Allowance, code: Seq<char>)
    ensures
        match instruction_tokenized(env, allowance, code) {
            Ok((instruction, _)) => {
                &&& proper_instruction(instruction, env)
                &&& permits(allowance, instruction)
                &&& instruction_allowance(env, allowance, code) == claimed_by(
                    allowance,
                    instruction,
                )
            },
            Err(_) => true,
        },
{
    let outcomes = instruction_alternatives(env, allowance, code);
    lemma_first_success(outcomes);
    let start = trimmed_start(code);
    if let Some(found) = first_success(outcomes) {
        let i = choose|i: int|
            0 <= i < outcomes.len() && outcomes[i] == Ok::<(InstructionModel, Seq<char>), Seq<char>>(
                found,
            );
        if i < kinds_in_order().len() {
            let kind = kinds_in_order()[i];
            assert(outcomes[i] == function_tokenized(kind, env, allowance, code));
            lemma_parameter_proper(env, start.skip(keyword(kind).len() as int));
        } else {
            assert(outcomes[i] == join_tokenized(code));
        }
        lemma_claims_of(env, allowance, code, found.0);
    }
}

/// What follows leading white space is tokenized as the whole is.
pub proof fn lemma_text_trimmed(env: Environment, allowance: Allowance, code: Seq<char>)
    ensures
        text_tokenized(env, allowance, code) == text_tokenized(
            env,
            allowance,
            trimmed_start(code),
        ),
{
    lemma_trimmed_start_idempotent(code);
}

/// A list that the tokenizer finds is proper, and the allowance that the
/// pass leaves is the one that the instructions of the list leave.
pub proof fn lemma_text_proper(env: Environment, allowance: Allowance, code: Seq<char>)
    ensures
        match text_tokenized(env, allowance, code).0 {
            Ok(instructions) => {
                &&& proper_instructions(instructions, env, allowance)
                &&& text_tokenized(env, allowance, code).1 == claimed_by_all(
                    allowance,
                    instructions,
                )
            },
            Err(_) => true,
        },
    decreases code.len(),
{
    let start = trimmed_start(code);
    if start.len() > 0 {
        lemma_instruction_proper(env, allowance, start);
        lemma_instruction_consumes(env, allowance, start);
        lemma_trimmed_start_suffix(code);
        if let Ok((instruction, rest)) = instruction_tokenized(env, allowance, start) {
            let after = instruction_allowance(env, allowance, start);
            lemma_text_proper(env, after, rest);
            if let Ok(more) = text_tokenized(env, after, rest).0 {
                let instructions = seq![instruction] + more;
                assert(instructions[0] == instruction);
                assert(instructions.skip(1) =~= more);
            }
        }
    }
}

// ---------------------------------------------------------------------------
// Reading back
// ---------------------------------------------------------------------------

/// A proper parameter, written without white space, is read back as it is,
/// whatever follows, unless it is a literal that begins like a variable.
pub proof fn lemma_parameter_reads_back(parameter: ParameterModel, env: Environment, tail: Seq<char>)
    requires
        proper_parameter(parameter, env),
        !reads_as_variable(parameter),
    ensures
        parameter_tokenized(env, compact_parameter(parameter) + tail) == Ok::<
            (ParameterModel, Seq<char>),
            Seq<char>,
        >((parameter, tail)),
{
    reveal_strlit("(::");
    reveal_strlit("(");
    reveal_strlit(")");
    reveal_strlit("::");
    let code = compact_parameter(parameter) + tail;
    let outcomes = seq![variable_tokenized(env, code), literal_tokenized(code)];
    assert(code.len() > 0 && code[0] == '(');
    assert(trimmed_start(code) == code);
    match parameter {
        ParameterModel::Variable(name) => {
            assert(code.subrange(0, 3) =~= variable_prefix());
            let body = code.skip(3);
            assert(body =~= name + ")"@ + tail);
            assert forall|j: int| 0 <= j < name.len() implies body[j] != ')' by {
                assert(body[j] == name[j]);
                assert(name.contains(name[j]));
            }
            lemma_position_is(body, ')', name.len() as int);
            assert(body.take(name.len() as int) =~= name);
            assert(body.skip(name.len() as int + 1) =~= tail);
            lemma_first_success_at(outcomes, 0);
        },
        ParameterModel::Literal(text) => {
            assert(code.subrange(0, 1) =~= "("@);
            if variable_prefix().is_prefix_of(code) {
                assert(code.subrange(0, 3)[1] == ':');
                assert(code.subrange(0, 3)[2] == ':');
                assert(text.len() >= 2);
                assert(text.subrange(0, 2) =~= "::"@);
            }
            let body = code.skip(1);
            assert(body =~= text + ")"@ + tail);
            assert forall|j: int| 0 <= j < text.len() implies body[j] != ')' by {
                assert(body[j] == text[j]);
                assert(text.contains(text[j]));
            }
            lemma_position_is(body, ')', text.len() as int);
            assert(body.take(text.len() as int) =~= text);
            assert(body.skip(text.len() as int + 1) =~= tail);
            lemma_first_success_at(outcomes, 1);
        },
    }
}

/// A proper instruction that has its place, written without white space, is
/// read back as it is, whatever follows, unless its parameter is a literal
/// that begins like a variable.
pub proof fn lemma_instruction_reads_back(
    instruction: InstructionModel,
    env: Environment,
    allowance: Allowance,
    tail: Seq<char>,
)
    requires
        proper_instruction(instruction, env),
        permits(allowance, instruction),
        !ambiguous(instruction),
    ensures
        instruction_tokenized(env, allowance, compact_instruction(instruction) + tail) == Ok::<
            (InstructionModel, Seq<char>),
            Seq<char>,
        >((instruction, tail)),
        instruction_allowance(env, allowance, compact_instruction(instruction) + tail)
            == claimed_by(allowance, instruction),
{
    let code = compact_instruction(instruction) + tail;
    let outcomes = instruction_alternatives(env, allowance, code);
    match instruction {
        InstructionModel::Function(kind, parameter) => {
            lemma_keyword_begins(kind);
            assert(code[0] == keyword(kind)[0]);
            assert(trimmed_start(code) == code);
            assert(code.subrange(0, keyword(kind).len() as int) =~= keyword(kind));
            assert(code.skip(keyword(kind).len() as int) =~= compact_parameter(parameter) + tail);
            lemma_parameter_reads_back(parameter, env, tail);
            assert(function_argument(kind, env, code) is Ok);
            assert forall|i: int| 0 <= i < order_of(kind) implies outcomes[i] is Err by {
                lemma_keyword_exclusive(kind, kinds_in_order()[i], code);
            }
            assert(outcomes[order_of(kind)] == function_tokenized(kind, env, allowance, code));
            lemma_first_success_at(outcomes, order_of(kind));
        },
        InstructionModel::Join => {
            reveal_strlit(";;");
            assert(code[0] == ';');
            assert(trimmed_start(code) == code);
            assert(code.subrange(0, 2) =~= join_keyword());
            assert(code.skip(2) =~= tail);
            assert forall|i: int| 0 <= i < 7 implies outcomes[i] is Err by {
                lemma_join_exclusive(kinds_in_order()[i], code);
            }
            lemma_first_success_at(outcomes, 7);
        },
    }
    lemma_claims_of(env, allowance, code, instruction);
}

/// An instruction written without white space begins and ends with a
/// character that is no white space.
pub proof fn lemma_compact_ends(instruction: InstructionModel)
    ensures
        compact_instruction(instruction).len() > 0,
        !is_white_space(compact_instruction(instruction)[0]),
        !is_white_space(compact_instruction(instruction).last()),
{
    reveal_strlit(";;");
    reveal_strlit(")");
    reveal_strlit("(");
    reveal_strlit("(::");
    match instruction {
        InstructionModel::Function(kind, parameter) => {
            lemma_keyword_begins(kind);
            assert(compact_instruction(instruction)[0] == keyword(kind)[0]);
            assert(compact_parameter(parameter).last() == ')');
        },
        InstructionModel::Join => {},
    }
}

/// The normalized text of a list that is not empty begins and ends with a
/// character that is no white space.
pub proof fn lemma_normalized_ends(instructions: Seq<InstructionModel>)
    requires
        instructions.len() > 0,
    ensures
        normalized(instructions).len() > 0,
        !is_white_space(normalized(instructions)[0]),
        !is_white_space(normalized(instructions).last()),
    decreases instructions.len(),
{
    lemma_compact_ends(instructions.last());
    if instructions.len() > 1 {
        lemma_normalized_ends(instructions.drop_last());
        assert(normalized(instructions)[0] == normalized(instructions.drop_last())[0]);
    }
}

/// The normalized text of a list begins with its first instruction; the
/// others follow as they would stand alone.
pub proof fn lemma_normalized_first(instructions: Seq<InstructionModel>)
    requires
        instructions.len() > 1,
    ensures
        normalized(instructions) == compact_instruction(instructions[0]) + " \n"@ + normalized(
            instructions.skip(1),
        ),
    decreases instructions.len(),
{
    let init = instructions.drop_last();
    if instructions.len() == 2 {
        assert(init[0] == instructions[0]);
        assert(instructions.skip(1)[0] == instructions.last());
        assert(normalized(init) == compact_instruction(instructions[0]));
        assert(normalized(instructions.skip(1)) == compact_instruction(instructions.last()));
    } else {
        lemma_normalized_first(init);
        assert(init.skip(1) =~= instructions.skip(1).drop_last());
        assert(init[0] == instructions[0]);
        assert(instructions.skip(1).last() == instructions.last());
        assert(normalized(instructions) =~= compact_instruction(instructions[0]) + " \n"@
            + normalized(instructions.skip(1)));
    }
}

/// The normalized text of a proper list is tokenized to the list.
pub proof fn lemma_normalized_reads_back(
    instructions: Seq<InstructionModel>,
    env: Environment,
    allowance: Allowance,
)
    requires
        proper_instructions(instructions, env, allowance),
        unambiguous(instructions),
    ensures
        text_tokenized(env, allowance, normalized(instructions)) == (
            Ok::<Seq<InstructionModel>, Seq<char>>(instructions),
            claimed_by_all(allowance, instructions),
        ),
    decreases instructions.len(),
{
    if instructions.len() == 0 {
        assert(instructions =~= Seq::empty());
    } else {
        let first = instructions[0];
        let others = instructions.skip(1);
        let code = normalized(instructions);
        let after = claimed_by(allowance, first);
        lemma_normalized_ends(instructions);
        assert(trimmed_start(code) == code);
        assert(unambiguous(others)) by {
            assert forall|i: int| 0 <= i < others.len() implies !ambiguous(
                #[trigger] others[i],
            ) by {
                assert(others[i] == instructions[i + 1]);
            }
        }
        lemma_normalized_reads_back(others, env, after);
        if instructions.len() == 1 {
            let tail = Seq::<char>::empty();
            assert(code =~= compact_instruction(first) + tail);
            lemma_instruction_reads_back(first, env, allowance, tail);
            assert(others =~= Seq::empty());
            assert(text_tokenized(env, after, tail) == (
                Ok::<Seq<InstructionModel>, Seq<char>>(Seq::empty()),
                after,
            ));
            assert(seq![first] + Seq::<InstructionModel>::empty() =~= instructions);
        } else {
            lemma_normalized_first(instructions);
            let rest = normalized(others);
            let tail = " \n"@ + rest;
            assert(code =~= compact_instruction(first) + tail);
            lemma_instruction_reads_back(first, env, allowance, tail);
            lemma_text_trimmed(env, after, tail);
            lemma_normalized_ends(others);
            assert(trimmed_start(tail) == rest) by {
                reveal_strlit(" \n");
                reveal_with_fuel(trimmed_start, 3);
                assert(tail.skip(1).skip(1) =~= rest);
            }
            assert(seq![first] + others =~= instructions);
        }
    }
}

/// The rendering of a list of instructions is its normalized text.
pub proof fn lemma_rendering_normalized(instructions: Seq<InstructionModel>)
    ensures
        rendered_instructions(instructions) == normalized(instructions),
{
    let lines = instructions.map_values(
        |instruction: InstructionModel| rendered_instruction(instruction),
    );
    if instructions.len() == 0 {
        assert(joined(lines, "\n"@) =~= Seq::<char>::empty());
    } else {
        lemma_lines_joined(instructions);
        lemma_normalized_ends(instructions);
        let text = normalized(instructions);
        let spaced = text + " "@;
        reveal_strlit(" ");
        assert(trimmed_start(spaced) == spaced) by {
            assert(spaced[0] == text[0]);
        }
        assert(trimmed_end(spaced) == text) by {
            assert(spaced.last() == ' ');
            assert(spaced.drop_last() =~= text);
            assert(trimmed_end(text) == text);
        }
    }
}

/// The lines of a rendering, joined, are the normalized text and a space.
proof fn lemma_lines_joined(instructions: Seq<InstructionModel>)
    requires
        instructions.len() > 0,
    ensures
        joined(
            instructions.map_values(|instruction: InstructionModel| rendered_instruction(instruction)),
            "\n"@,
        ) == normalized(instructions) + " "@,
    decreases instructions.len(),
{
    let lines = instructions.map_values(
        |instruction: InstructionModel| rendered_instruction(instruction),
    );
    reveal_strlit(" ");
    reveal_strlit("\n");
    reveal_strlit(" \n");
    reveal_strlit(") ");
    reveal_strlit(")");
    reveal_strlit(";; ");
    reveal_strlit(";;");
    assert(rendered_instruction(instructions.last()) =~= compact_instruction(instructions.last())
        + " "@);
    if instructions.len() > 1 {
        let init = instructions.drop_last();
        lemma_lines_joined(init);
        assert(lines.drop_last() =~= init.map_values(
            |instruction: InstructionModel| rendered_instruction(instruction),
        ));
        assert(joined(lines, "\n"@) =~= normalized(instructions) + " "@);
    }
}

// ---------------------------------------------------------------------------
// The law
// ---------------------------------------------------------------------------

/// Tokenizing and rendering round-trip. Where a filter text is tokenized to a
/// list of instructions, the rendering of the list is its normalized text,
/// and tokenizing that text gives the same list again, and leaves the same
/// singleton kinds used.
///
/// One kind of text is left out: an argument written with white space before
/// two colons, as in `with_state( ::open)`, is a literal, and its rendering
/// `with_state(::open)` reads as a variable.
pub proof fn law_round_trip(env: Environment, code: Seq<char>)
    requires
        filter_tokenized(env, code).0 is Ok,
        unambiguous(filter_tokenized(env, code).0->Ok_0),
    ensures
        rendered_instructions(filter_tokenized(env, code).0->Ok_0) == normalized(
            filter_tokenized(env, code).0->Ok_0,
        ),
        filter_tokenized(env, rendered_instructions(filter_tokenized(env, code).0->Ok_0))
            == filter_tokenized(env, code),
{
    let instructions = filter_tokenized(env, code).0->Ok_0;
    lemma_text_proper(env, Allowance::fresh(), code);
    lemma_rendering_normalized(instructions);
    lemma_normalized_reads_back(instructions, env, Allowance::fresh());
}

} // verus!
