//! How the operation of a filter is taken apart into expressions, each for one
//! adapter.

use vstd::prelude::*;
use crate::adapter_error::{
    AdapterError,
    AdapterErrorType,
};
use crate::text::{
    lemma_occurrence,
    lemma_trimmed_stretch,
    occurrence,
    position,
    split_at_char,
    split_at_text,
    texts,
    to_chars,
    trim,
    trimmed,
};

verus! {

/// An expression with the adapter that it is meant for.
pub struct FilterExpressionModel {
    pub adapter: Seq<char>,
    pub expression: Seq<char>,
}

/// One expression of the operation of a filter, with the name of the adapter
/// that it is meant for. Its view is a [`FilterExpressionModel`].
#[derive(PartialEq, Eq, Debug)]
pub struct FilterExpression {
    adapter: String,
    expression: String,
}

impl View for FilterExpression {
    type V = FilterExpressionModel;

    closed spec fn view(&self) -> FilterExpressionModel {
        FilterExpressionModel { adapter: self.adapter@, expression: self.expression@ }
    }
}

impl FilterExpression {
    /// The name of the adapter that the expression is meant for.
    pub fn adapter(&self) -> (r: &String)
        ensures
            r@ == self@.adapter,
    {
        &self.adapter
    }

    /// The expression.
    pub fn expression(&self) -> (r: &String)
        ensures
            r@ == self@.expression,
    {
        &self.expression
    }
}

/// What the expressions stand for.
pub open spec fn expression_models(expressions: Seq<FilterExpression>) -> Seq<FilterExpressionModel> {
    expressions.map_values(|expression: FilterExpression| expression@)
}

/// The number of bytes that a character takes in UTF-8.
pub open spec fn encoded_length(c: char) -> int {
    if c <= '\u{7f}' {
        1
    } else if c <= '\u{7ff}' {
        2
    } else if c <= '\u{ffff}' {
        3
    } else {
        4
    }
}

/// What is left of a text without the first two bytes of its encoding:
/// without two characters of one byte each, or without one character of two
/// bytes. Nothing where the second byte is not the last of a character.
pub open spec fn without_two_bytes(text: Seq<char>) -> Option<Seq<char>> {
    if text.len() >= 2 && encoded_length(text[0]) == 1 && encoded_length(text[1]) == 1 {
        Some(text.skip(2))
    } else if text.len() >= 1 && encoded_length(text[0]) == 2 {
        Some(text.skip(1))
    } else {
        None
    }
}

/// What stands between the brackets: the name of an adapter, a colon, and an
/// expression, each taken without white space around it.
pub open spec fn addressed(body: Seq<char>) -> Result<FilterExpressionModel, Seq<char>> {
    match position(body, ':') {
        Some(colon) => Ok(
            FilterExpressionModel {
                adapter: trimmed(body.take(colon)),
                expression: trimmed(body.skip(colon + 1)),
            },
        ),
        None => Err(
            "Expression doesn't follow adapter:expression between the square brackets"@,
        ),
    }
}

/// An outcome with one more expression before those it found.
pub open spec fn after_expression(
    first: FilterExpressionModel,
    outcome: Option<Result<Seq<FilterExpressionModel>, Seq<char>>>,
) -> Option<Result<Seq<FilterExpressionModel>, Seq<char>>> {
    match outcome {
        Some(Ok(more)) => Some(Ok(seq![first] + more)),
        other => other,
    }
}

/// The expressions of a text that has no white space at its ends: as long as
/// an opening pair of brackets occurs, two bytes are taken for it, and what
/// stands before the next closing pair is one expression. Nothing where the
/// text cannot be cut behind its second byte.
pub open spec fn expressions_from(text: Seq<char>) -> Option<
    Result<Seq<FilterExpressionModel>, Seq<char>>,
>
    decreases text.len(),
{
    if occurrence(text, "[["@) is None {
        Some(Ok(Seq::empty()))
    } else {
        match without_two_bytes(text) {
            None => None,
            Some(beginning) => match occurrence(beginning, "]]"@) {
                None => Some(Err("Expression doesn't end with ]]"@)),
                Some(end) => match addressed(beginning.take(end)) {
                    Err(message) => Some(Err(message)),
                    Ok(first) => {
                        let rest = trimmed(beginning.skip(end + "]]"@.len()));
                        proof {
                            lemma_occurrence(beginning, "]]"@);
                            lemma_trimmed_stretch(beginning.skip(end + "]]"@.len()));
                        }
                        after_expression(first, expressions_from(rest))
                    },
                },
            },
        }
    }
}

/// The expressions of the operation of a filter, which is a chain of
/// `[[adapter: expression]]`. There is at least one.
pub open spec fn filter_expressions(text: Seq<char>) -> Option<
    Result<Seq<FilterExpressionModel>, Seq<char>>,
> {
    match expressions_from(trimmed(text)) {
        Some(Ok(found)) => if found.len() == 0 {
            Some(Err("Expression needs start with [[ ! Is the expression empty?"@))
        } else {
            Some(Ok(found))
        },
        other => other,
    }
}

/// Whether an executable outcome is the given outcome.
pub open spec fn is_outcome(
    result: Option<Result<Vec<FilterExpression>, AdapterError>>,
    outcome: Option<Result<Seq<FilterExpressionModel>, Seq<char>>>,
) -> bool {
    match outcome {
        None => result is None,
        Some(Ok(found)) => result matches Some(Ok(expressions)) && expression_models(expressions@)
            == found,
        Some(Err(message)) => result matches Some(Err(error)) && error.error_type
            matches AdapterErrorType::Expression(reason) && reason@ == message,
    }
}

/// The text without the first two bytes of its encoding.
fn skip_two_bytes(text: &str) -> (r: Option<&str>)
    ensures
        match r {
            Some(rest) => without_two_bytes(text@) == Some(rest@),
            None => without_two_bytes(text@) is None,
        },
{
    let chars = to_chars(text);
    let n: usize = chars.len();
    if n >= 2 && chars[0] <= '\u{7f}' && chars[1] <= '\u{7f}' {
        proof {
            assert(text@.skip(2) =~= text@.subrange(2, n as int));
        }
        Some(text.substring_char(2, n))
    } else if n >= 1 && '\u{80}' <= chars[0] && chars[0] <= '\u{7ff}' {
        proof {
            assert(text@.skip(1) =~= text@.subrange(1, n as int));
        }
        Some(text.substring_char(1, n))
    } else {
        None
    }
}

/// A failure to take an operation apart, with its reason.
fn expression_error(reason: &str) -> (r: AdapterError)
    ensures
        r.error_type matches AdapterErrorType::Expression(text) && text@ == reason@,
{
    AdapterError { error_type: AdapterErrorType::Expression(reason.to_string()) }
}

/// Takes the operation of a filter apart into its expressions. Nothing is
/// returned where an opening pair of brackets is looked for in a text that
/// cannot be cut behind its second byte, as it begins with a character of
/// more than two bytes, or with a character of one byte and one of more.
pub fn try_split_filter_expression(filter_expression: String) -> (r: Option<
    Result<Vec<FilterExpression>, AdapterError>,
>)
    ensures
        is_outcome(r, filter_expressions(filter_expression@)),
{
    let mut expression = trim(filter_expression.as_str());
    let mut found_expressions: Vec<FilterExpression> = Vec::new();
    let ghost whole = expression@;
    proof {
        assert(expression_models(found_expressions@) =~= Seq::empty());
        match expressions_from(whole) {
            Some(Ok(more)) => {
                assert(expression_models(found_expressions@) + more =~= more);
            },
            _ => {},
        }
    }
    loop
        invariant
            whole == trimmed(filter_expression@),
            match expressions_from(expression@) {
                Some(Ok(more)) => expressions_from(whole) == Some(
                    Ok::<Seq<FilterExpressionModel>, Seq<char>>(
                        expression_models(found_expressions@) + more,
                    ),
                ),
                other => expressions_from(whole) == other,
            },
        ensures
            expressions_from(whole) == Some(
                Ok::<Seq<FilterExpressionModel>, Seq<char>>(expression_models(found_expressions@)),
            ),
        decreases expression@.len(),
    {
        if split_at_text(expression, "[[").is_none() {
            proof {
                assert(expression_models(found_expressions@) + Seq::empty()
                    =~= expression_models(found_expressions@));
            }
            break ;
        }
        let cleaned_expression_beginning = match skip_two_bytes(expression) {
            Some(beginning) => beginning,
            None => {
                return None;
            },
        };
        let (cleaned_expression, leftover_expression) = match split_at_text(
            cleaned_expression_beginning,
            "]]",
        ) {
            Some(parts) => parts,
            None => {
                return Some(Err(expression_error("Expression doesn't end with ]]")));
            },
        };
        let isolated_expr = match split_at_char(cleaned_expression, ':') {
            Some((adapter_name, adapter_op)) => FilterExpression {
                adapter: trim(adapter_name).to_string(),
                expression: trim(adapter_op).to_string(),
            },
            None => {
                return Some(
                    Err(
                        expression_error(
                            "Expression doesn't follow adapter:expression between the square brackets",
                        ),
                    ),
                );
            },
        };
        proof {
            lemma_occurrence(cleaned_expression_beginning@, "]]"@);
            lemma_trimmed_stretch(leftover_expression@);
            let before = expression_models(found_expressions@);
            match expressions_from(trimmed(leftover_expression@)) {
                Some(Ok(more)) => {
                    assert(before + (seq![isolated_expr@] + more) =~= before.push(isolated_expr@)
                        + more);
                },
                _ => {},
            }
        }
        let ghost before = found_expressions@;
        found_expressions.push(isolated_expr);
        proof {
            assert(expression_models(found_expressions@) =~= expression_models(before).push(
                isolated_expr@,
            ));
        }
        expression = trim(leftover_expression);
    }
    if found_expressions.len() == 0 {
        return Some(
            Err(expression_error("Expression needs start with [[ ! Is the expression empty?")),
        );
    }
    Some(Ok(found_expressions))
}

/// Takes the operation of a filter apart into its expressions: a chain of
/// `[[adapter: expression]]` gives one expression for each pair of brackets.
/// Left out are the texts that cannot be cut behind the second byte where an
/// opening pair of brackets is looked for.
pub fn split_filter_expression(filter_expression: String) -> (r: Result<
    Vec<FilterExpression>,
    AdapterError,
>)
    requires
        filter_expressions(filter_expression@) is Some,
    ensures
        is_outcome(Some(r), filter_expressions(filter_expression@)),
{
    match try_split_filter_expression(filter_expression) {
        Some(outcome) => outcome,
        None => Err(AdapterError { error_type: AdapterErrorType::Access }),
    }
}

} // verus!
