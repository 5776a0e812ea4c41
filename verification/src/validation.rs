//! Whether a bucket, a ticket, a state, a tag or a filter may be written: what
//! is found wrong with it, each finding with the place that it belongs to.

use vstd::prelude::*;
use crate::adapter_error::{
    expression_failure,
    AdapterError,
    AdapterErrorType,
};
use crate::bucket::Bucket;
use crate::filter::{
    Filter,
    FilterType,
};
use crate::state::State;
use crate::tag::Tag;
use crate::text::{
    concat3,
    decimal_nat,
    lowered,
    render_u64,
    same_lowered,
};
use crate::ticket::Ticket;
use crate::ticket_provider::{
    expression_models,
    filter_expressions,
    split_filter_expression,
    FilterExpression,
    FilterExpressionModel,
};

verus! {

/// What was found wrong: the place, and a message.
pub type Finding = (Seq<char>, Seq<char>);

/// What the findings stand for.
pub open spec fn finding_texts(findings: Seq<(String, String)>) -> Seq<Finding> {
    findings.map_values(|finding: (String, String)| (finding.0@, finding.1@))
}

/// One finding where the condition holds, none where it does not.
pub open spec fn when(condition: bool, place: Seq<char>, message: Seq<char>) -> Seq<Finding> {
    if condition {
        seq![(place, message)]
    } else {
        Seq::empty()
    }
}

/// The message that no adapter has the given name.
pub open spec fn unknown_adapter(adapter: Seq<char>) -> Seq<char> {
    "The Adapter \""@ + adapter + "\" does not match any of the available adapters."@
}

/// Whether a result is what a validation with the given findings gives: it
/// succeeds where nothing was found, and fails with all findings and the name
/// of what was validated where something was.
pub open spec fn is_validation(
    result: Result<(), AdapterError>,
    findings: Seq<Finding>,
    what: Seq<char>,
) -> bool {
    if findings.len() == 0 {
        result is Ok
    } else {
        result matches Err(error) && error.error_type matches AdapterErrorType::Validate(found, name)
            && finding_texts(found@) == findings && name@ == what
    }
}

/// Adds a finding.
fn note(findings: &mut Vec<(String, String)>, place: &str, message: String)
    ensures
        finding_texts(final(findings)@) == finding_texts(old(findings)@).push((place@, message@)),
{
    findings.push((place.to_string(), message));
    assert(finding_texts(findings@) =~= finding_texts(old(findings)@).push((place@, message@)));
}

/// The result of a validation with the given findings.
pub fn validation_outcome(validation_errors: Vec<(String, String)>, what: &str) -> (r: Result<
    (),
    AdapterError,
>)
    ensures
        is_validation(r, finding_texts(validation_errors@), what@),
{
    if validation_errors.len() == 0 {
        Ok(())
    } else {
        Err(AdapterError::new(AdapterErrorType::Validate(validation_errors, what.to_string())))
    }
}

/// Whether one of the buckets has the given name.
pub open spec fn has_bucket_named(buckets: Seq<Bucket>, name: Seq<char>) -> bool {
    exists|i: int| 0 <= i < buckets.len() && #[trigger] buckets[i].name@ == name
}

/// Whether one of the buckets has the given number.
pub open spec fn has_bucket_numbered(buckets: Seq<Bucket>, id: u64) -> bool {
    exists|i: int| 0 <= i < buckets.len() && #[trigger] buckets[i].identifier.id == id
}

/// Whether one of the states has the given name.
pub open spec fn has_state_named(states: Seq<State>, name: Seq<char>) -> bool {
    exists|i: int| 0 <= i < states.len() && #[trigger] states[i].identifier.name@ == name
}

/// What is wrong with a bucket that is to be written, given the buckets of
/// its adapter, or none where no adapter has the name that the bucket gives.
pub open spec fn bucket_findings(bucket: Bucket, existing: Option<Seq<Bucket>>) -> Seq<Finding> {
    when(
        bucket.name@.len() == 0,
        "name"@,
        "The name of the Bucket is not supposed to be empty!"@,
    ) + match existing {
        Some(buckets) => when(
            has_bucket_named(buckets, bucket.name@),
            "name"@,
            "The Bucket with name "@ + bucket.name@ + " does already exist in this adapter."@,
        ),
        None => seq![("adapter"@, unknown_adapter(bucket.identifier.adapter@))],
    }
}

/// Whether one of the buckets has the given name.
fn bucket_named(buckets: &Vec<Bucket>, name: &String) -> (found: bool)
    ensures
        found == has_bucket_named(buckets@, name@),
{
    let mut i: usize = 0;
    while i < buckets.len()
        invariant
            i <= buckets.len(),
            forall|j: int| 0 <= j < i ==> buckets@[j].name@ != name@,
        decreases buckets.len() - i,
    {
        if buckets[i].name == *name {
            return true;
        }
        i += 1;
    }
    false
}

/// Tells whether the bucket can be written as a new one of its adapter.
pub fn bucket_validate(bucket: &Bucket, existing: Option<&Vec<Bucket>>) -> (r: Result<
    (),
    AdapterError,
>)
    ensures
        is_validation(
            r,
            bucket_findings(
                *bucket,
                match existing {
                    Some(buckets) => Some(buckets@),
                    None => None,
                },
            ),
            "Bucket"@,
        ),
{
    let mut validation_errors: Vec<(String, String)> = Vec::new();
    proof {
        assert(finding_texts(validation_errors@) =~= Seq::empty());
    }
    if bucket.name.as_str().is_empty() {
        note(
            &mut validation_errors,
            "name",
            "The name of the Bucket is not supposed to be empty!".to_string(),
        );
    }
    match existing {
        Some(buckets) => {
            let bucket_matched = bucket_named(buckets, &bucket.name);
            if bucket_matched {
                note(
                    &mut validation_errors,
                    "name",
                    concat3(
                        "The Bucket with name ",
                        bucket.name.as_str(),
                        " does already exist in this adapter.",
                    ),
                );
            }
        },
        None => {
            note(
                &mut validation_errors,
                "adapter",
                concat3(
                    "The Adapter \"",
                    bucket.identifier.adapter.as_str(),
                    "\" does not match any of the available adapters.",
                ),
            );
        },
    }
    proof {
        assert(finding_texts(validation_errors@) =~= bucket_findings(
            *bucket,
            match existing {
                Some(buckets) => Some(buckets@),
                None => None,
            },
        ));
    }
    validation_outcome(validation_errors, "Bucket")
}

/// What is wrong with a state that is to be written.
pub open spec fn state_findings(state: State, adapter_matched: bool) -> Seq<Finding> {
    when(
        state.identifier.name@.len() == 0,
        "name"@,
        "The Name of the State is not supposed to be empty!"@,
    ) + when(
        vstd::utf8::encode_utf8(state.description@).len() > 1000,
        "description"@,
        "The arbitrary Limit of the State's Description of 1k chars is reached. Make sure the description is as short and concise as possible."@,
    ) + when(!adapter_matched, "adapter"@, unknown_adapter(state.identifier.adapter@))
}

/// Tells whether the state can be written as a new one of its adapter,
/// given whether an adapter has the name that the state gives.
pub fn state_validate(state: &State, adapter_matched: bool) -> (r: Result<(), AdapterError>)
    ensures
        is_validation(r, state_findings(*state, adapter_matched), "State"@),
{
    let mut validation_errors: Vec<(String, String)> = Vec::new();
    proof {
        assert(finding_texts(validation_errors@) =~= Seq::empty());
    }
    if state.identifier.name.as_str().is_empty() {
        note(
            &mut validation_errors,
            "name",
            "The Name of the State is not supposed to be empty!".to_string(),
        );
    }
    if state.description.as_str().as_bytes().len() > 1000 {
        note(
            &mut validation_errors,
            "description",
            "The arbitrary Limit of the State's Description of 1k chars is reached. Make sure the description is as short and concise as possible.".to_string(),
        );
    }
    if !adapter_matched {
        note(
            &mut validation_errors,
            "adapter",
            concat3(
                "The Adapter \"",
                state.identifier.adapter.as_str(),
                "\" does not match any of the available adapters.",
            ),
        );
    }
    proof {
        assert(finding_texts(validation_errors@) =~= state_findings(*state, adapter_matched));
    }
    validation_outcome(validation_errors, "State")
}

/// What is wrong with a tag that is to be written.
pub open spec fn tag_findings(tag: Tag, adapter_matched: bool) -> Seq<Finding> {
    when(tag.name@.len() == 0, "name"@, "The Name of the Tag is not supposed to be empty!"@) + when(
        lowered(tag.color@) == lowered(tag.color_text@),
        "color"@,
        "The colors of the font and the background are the same!"@,
    ) + when(!adapter_matched, "adapter"@, unknown_adapter(tag.adapter@))
}

/// Tells whether the tag can be written as a new one of its adapter, given
/// whether an adapter has the name that the tag gives.
pub fn tag_validate(tag: &Tag, adapter_matched: bool) -> (r: Result<(), AdapterError>)
    ensures
        is_validation(r, tag_findings(*tag, adapter_matched), "Tag"@),
{
    let mut validation_errors: Vec<(String, String)> = Vec::new();
    proof {
        assert(finding_texts(validation_errors@) =~= Seq::empty());
    }
    if tag.name.as_str().is_empty() {
        note(
            &mut validation_errors,
            "name",
            "The Name of the Tag is not supposed to be empty!".to_string(),
        );
    }
    if same_lowered(tag.color.as_str(), tag.color_text.as_str()) {
        note(
            &mut validation_errors,
            "color",
            "The colors of the font and the background are the same!".to_string(),
        );
    }
    if !adapter_matched {
        note(
            &mut validation_errors,
            "adapter",
            concat3(
                "The Adapter \"",
                tag.adapter.as_str(),
                "\" does not match any of the available adapters.",
            ),
        );
    }
    proof {
        assert(finding_texts(validation_errors@) =~= tag_findings(*tag, adapter_matched));
    }
    validation_outcome(validation_errors, "Tag")
}

/// What is wrong with a ticket that is to be written, given the buckets and
/// the states of its adapter, or none where no adapter has the name that the
/// ticket gives.
pub open spec fn ticket_findings(ticket: Ticket, existing: Option<(Seq<Bucket>, Seq<State>)>) -> Seq<
    Finding,
> {
    when(
        ticket.title@.len() == 0,
        "title"@,
        "The title of the Ticket is not supposed to be empty!"@,
    ) + match existing {
        Some((buckets, states)) => when(
            !has_bucket_numbered(buckets, ticket.bucket_id),
            "bucket"@,
            "The Bucket with id "@ + decimal_nat(ticket.bucket_id as nat)
                + " does not exist in this adapter."@,
        ) + when(
            !has_state_named(states, ticket.state_name@),
            "state"@,
            "The State \""@ + ticket.state_name@ + "\" does not exist in this adapter."@,
        ),
        None => seq![("adapter"@, unknown_adapter(ticket.adapter@))],
    }
}

/// Whether one of the buckets has the given number.
fn bucket_numbered(buckets: &Vec<Bucket>, id: u64) -> (found: bool)
    ensures
        found == has_bucket_numbered(buckets@, id),
{
    let mut i: usize = 0;
    while i < buckets.len()
        invariant
            i <= buckets.len(),
            forall|j: int| 0 <= j < i ==> buckets@[j].identifier.id != id,
        decreases buckets.len() - i,
    {
        if buckets[i].identifier.id == id {
            return true;
        }
        i += 1;
    }
    false
}

/// Whether one of the states has the given name.
fn state_named(states: &Vec<State>, name: &String) -> (found: bool)
    ensures
        found == has_state_named(states@, name@),
{
    let mut i: usize = 0;
    while i < states.len()
        invariant
            i <= states.len(),
            forall|j: int| 0 <= j < i ==> states@[j].identifier.name@ != name@,
        decreases states.len() - i,
    {
        if states[i].identifier.name == *name {
            return true;
        }
        i += 1;
    }
    false
}

/// Tells whether the ticket can be written as a new one of its adapter.
pub fn ticket_validate(ticket: &Ticket, existing: Option<(&Vec<Bucket>, &Vec<State>)>) -> (r: Result<
    (),
    AdapterError,
>)
    ensures
        is_validation(
            r,
            ticket_findings(
                *ticket,
                match existing {
                    Some((buckets, states)) => Some((buckets@, states@)),
                    None => None,
                },
            ),
            "Ticket"@,
        ),
{
    let mut validation_errors: Vec<(String, String)> = Vec::new();
    proof {
        assert(finding_texts(validation_errors@) =~= Seq::empty());
    }
    if ticket.title.as_str().is_empty() {
        note(
            &mut validation_errors,
            "title",
            "The title of the Ticket is not supposed to be empty!".to_string(),
        );
    }
    match existing {
        Some((buckets, states)) => {
            if !bucket_numbered(buckets, ticket.bucket_id) {
                note(
                    &mut validation_errors,
                    "bucket",
                    concat3(
                        "The Bucket with id ",
                        render_u64(ticket.bucket_id).as_str(),
                        " does not exist in this adapter.",
                    ),
                );
            }
            if !state_named(states, &ticket.state_name) {
                note(
                    &mut validation_errors,
                    "state",
                    concat3(
                        "The State \"",
                        ticket.state_name.as_str(),
                        "\" does not exist in this adapter.",
                    ),
                );
            }
        },
        None => {
            note(
                &mut validation_errors,
                "adapter",
                concat3(
                    "The Adapter \"",
                    ticket.adapter.as_str(),
                    "\" does not match any of the available adapters.",
                ),
            );
        },
    }
    proof {
        assert(finding_texts(validation_errors@) =~= ticket_findings(
            *ticket,
            match existing {
                Some((buckets, states)) => Some((buckets@, states@)),
                None => None,
            },
        ));
    }
    validation_outcome(validation_errors, "Ticket")
}

/// Whether a filter of the given type is made by its adapter, not by a user.
pub open spec fn is_fixed(filter_type: FilterType) -> bool {
    filter_type is Builtin || filter_type is Bucket || filter_type is Tag
}

/// What is wrong with a filter that is to be written, before its expressions
/// are looked at one by one.
pub open spec fn filter_findings(filter: Filter) -> Seq<Finding> {
    when(
        filter.identifier.name@.len() == 0,
        "name"@,
        "The Name of the Filter is not supposed to be empty!"@,
    ) + when(
        is_fixed(filter.filter_type),
        "filter_type"@,
        "The Type of the Filter does not allow it to be modified"@,
    ) + match filter_expressions(filter.operation@) {
        Some(Err(message)) => seq![("operation"@, expression_failure(message))],
        _ => Seq::empty(),
    }
}

/// The expressions of a filter that are to be looked at one by one: those of
/// its operation, or none where the operation cannot be taken apart.
pub open spec fn filter_parts(filter: Filter) -> Seq<FilterExpressionModel> {
    match filter_expressions(filter.operation@) {
        Some(Ok(found)) => found,
        _ => Seq::empty(),
    }
}

/// Begins the validation of a filter that is to be written: says what is
/// wrong with its name, its type and the form of its operation, and hands out
/// the expressions of the operation. Each of them is then to be shown to the
/// adapter that it is meant for.
pub fn filter_validate_form(filter: &Filter) -> (r: (Vec<(String, String)>, Vec<FilterExpression>))
    requires
        filter_expressions(filter.operation@) is Some,
    ensures
        finding_texts(r.0@) == filter_findings(*filter),
        expression_models(r.1@) == filter_parts(*filter),
{
    let mut validation_errors: Vec<(String, String)> = Vec::new();
    proof {
        assert(finding_texts(validation_errors@) =~= Seq::empty());
    }
    if filter.identifier.name.as_str().is_empty() {
        note(
            &mut validation_errors,
            "name",
            "The Name of the Filter is not supposed to be empty!".to_string(),
        );
    }
    let fixed = match filter.filter_type {
        FilterType::User => false,
        FilterType::Builtin => true,
        FilterType::Bucket(_) => true,
        FilterType::Tag => true,
        FilterType::Other => false,
    };
    if fixed {
        note(
            &mut validation_errors,
            "filter_type",
            "The Type of the Filter does not allow it to be modified".to_string(),
        );
    }
    let found_expressions = match split_filter_expression(filter.operation.clone()) {
        Ok(found_expressions) => found_expressions,
        Err(err) => {
            note(&mut validation_errors, "operation", err.get_text());
            let nothing: Vec<FilterExpression> = Vec::new();
            assert(expression_models(nothing@) =~= Seq::empty());
            nothing
        },
    };
    proof {
        assert(finding_texts(validation_errors@) =~= filter_findings(*filter));
    }
    (validation_errors, found_expressions)
}

/// What is wrong with one expression of a filter: that no adapter has the
/// name that the filter gives, and what the adapter that the expression is
/// meant for has found, under a heading that tells which expression it is.
pub open spec fn filter_expression_findings(
    filter: Filter,
    adapter_matched: bool,
    index: nat,
    expression: FilterExpressionModel,
    rejection: Option<Seq<Finding>>,
) -> Seq<Finding> {
    when(!adapter_matched, "adapter"@, unknown_adapter(filter.identifier.adapter@)) + match rejection {
        Some(found) => seq![
            (
                "operation"@,
                "Error in filter expression No "@ + decimal_nat(index + 1) + ", ("@
                    + expression.expression + ")"@,
            ),
        ] + found,
        None => Seq::empty(),
    }
}

/// Goes on with the validation of a filter by one expression of its
/// operation: adds what is wrong with it, given whether an adapter has the
/// name that the filter gives, and what the adapter that the expression is
/// meant for has found, if it has found anything.
pub fn filter_validate_expression(
    validation_errors: &mut Vec<(String, String)>,
    filter: &Filter,
    adapter_matched: bool,
    index: usize,
    expression: &FilterExpression,
    rejection: Option<Vec<(String, String)>>,
)
    requires
        index < usize::MAX,
    ensures
        finding_texts(final(validation_errors)@) == finding_texts(old(validation_errors)@)
            + filter_expression_findings(
            *filter,
            adapter_matched,
            index as nat,
            expression@,
            match rejection {
                Some(found) => Some(finding_texts(found@)),
                None => None,
            },
        ),
{
    let ghost before = finding_texts(validation_errors@);
    if !adapter_matched {
        note(
            validation_errors,
            "adapter",
            concat3(
                "The Adapter \"",
                filter.identifier.adapter.as_str(),
                "\" does not match any of the available adapters.",
            ),
        );
    }
    match rejection {
        Some(found) => {
            let mut heading = concat3(
                "Error in filter expression No ",
                render_u64((index + 1) as u64).as_str(),
                ", (",
            );
            heading.append(expression.expression().as_str());
            heading.append(")");
            note(validation_errors, "operation", heading);
            let mut found = found;
            let ghost first = validation_errors@;
            let ghost second = found@;
            validation_errors.append(&mut found);
            proof {
                assert(finding_texts(first + second) =~= finding_texts(first) + finding_texts(
                    second,
                ));
                assert(finding_texts(validation_errors@) =~= before + filter_expression_findings(
                    *filter,
                    adapter_matched,
                    index as nat,
                    expression@,
                    Some(finding_texts(second)),
                ));
            }
        },
        None => {
            proof {
                assert(finding_texts(validation_errors@) =~= before + filter_expression_findings(
                    *filter,
                    adapter_matched,
                    index as nat,
                    expression@,
                    None,
                ));
            }
        },
    }
}

} // verus!
