//! What the adapter for the issues of GitHub repositories decides before it
//! turns to the network. A repository is a bucket; the expression that lists
//! the issues of a repository is its name and its number.

use vstd::prelude::*;
use crate::bucket::Bucket;
use crate::config_base::Config;
use crate::filter::{addressed_expression, Filter, FilterType};
use crate::text::{
    concat3,
    decimal_nat,
    join,
    joined,
    parse_u64,
    parsed_u64,
    render_u64,
    split_on_text,
    split_text,
    texts,
};
use crate::ticket::Ticket;
use crate::adapter_registry::{default_config, get_default_config, option_of};
use crate::validation::{finding_texts, Finding};

verus! {

/// The name of the type of the adapter.
pub open spec fn github_type_name() -> Seq<char> {
    "github"@
}

/// The name under which the type of the adapter is shown.
pub open spec fn github_fancy_type_name() -> Seq<char> {
    "Github"@
}

/// The name of the type of the adapter.
pub fn get_type_name() -> (r: String)
    ensures
        r@ == github_type_name(),
{
    "github".to_string()
}

/// The name under which the type of the adapter is shown.
pub fn get_fancy_type_name() -> (r: String)
    ensures
        r@ == github_fancy_type_name(),
{
    "Github".to_string()
}

/// Creates the configuration that a new adapter begins with: the options of
/// every adapter, and an empty token and owner.
pub fn create_config(number: u128) -> (r: Config)
    ensures
        r@ == default_config(github_type_name(), github_fancy_type_name(), number as nat).insert(
            "personal_auth_token"@,
            option_of(""@, "string"@),
        ).insert("repo_owner"@, option_of(""@, "string"@)),
{
    get_default_config(get_type_name(), get_fancy_type_name(), number).with(
        "personal_auth_token",
        "",
        "string",
    ).with("repo_owner", "", "string")
}

/// What stands between the name of a repository and its number.
pub open spec fn expression_separator() -> Seq<char> {
    " ||| "@
}

/// The expression that lists the issues of a repository.
pub open spec fn bucket_expression(bucket: Bucket) -> Seq<char> {
    bucket.name@ + expression_separator() + decimal_nat(bucket.identifier.id as nat)
}

/// The expression that lists the issues of a repository.
pub fn filter_expr_from_bucket(bucket: &Bucket) -> (r: String)
    ensures
        r@ == bucket_expression(*bucket),
{
    concat3(bucket.name.as_str(), " ||| ", render_u64(bucket.identifier.id).as_str())
}

/// The filter that lists the issues of one repository.
pub open spec fn is_repository_filter(filter: Filter, adapter: Seq<char>, bucket: Bucket) -> bool {
    &&& filter.identifier.adapter@ == adapter
    &&& filter.identifier.name@ == bucket.name@
    &&& filter.operation@ == addressed_expression(adapter, bucket_expression(bucket))
    &&& filter.filter_type == FilterType::Bucket(bucket.identifier.id)
}

/// The filters that the adapter has of its own: for each repository one that
/// lists its issues.
pub fn list_builtin_filters(adapter_name: &String, buckets: &Vec<Bucket>) -> (r: Vec<Filter>)
    ensures
        r@.len() == buckets@.len(),
        forall|i: int|
            0 <= i < r@.len() ==> is_repository_filter(r@[i], adapter_name@, buckets@[i]),
{
    let mut filters: Vec<Filter> = Vec::new();
    let mut i: usize = 0;
    while i < buckets.len()
        invariant
            i <= buckets.len(),
            filters@.len() == i,
            forall|j: int|
                0 <= j < i ==> is_repository_filter(filters@[j], adapter_name@, buckets@[j]),
        decreases buckets.len() - i,
    {
        let bucket = &buckets[i];
        let filter = Filter::default().with_details(
            bucket.name.clone(),
            Filter::filter_expression(
                adapter_name.clone(),
                filter_expr_from_bucket(bucket).as_str(),
            ),
        ).with_type(FilterType::Bucket(bucket.identifier.id)).with_adapter_name(
            adapter_name.clone(),
        );
        filters.push(filter);
        i += 1;
    }
    filters
}

/// What is wrong with an expression: it has to be the name of a repository
/// and its number, with the separator between them and nowhere else.
pub open spec fn expression_findings(expression: Seq<char>) -> Seq<Finding> {
    let parts = split_on_text(expression, expression_separator());
    if parts.len() != 2 {
        seq![
            ("operation"@, "Expression needs to be in the form of \"repo_name ||| repo_id\""@),
        ]
    } else if parsed_u64(parts[1]) is None {
        seq![
            (
                "operation"@,
                "Expression needs to be in the form of \"repo_name ||| repo_id\". repo_id needs to be a number"@,
            ),
        ]
    } else {
        Seq::empty()
    }
}

/// Tells whether an expression is the name of a repository and its number.
pub fn filter_expression_validate(expression: &String) -> (r: Result<(), Vec<(String, String)>>)
    ensures
        match r {
            Ok(_) => expression_findings(expression@).len() == 0,
            Err(findings) => findings@.len() > 0 && finding_texts(findings@)
                == expression_findings(expression@),
        },
{
    proof {
        reveal_strlit(" ||| ");
    }
    let split_expression = split_text(expression.as_str(), " ||| ");
    let mut findings: Vec<(String, String)> = Vec::new();
    if split_expression.len() == 2 {
        match parse_u64(split_expression[1].as_str()) {
            Some(_) => Ok(()),
            None => {
                findings.push(
                    (
                        "operation".to_string(),
                        "Expression needs to be in the form of \"repo_name ||| repo_id\". repo_id needs to be a number".to_string(),
                    ),
                );
                proof {
                    assert(finding_texts(findings@) =~= expression_findings(expression@));
                }
                Err(findings)
            },
        }
    } else {
        findings.push(
            (
                "operation".to_string(),
                "Expression needs to be in the form of \"repo_name ||| repo_id\"".to_string(),
            ),
        );
        proof {
            assert(finding_texts(findings@) =~= expression_findings(expression@));
        }
        Err(findings)
    }
}

/// The repository that an expression names: what stands before the first
/// separator, and the number that stands behind it, up to the next.
pub open spec fn named_repository(expression: Seq<char>) -> Option<(Seq<char>, int)> {
    let parts = split_on_text(expression, expression_separator());
    if parts.len() >= 2 && parsed_u64(parts[1]) is Some {
        Some((parts[0], parsed_u64(parts[1]).unwrap()))
    } else {
        None
    }
}

/// Reads the name and the number of the repository that an expression names.
pub fn read_repository(expression: &str) -> (r: Option<(String, u64)>)
    ensures
        match r {
            Some((name, id)) => named_repository(expression@) == Some((name@, id as int)),
            None => named_repository(expression@) is None,
        },
{
    proof {
        reveal_strlit(" ||| ");
    }
    let split_expression = split_text(expression, " ||| ");
    if split_expression.len() < 2 {
        return None;
    }
    match parse_u64(split_expression[1].as_str()) {
        Some(id) => Some((split_expression[0].clone(), id)),
        None => None,
    }
}

/// Whether the issues of a repository have to be loaded again: they are
/// kept for five minutes.
pub fn is_outdated(now: u64, last_change: u64) -> (r: bool)
    requires
        last_change <= now,
    ensures
        r == (now - last_change > 300),
{
    now - last_change > 5 * 60
}

/// An issue as it comes from GitHub.
pub struct IssueRecord {
    pub id: u64,
    pub title: String,
    pub body: Option<String>,
    pub closed: bool,
    pub assignees: Vec<String>,
    pub labels: Vec<String>,
}

/// The ticket that stands for an issue: in the bucket of its repository,
/// with the issue's number, title and text, open or closed, assigned to all
/// assignees of the issue, and tagged with its labels.
pub fn ticket_of_issue(issue: IssueRecord, ticket_proto: &Ticket, bucket_id: u64) -> (r: Ticket)
    ensures
        r.adapter@ == ticket_proto.adapter@,
        r.created_at == ticket_proto.created_at,
        r.due_at == ticket_proto.due_at,
        r.id == issue.id as i64,
        r.bucket_id == bucket_id,
        r.title == issue.title,
        r.description@ == match issue.body {
            Some(body) => body@,
            None => Seq::<char>::empty(),
        },
        r.state_name@ == if issue.closed {
            "closed"@
        } else {
            "open"@
        },
        r.assigned_to@ == joined(texts(issue.assignees@), ", "@),
        r.tags == issue.labels,
{
    let assignees = join(&issue.assignees, ", ");
    let state_name = if issue.closed {
        "closed".to_string()
    } else {
        "open".to_string()
    };
    let description = match issue.body {
        Some(body) => body,
        None => String::new(),
    };
    Ticket {
        adapter: ticket_proto.adapter.clone(),
        id: issue.id as i64,
        bucket_id,
        title: issue.title,
        assigned_to: assignees,
        state_name,
        description,
        tags: issue.labels,
        created_at: ticket_proto.created_at,
        due_at: ticket_proto.due_at,
    }
}

} // verus!
