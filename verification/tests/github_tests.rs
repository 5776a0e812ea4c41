use tickets_rs::bucket::Bucket;
use tickets_rs::filter::{Filter, FilterType};
use tickets_rs::github_ticket_adapter::{
    create_config, filter_expr_from_bucket, filter_expression_validate, get_fancy_type_name,
    get_type_name, is_outdated, list_builtin_filters, read_repository, ticket_of_issue,
    IssueRecord,
};
use tickets_rs::text::parse_u64;
use tickets_rs::ticket::Ticket;

#[test]
fn unsigned_numbers_are_read_as_std_reads_them() {
    let samples = [
        "0", "1", "+1", "-1", "007", "18446744073709551615", "18446744073709551616",
        "184467440737095516150", "+", "", " 1", "1 ", "1_0", "٣", "99999999999999999999999",
        "+18446744073709551615", "++1",
    ];
    for sample in samples {
        assert_eq!(parse_u64(sample), sample.parse::<u64>().ok(), "{sample:?}");
        assert_eq!(parse_u64(sample), u64::from_str_radix(sample, 10).ok(), "{sample:?}");
    }
}

#[test]
fn repositories_are_named_by_expressions() {
    let bucket = Bucket::changed_at(0).with_details(42, "tickets".to_string());
    assert_eq!(filter_expr_from_bucket(&bucket), "tickets ||| 42");
    assert_eq!(read_repository("tickets ||| 42"), Some(("tickets".to_string(), 42)));
    assert_eq!(read_repository("tickets ||| 42 ||| more"), Some(("tickets".to_string(), 42)));
    assert_eq!(read_repository(" ||| +7"), Some((String::new(), 7)));
    assert_eq!(read_repository("tickets"), None);
    assert_eq!(read_repository("tickets ||| many"), None);
    assert_eq!(read_repository("tickets|||42"), None);

    let message = "Expression needs to be in the form of \"repo_name ||| repo_id\"";
    assert_eq!(filter_expression_validate(&"tickets ||| 42".to_string()), Ok(()));
    assert_eq!(
        filter_expression_validate(&"tickets".to_string()),
        Err(vec![("operation".to_string(), message.to_string())])
    );
    assert_eq!(
        filter_expression_validate(&"a ||| 1 ||| 2".to_string()),
        Err(vec![("operation".to_string(), message.to_string())])
    );
    assert_eq!(
        filter_expression_validate(&"tickets ||| -1".to_string()),
        Err(vec![(
            "operation".to_string(),
            format!("{message}. repo_id needs to be a number")
        )])
    );
}

#[test]
fn each_repository_has_its_filter() {
    let buckets = vec![Bucket::changed_at(0).with_details(9, "tickets".to_string())];
    let filters = list_builtin_filters(&"hub".to_string(), &buckets);
    assert!(
        filters
            == vec![Filter::default()
                .with_adapter_name("hub".to_string())
                .with_type(FilterType::Bucket(9))
                .with_details("tickets".to_string(), "[[hub: tickets ||| 9]]".to_string())]
    );
}

#[test]
fn issues_are_kept_for_five_minutes() {
    assert!(!is_outdated(1000, 1000));
    assert!(!is_outdated(1300, 1000));
    assert!(is_outdated(1301, 1000));
}

#[test]
fn issues_become_tickets() {
    let proto = Ticket::created_at(5).with_adapter_name("hub".to_string());
    let ticket = ticket_of_issue(
        IssueRecord {
            id: 77,
            title: "crash".to_string(),
            body: Some("it crashes".to_string()),
            closed: true,
            assignees: vec!["ann".to_string(), "bob".to_string()],
            labels: vec!["bug".to_string()],
        },
        &proto,
        3,
    );
    assert_eq!(
        ticket,
        Ticket {
            adapter: "hub".to_string(),
            id: 77,
            bucket_id: 3,
            title: "crash".to_string(),
            assigned_to: "ann, bob".to_string(),
            state_name: "closed".to_string(),
            description: "it crashes".to_string(),
            tags: vec!["bug".to_string()],
            created_at: 5,
            due_at: 5,
        }
    );
    let ticket = ticket_of_issue(
        IssueRecord {
            id: 1,
            title: String::new(),
            body: None,
            closed: false,
            assignees: Vec::new(),
            labels: Vec::new(),
        },
        &proto,
        0,
    );
    assert_eq!(ticket.state_name, "open");
    assert_eq!(ticket.description, "");
    assert_eq!(ticket.assigned_to, "");
}

#[test]
fn the_adapter_begins_with_a_configuration() {
    assert_eq!(get_type_name(), "github");
    assert_eq!(get_fancy_type_name(), "Github");
    let config = create_config(17);
    let names: Vec<String> = config.iter().into_iter().map(|entry| entry.0.clone()).collect();
    assert_eq!(names, ["display", "name", "personal_auth_token", "repo_owner", "type"]);
    assert_eq!(config.get("name").map(|option| option.raw().clone()), Some("github_17".to_string()));
    assert_eq!(config.get("repo_owner").map(|option| option.raw().clone()), Some(String::new()));
}
