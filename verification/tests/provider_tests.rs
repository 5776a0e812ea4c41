use tickets_rs::adapter_error::{AdapterError, AdapterErrorType};
use tickets_rs::adapter_registry::get_default_config;
use tickets_rs::bucket::Bucket;
use tickets_rs::bucket_panel_location::{BucketPanelLocation, BucketPanelLocationType};
use tickets_rs::config_base::Config;
use tickets_rs::filter::{Filter, FilterType};
use tickets_rs::local_ticket_adapter::{
    create_config, filter_expression_validate, get_fancy_type_name, get_type_name,
    list_builtin_filters, settings_from_config, ticket_list_query,
};
use tickets_rs::selection::{filter_list_by_name, merge_tickets, selection_plan, TicketSource};
use tickets_rs::state::State;
use tickets_rs::tag::Tag;
use tickets_rs::ticket::Ticket;
use tickets_rs::ticket_provider::{split_filter_expression, try_split_filter_expression};
use tickets_rs::validation::{
    bucket_validate, filter_validate_expression, filter_validate_form, state_validate,
    tag_validate, ticket_validate, validation_outcome,
};

fn parts(text: &str) -> Option<Result<Vec<(String, String)>, String>> {
    try_split_filter_expression(text.to_string()).map(|outcome| {
        outcome
            .map(|found| {
                found
                    .iter()
                    .map(|part| (part.adapter().clone(), part.expression().clone()))
                    .collect()
            })
            .map_err(|error| error.get_text())
    })
}

fn found(pairs: &[(&str, &str)]) -> Option<Result<Vec<(String, String)>, String>> {
    Some(Ok(pairs.iter().map(|pair| (pair.0.to_string(), pair.1.to_string())).collect()))
}

fn failed(reason: &str) -> Option<Result<Vec<(String, String)>, String>> {
    Some(Err(format!("Failed to execute Expression correctly. Reason: {reason}")))
}

#[test]
fn operations_are_taken_apart() {
    assert_eq!(parts("[[local: with_state(open)]]"), found(&[("local", "with_state(open)")]));
    assert_eq!(
        parts("  [[ a : x ]]  [[b:y:z]]\n[[:]] "),
        found(&[("a", "x"), ("b", "y:z"), ("", "")])
    );
    assert_eq!(parts("[[a:b]] trailing"), found(&[("a", "b")]));
    assert_eq!(parts("[[a:[[b]]:c]]"), found(&[("a", "[[b")]));
    // two bytes are taken for the opening brackets, whatever they are
    assert_eq!(parts("x[[a:b]]"), found(&[("[a", "b")]));
    assert_eq!(parts("é[[a:b]]"), found(&[("[[a", "b")]));
    assert_eq!(parts("xy[[a:b]]"), found(&[("[[a", "b")]));
}

#[test]
fn operations_that_cannot_be_taken_apart() {
    let empty = "Expression needs start with [[ ! Is the expression empty?";
    assert_eq!(parts(""), failed(empty));
    assert_eq!(parts("with_state(open)"), failed(empty));
    assert_eq!(parts("[a:b]"), failed(empty));
    assert_eq!(parts("[[a:b"), failed("Expression doesn't end with ]]"));
    assert_eq!(parts("[[a:b]] [[c:d]"), failed("Expression doesn't end with ]]"));
    assert_eq!(
        parts("[[ab]]"),
        failed("Expression doesn't follow adapter:expression between the square brackets")
    );
    assert_eq!(
        parts("[[a:b]][[]]"),
        failed("Expression doesn't follow adapter:expression between the square brackets")
    );
    // no cut behind the second byte
    assert_eq!(parts("€[[a:b]]"), None);
    assert_eq!(parts("xé[[a:b]]"), None);
    assert_eq!(parts("🦀[[a:b]]"), None);
    assert_eq!(
        split_filter_expression("[[a:b]]".to_string()).map(|found| found.len()),
        Ok(1)
    );
    assert_eq!(
        split_filter_expression("nothing".to_string()),
        Err(AdapterError::new(AdapterErrorType::Expression(empty.to_string())))
    );
}

fn findings(result: Result<(), AdapterError>, what: &str) -> Vec<(String, String)> {
    match result {
        Ok(()) => Vec::new(),
        Err(error) => match error.error_type {
            AdapterErrorType::Validate(found, name) => {
                assert_eq!(name, what);
                assert!(!found.is_empty());
                found
            }
            other => panic!("{other:?}"),
        },
    }
}

fn pairs(found: &[(&str, &str)]) -> Vec<(String, String)> {
    found.iter().map(|pair| (pair.0.to_string(), pair.1.to_string())).collect()
}

#[test]
fn buckets_are_validated() {
    let inbox = Bucket::changed_at(0).with_adapter_name("local".into()).with_details(1, "inbox".into());
    let done = Bucket::changed_at(0).with_adapter_name("local".into()).with_details(2, "done".into());
    let nameless = Bucket::changed_at(0).with_adapter_name("lost".into());
    let existing = vec![inbox.clone(), done];
    assert_eq!(bucket_validate(&inbox, Some(&Vec::new())), Ok(()));
    assert_eq!(
        findings(bucket_validate(&inbox, Some(&existing)), "Bucket"),
        pairs(&[("name", "The Bucket with name inbox does already exist in this adapter.")])
    );
    assert_eq!(
        findings(bucket_validate(&nameless, None), "Bucket"),
        pairs(&[
            ("name", "The name of the Bucket is not supposed to be empty!"),
            ("adapter", "The Adapter \"lost\" does not match any of the available adapters."),
        ])
    );
    assert_eq!(
        findings(bucket_validate(&nameless, Some(&existing)), "Bucket"),
        pairs(&[("name", "The name of the Bucket is not supposed to be empty!")])
    );
}

#[test]
fn tickets_are_validated() {
    let buckets = vec![Bucket::changed_at(0).with_details(7, "inbox".into())];
    let states = vec![State::default().with_name("open".into())];
    let ticket = Ticket::created_at(0)
        .with_adapter_name("local".into())
        .with_details(1, "title".into(), String::new())
        .with_bucket(&buckets[0])
        .with_state(&states[0]);
    assert_eq!(ticket_validate(&ticket, Some((&buckets, &states))), Ok(()));
    let lost = Ticket::created_at(0).with_adapter_name("local".into());
    assert_eq!(
        findings(ticket_validate(&lost, Some((&buckets, &states))), "Ticket"),
        pairs(&[
            ("title", "The title of the Ticket is not supposed to be empty!"),
            ("bucket", "The Bucket with id 0 does not exist in this adapter."),
            ("state", "The State \"\" does not exist in this adapter."),
        ])
    );
    assert_eq!(
        findings(ticket_validate(&ticket, None), "Ticket"),
        pairs(&[("adapter", "The Adapter \"local\" does not match any of the available adapters.")])
    );
}

#[test]
fn states_are_validated() {
    let state = State::default()
        .with_name("open".into())
        .with_adapter_name("local".into())
        .with_description("é".repeat(500));
    assert_eq!(state_validate(&state, true), Ok(()));
    let long = State::default().with_adapter_name("local".into()).with_description("é".repeat(501));
    assert_eq!(
        findings(state_validate(&long, false), "State"),
        pairs(&[
            ("name", "The Name of the State is not supposed to be empty!"),
            (
                "description",
                "The arbitrary Limit of the State's Description of 1k chars is reached. Make sure the description is as short and concise as possible."
            ),
            ("adapter", "The Adapter \"local\" does not match any of the available adapters."),
        ])
    );
}

#[test]
fn tags_are_validated() {
    let tag = Tag::default().with_name("bug".into()).with_adapter_name("local".into());
    assert_eq!(tag_validate(&tag, true), Ok(()));
    let plain = Tag::default().with_hex_colors("#AbCdEf00", "#aBcDeF00");
    assert_eq!(
        findings(tag_validate(&plain, false), "Tag"),
        pairs(&[
            ("name", "The Name of the Tag is not supposed to be empty!"),
            ("color", "The colors of the font and the background are the same!"),
            ("adapter", "The Adapter \"\" does not match any of the available adapters."),
        ])
    );
}

#[test]
fn filters_are_validated() {
    let filter = Filter::default()
        .with_adapter_name("local".into())
        .with_type(FilterType::User)
        .with_details("mine".into(), "[[local: assigned_to(::me)]][[remote: x]]".into());
    let (mut found, expressions) = filter_validate_form(&filter);
    assert!(found.is_empty());
    assert_eq!(expressions.len(), 2);
    assert_eq!(expressions[1].adapter(), "remote");
    filter_validate_expression(&mut found, &filter, true, 0, &expressions[0], None);
    assert!(found.is_empty());
    filter_validate_expression(
        &mut found,
        &filter,
        false,
        1,
        &expressions[1],
        Some(pairs(&[("operation", "no")])),
    );
    assert_eq!(
        findings(validation_outcome(found, "Filter"), "Filter"),
        pairs(&[
            ("adapter", "The Adapter \"local\" does not match any of the available adapters."),
            ("operation", "Error in filter expression No 2, (x)"),
            ("operation", "no"),
        ])
    );
    let broken = Filter::default().with_details(String::new(), "[[local".into());
    let (found, expressions) = filter_validate_form(&broken);
    assert!(expressions.is_empty());
    assert_eq!(
        found,
        pairs(&[
            ("name", "The Name of the Filter is not supposed to be empty!"),
            ("filter_type", "The Type of the Filter does not allow it to be modified"),
            (
                "operation",
                "Failed to execute Expression correctly. Reason: Expression doesn't end with ]]"
            ),
        ])
    );
    assert_eq!(validation_outcome(Vec::new(), "Filter"), Ok(()));
}

fn entries(config: &Config) -> Vec<(String, String, String)> {
    config
        .iter()
        .into_iter()
        .map(|(name, option)| {
            (name.clone(), option.raw().clone(), option.display_options().clone())
        })
        .collect()
}

#[test]
fn adapters_begin_with_a_configuration() {
    let config = get_default_config("github".to_string(), "Github".to_string(), 1700000000123);
    assert_eq!(
        entries(&config),
        [
            ("display", "Github", "string"),
            ("name", "github_1700000000123", "string"),
            ("type", "github", "readonly_string"),
        ]
        .map(|(a, b, c)| (a.to_string(), b.to_string(), c.to_string()))
    );
    let config = create_config(u128::MAX);
    assert_eq!(get_type_name(), "local");
    assert_eq!(get_fancy_type_name(), "Local Tickets");
    assert_eq!(
        entries(&config),
        [
            ("database", "./local.db3", "string"),
            ("display", "Local Tickets", "string"),
            ("include_default_data", "true", "bool"),
            ("name", "local_340282366920938463463374607431768211455", "string"),
            ("type", "local", "readonly_string"),
        ]
        .map(|(a, b, c)| (a.to_string(), b.to_string(), c.to_string()))
    );
    let settings = settings_from_config(&config).ok().unwrap();
    assert_eq!(settings.name, "local_340282366920938463463374607431768211455");
    assert_eq!(settings.display_name, "Local Tickets");
    assert_eq!(settings.database_name, "./local.db3");
    assert!(settings.create_default_data);
    for name in ["name", "display", "database", "include_default_data"] {
        let mut incomplete = config.clone();
        incomplete.drop_entry(name);
        assert_eq!(
            settings_from_config(&incomplete).err(),
            Some(AdapterError::new(AdapterErrorType::Instantiation))
        );
    }
    let undecided = config.with("include_default_data", "yes", "bool");
    assert!(settings_from_config(&undecided).is_err());
}

#[test]
fn each_bucket_has_its_filter() {
    let buckets = vec![
        Bucket::changed_at(0).with_details(3, "inbox".into()),
        Bucket::changed_at(0).with_details(5, "done".into()),
    ];
    let filters = list_builtin_filters(&"local".to_string(), &buckets);
    assert_eq!(filters.len(), 2);
    assert!(
        filters[1]
            == Filter::default()
                .with_adapter_name("local".into())
                .with_type(FilterType::Bucket(5))
                .with_details("done".into(), "[[local: in_bucket(done)]]".into())
    );
    assert!(list_builtin_filters(&"local".to_string(), &Vec::new()).is_empty());
}

#[test]
fn expressions_are_validated_and_compiled() {
    let mut config = Config::default().with("username", "biochemist", "string");
    assert_eq!(filter_expression_validate(&mut config, &"assigned_to(::me);;".to_string()), Ok(()));
    assert_eq!(
        filter_expression_validate(&mut config, &"with_state(".to_string()),
        Err(pairs(&[(
            "operation",
            "An Error Occurred; Expected (:: for Variable or\nExpected ) for Literal or\n\
             Expected with_tag for Token or\nExpected in_bucket for Token or\n\
             Expected title_contains for Token or\nExpected description_contains for Token or\n\
             Expected assigned_to for Token or\nExpected due_in_days for Token or\n\
             Expected ;; for Token."
        )]))
    );
    assert_eq!(
        ticket_list_query(&mut config, "assigned_to(::me)"),
        Ok("SELECT tickets.* FROM tickets WHERE (tickets.assigned_to = 'biochemist');".to_string())
    );
    assert_eq!(
        ticket_list_query(&mut config, ";;"),
        Err(AdapterError::new(AdapterErrorType::Expression(
            "An Error Occurred; Join instruction in the beginning is not allowed..".to_string()
        )))
    );
    assert_eq!(
        ticket_list_query(&mut config, ""),
        Err(AdapterError::new(AdapterErrorType::Expression(
            "An Error Occurred; Cannot parse Instruction, because nothing is in Buffer. Did you forget to tokenize first?.".to_string()
        )))
    );
    assert!(matches!(
        ticket_list_query(&mut config, "assigned_to(::you)"),
        Err(AdapterError { error_type: AdapterErrorType::Expression(_) })
    ));
    let mut fresh = Config::default();
    assert_eq!(
        ticket_list_query(&mut fresh, "assigned_to(::me)"),
        Ok("SELECT tickets.* FROM tickets WHERE (tickets.assigned_to = 'new User');".to_string())
    );
    assert_eq!(fresh.len(), 1);
}

#[test]
fn gathered_tickets_are_sorted_and_come_once() {
    let mut seed: u64 = 0x9e3779b97f4a7c15;
    for round in 0..200 {
        let mut tickets: Vec<Ticket> = Vec::new();
        for position in 0..(round % 17) {
            seed ^= seed << 13;
            seed ^= seed >> 7;
            seed ^= seed << 17;
            tickets.push(
                Ticket::created_at(position)
                    .with_adapter_name(["a", "b", "c"][(seed % 3) as usize].to_string())
                    .with_details((seed >> 8) as i64 % 5 - 2, position.to_string(), String::new()),
            );
        }
        let mut expected = tickets.clone();
        expected.sort_by(|first, second| first.id.cmp(&second.id));
        expected.dedup_by(|first, second| first.adapter == second.adapter && first.id == second.id);
        assert_eq!(merge_tickets(tickets), expected);
    }
    assert_eq!(merge_tickets(Vec::new()), Vec::new());
}

#[test]
fn a_selection_is_planned() {
    let location = |entry_type: BucketPanelLocationType, adapter: &str, section: &str| {
        BucketPanelLocation { entry_type, adapter: adapter.to_string(), section: section.to_string() }
    };
    assert!(selection_plan(&Vec::new()).is_none());
    let plan = selection_plan(&vec![
        location(BucketPanelLocationType::Entry, "a", "in a"),
        location(BucketPanelLocationType::Filter, "b", "mine"),
        location(BucketPanelLocationType::Adapter, "a", ""),
        location(BucketPanelLocationType::Entry, "b", "in b"),
        location(BucketPanelLocationType::Adapter, "c", ""),
        location(BucketPanelLocationType::All, "", ""),
        location(BucketPanelLocationType::Filter, "b", "never"),
        location(BucketPanelLocationType::Adapter, "d", ""),
    ])
    .unwrap();
    assert_eq!(
        plan.sources,
        vec![
            TicketSource::Adapter("a".to_string()),
            TicketSource::Adapter("c".to_string()),
            TicketSource::All
        ]
    );
    assert_eq!(plan.filters, vec!["mine".to_string(), "in b".to_string()]);
    let plan = selection_plan(&vec![
        location(BucketPanelLocationType::Filter, "b", "mine"),
        location(BucketPanelLocationType::Reset, "", ""),
        location(BucketPanelLocationType::Adapter, "a", ""),
    ])
    .unwrap();
    assert!(plan.sources.is_empty());
    assert_eq!(plan.filters, vec!["mine".to_string()]);

    let filter = |name: &str| Filter::default().with_details(name.to_string(), String::new());
    let filters = vec![filter("x"), filter("mine"), filter("y"), filter("in b"), filter("mine")];
    let matching = filter_list_by_name(filters, &plan.filters);
    assert!(matching == vec![filter("mine"), filter("mine")]);
}
