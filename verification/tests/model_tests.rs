use tickets_rs::adapter_error::{AdapterError, AdapterErrorType};
use tickets_rs::bucket::{Bucket, BucketIdentifier};
use tickets_rs::bucket_panel_location::{BucketPanelLocation, BucketPanelLocationType};
use tickets_rs::filter::{Filter, FilterIdentifier, FilterType};
use tickets_rs::state::{State, StateIdentifier};
use tickets_rs::tag::Tag;
use tickets_rs::ticket::Ticket;

#[test]
fn adapter_errors_have_their_text() {
    let cases = [
        (AdapterErrorType::TicketWrite, "Failed to write Ticket"),
        (AdapterErrorType::TicketDelete, "Failed to delete Ticket"),
        (AdapterErrorType::BucketWrite, "Failed to write Bucket"),
        (AdapterErrorType::BucketDelete, "Failed to delete Bucket"),
        (AdapterErrorType::TagWrite, "Failed to write Tag"),
        (AdapterErrorType::TagDelete, "Failed to delete Tag"),
        (AdapterErrorType::StateWrite, "Failed to write State"),
        (AdapterErrorType::FilterWrite, "Failed to write custom Filter"),
        (AdapterErrorType::FilterDelete, "Failed to delete custom Filter"),
        (AdapterErrorType::Access, "Failed access Adapter Data"),
        (
            AdapterErrorType::Validate(
                vec![("name".to_string(), "empty".to_string())],
                "Bucket".to_string(),
            ),
            "Failed to validate Bucket",
        ),
        (
            AdapterErrorType::Expression("no".to_string()),
            "Failed to execute Expression correctly. Reason: no",
        ),
        (AdapterErrorType::Instantiation, "Failed to instantiate Adapter"),
    ];
    for (error_type, text) in cases {
        let error = AdapterError::new(error_type.clone());
        assert_eq!(error.error_type, error_type);
        assert_eq!(error.get_text(), text);
        assert_eq!(error.to_string(), format!("An Error Occurred; {text}."));
    }
}

#[test]
fn buckets_are_built() {
    let identifier = BucketIdentifier::new(&"local".to_string(), 7);
    assert_eq!(identifier, BucketIdentifier { adapter: "local".to_string(), id: 7 });
    assert_eq!(BucketIdentifier::default(), BucketIdentifier { adapter: String::new(), id: 0 });
    let bucket = Bucket::changed_at(1700000000)
        .with_adapter_name("local".to_string())
        .with_details(3, "inbox".to_string());
    assert_eq!(
        bucket,
        Bucket {
            identifier: BucketIdentifier { adapter: "local".to_string(), id: 3 },
            name: "inbox".to_string(),
            last_change: 1700000000,
        }
    );
}

#[test]
fn panel_locations_compare() {
    let first = BucketPanelLocation {
        entry_type: BucketPanelLocationType::Filter,
        adapter: "local".to_string(),
        section: "mine".to_string(),
    };
    let second = BucketPanelLocation {
        entry_type: BucketPanelLocationType::Filter,
        adapter: "local".to_string(),
        section: "mine".to_string(),
    };
    assert_eq!(first, second);
    assert!(BucketPanelLocationType::All < BucketPanelLocationType::Entry);
}

#[test]
fn filters_are_built() {
    let filter = Filter::default();
    assert!(filter.identifier == FilterIdentifier { adapter: String::new(), name: String::new() });
    assert!(filter.filter_type == FilterType::Builtin);
    assert!(FilterType::default() == FilterType::Builtin);
    let filter = filter
        .with_adapter_name("local".to_string())
        .with_type(FilterType::Bucket(4))
        .with_details("mine".to_string(), "[[local: assigned_to(::me)]]".to_string());
    assert!(
        filter
            == Filter {
                identifier: FilterIdentifier {
                    adapter: "local".to_string(),
                    name: "mine".to_string()
                },
                operation: "[[local: assigned_to(::me)]]".to_string(),
                filter_type: FilterType::Bucket(4),
            }
    );
    assert_eq!(
        Filter::filter_expression("local".to_string(), "with_state(open)"),
        "[[local: with_state(open)]]"
    );
    assert_eq!(Filter::filter_expression(String::new(), ""), "[[: ]]");
}

#[test]
fn states_are_built() {
    let identifier = StateIdentifier::new(&"local".to_string(), &"open".to_string());
    assert!(identifier == StateIdentifier { adapter: "local".to_string(), name: "open".to_string() });
    let state = State::default()
        .with_name("open".to_string())
        .with_order(-2)
        .with_description("not yet done".to_string())
        .with_adapter_name("local".to_string());
    assert!(
        state
            == State {
                identifier,
                description: "not yet done".to_string(),
                sorting_order: -2,
            }
    );
    assert!(State::default().sorting_order == 0);
}

#[test]
fn tags_are_built() {
    let tag = Tag::default();
    assert_eq!(tag.color, "#ffffffff");
    assert_eq!(tag.color_text, "#000000ff");
    let tag = tag
        .with_name("bug".to_string())
        .with_adapter_name("local".to_string())
        .with_hex_colors("#112233ff", "#ffeeddff");
    assert_eq!(
        tag,
        Tag {
            adapter: "local".to_string(),
            name: "bug".to_string(),
            color: "#112233ff".to_string(),
            color_text: "#ffeeddff".to_string(),
        }
    );
}

#[test]
fn tickets_are_built() {
    let bucket = Bucket::changed_at(5).with_details(9, "inbox".to_string());
    let state = State::default().with_name("open".to_string());
    let bug = Tag::default().with_name("bug".to_string());
    let ui = Tag::default().with_name("ui".to_string());
    let mut ticket = Ticket::created_at(1700000000)
        .with_adapter_name("local".to_string())
        .with_details(12, "crash".to_string(), "it crashes".to_string())
        .with_bucket(&bucket)
        .with_state(&state)
        .with_tags(vec![&bug, &ui, &bug])
        .with_assignee("ann".to_string());
    assert_eq!(
        ticket,
        Ticket {
            adapter: "local".to_string(),
            id: 12,
            bucket_id: 9,
            title: "crash".to_string(),
            assigned_to: "ann".to_string(),
            state_name: "open".to_string(),
            description: "it crashes".to_string(),
            tags: vec!["bug".to_string(), "ui".to_string(), "bug".to_string()],
            created_at: 1700000000,
            due_at: 1700000000,
        }
    );
    ticket.add_tag(&ui);
    assert_eq!(ticket.tags.len(), 3);
    ticket.add_tag(&Tag::default().with_name("new".to_string()));
    assert_eq!(ticket.tags.last(), Some(&"new".to_string()));
    ticket.assign_to("bob".to_string());
    assert_eq!(ticket.assigned_to, "bob");
}
