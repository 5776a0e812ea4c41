use std::collections::BTreeMap;

use tickets_rs::bucket_panel::{
    fill_folder, is_entry_in_panel, is_folder_in_panel, is_folder_open,
    open_close_folder_in_panel, place_folder, toggle_folder_in_panel, update_bucket_panel_data,
    AdapterFilters, BucketPanelFolder,
};
use tickets_rs::bucket_panel_location::{BucketPanelLocation, BucketPanelLocationType};
use tickets_rs::filter::{Filter, FilterType};

fn location(entry_type: BucketPanelLocationType, adapter: &str, section: &str) -> BucketPanelLocation {
    BucketPanelLocation { entry_type, adapter: adapter.to_string(), section: section.to_string() }
}

fn filter(adapter: &str, name: &str, filter_type: FilterType) -> Filter {
    Filter::default()
        .with_adapter_name(adapter.to_string())
        .with_type(filter_type)
        .with_details(name.to_string(), String::new())
}

fn shape(folders: &Vec<BucketPanelFolder>) -> Vec<(String, String, Vec<String>, bool)> {
    folders
        .iter()
        .map(|folder| {
            (
                folder.adapter.clone(),
                folder.label.clone(),
                folder.entries.iter().map(|entry| entry.filter.clone()).collect(),
                folder.is_open,
            )
        })
        .collect()
}

#[test]
fn what_is_selected_is_found() {
    let selected = vec![
        location(BucketPanelLocationType::Adapter, "a", ""),
        location(BucketPanelLocationType::Entry, "b", "inbox"),
        location(BucketPanelLocationType::Filter, "c", "mine"),
        location(BucketPanelLocationType::All, "d", "all"),
    ];
    assert!(is_folder_in_panel(&selected, &"a".to_string()));
    assert!(!is_folder_in_panel(&selected, &"b".to_string()));
    assert!(!is_folder_in_panel(&Vec::new(), &"a".to_string()));
    assert!(is_entry_in_panel(&selected, &"b".to_string(), &"inbox".to_string()));
    assert!(is_entry_in_panel(&selected, &"c".to_string(), &"mine".to_string()));
    assert!(!is_entry_in_panel(&selected, &"c".to_string(), &"inbox".to_string()));
    assert!(!is_entry_in_panel(&selected, &"a".to_string(), &"".to_string()));
    assert!(!is_entry_in_panel(&selected, &"d".to_string(), &"all".to_string()));
}

#[test]
fn folders_open_and_close() {
    let mut open: Vec<String> = Vec::new();
    let label = |text: &str| text.to_string();
    assert!(!is_folder_open(&open, &label("a")));
    open_close_folder_in_panel(&mut open, &label("a"));
    open_close_folder_in_panel(&mut open, &label("b"));
    open.push(label("a"));
    assert_eq!(open, ["a", "b", "a"]);
    assert!(is_folder_open(&open, &label("a")));
    open_close_folder_in_panel(&mut open, &label("a"));
    assert_eq!(open, ["b", "a"]);
    open_close_folder_in_panel(&mut open, &label("a"));
    open_close_folder_in_panel(&mut open, &label("b"));
    assert!(open.is_empty());
}

#[test]
fn folders_are_selected() {
    let mut selected: Vec<BucketPanelLocation> = Vec::new();
    toggle_folder_in_panel(&mut selected, location(BucketPanelLocationType::Adapter, "a", ""), false);
    toggle_folder_in_panel(&mut selected, location(BucketPanelLocationType::Adapter, "b", ""), true);
    toggle_folder_in_panel(&mut selected, location(BucketPanelLocationType::Adapter, "a", "x"), true);
    assert_eq!(
        selected,
        vec![
            location(BucketPanelLocationType::Adapter, "a", ""),
            location(BucketPanelLocationType::Adapter, "b", "")
        ]
    );
    toggle_folder_in_panel(&mut selected, location(BucketPanelLocationType::Entry, "c", "x"), true);
    toggle_folder_in_panel(&mut selected, location(BucketPanelLocationType::Adapter, "c", ""), true);
    assert_eq!(selected.len(), 4);
    toggle_folder_in_panel(&mut selected, location(BucketPanelLocationType::Adapter, "a", ""), false);
    assert_eq!(selected, vec![location(BucketPanelLocationType::Adapter, "a", "")]);
}

#[test]
fn filters_are_sorted_into_folders() {
    let adapter = AdapterFilters {
        fancy_name: "Local".to_string(),
        name: "local".to_string(),
        filters: vec![
            filter("local", "mine", FilterType::User),
            filter("local", "inbox", FilterType::Bucket(1)),
            filter("local", "all", FilterType::Builtin),
            filter("local", "yours", FilterType::User),
            filter("local", "bug", FilterType::Tag),
            filter("local", "rest", FilterType::Other),
        ],
    };
    let (folder, custom) = fill_folder(&adapter);
    assert_eq!(
        shape(&vec![folder]),
        vec![(
            "local".to_string(),
            "Local".to_string(),
            vec!["inbox".to_string(), "all".to_string(), "bug".to_string(), "rest".to_string()],
            false
        )]
    );
    let labels: Vec<&str> = custom.iter().map(|entry| entry.label.as_str()).collect();
    assert_eq!(labels, ["mine", "yours"]);
    assert!(custom.iter().all(|entry| entry.entry_type == FilterType::User));
    assert!(custom.iter().all(|entry| entry.adapter == "local"));
}

#[test]
fn the_panel_behaves_like_a_sorted_map() {
    let names = ["local", "hub", "_custom_filters", "ärger", "Zoo", "", "local", "a", "hub"];
    let mut seed: u64 = 0x853c49e6748fea9b;
    for round in 0..60 {
        let mut adapters: Vec<AdapterFilters> = Vec::new();
        for position in 0..(round % 7) {
            seed ^= seed << 13;
            seed ^= seed >> 7;
            seed ^= seed << 17;
            let name = names[(seed % names.len() as u64) as usize];
            let mut filters = Vec::new();
            for number in 0..((seed >> 8) % 4) {
                let filter_type = match (seed >> (12 + number)) % 3 {
                    0 => FilterType::User,
                    1 => FilterType::Builtin,
                    _ => FilterType::Bucket(number),
                };
                filters.push(filter(name, &format!("{position}.{number}"), filter_type));
            }
            adapters.push(AdapterFilters {
                fancy_name: format!("{name} {position}"),
                name: name.to_string(),
                filters,
            });
        }

        let mut index: BTreeMap<String, (String, Vec<String>)> = BTreeMap::new();
        let mut custom: Vec<String> = Vec::new();
        index.insert("_custom_filters".to_string(), ("Filters".to_string(), Vec::new()));
        for adapter in adapters.iter() {
            let mut entries = Vec::new();
            for filter in adapter.filters.iter() {
                if filter.filter_type == FilterType::User {
                    custom.push(filter.identifier.name.clone());
                } else {
                    entries.push(filter.identifier.name.clone());
                }
            }
            index.insert(adapter.name.clone(), (adapter.fancy_name.clone(), entries));
        }
        index.insert("_custom_filters".to_string(), ("Filters".to_string(), custom));
        let expected: Vec<(String, String, Vec<String>, bool)> =
            index.into_iter().map(|(name, (label, entries))| (name, label, entries, false)).collect();

        assert_eq!(shape(&update_bucket_panel_data(&adapters)), expected);
    }
}

#[test]
fn a_folder_takes_the_place_of_its_adapter() {
    let folder = |adapter: &str, label: &str| BucketPanelFolder {
        label: label.to_string(),
        adapter: adapter.to_string(),
        entries: Vec::new(),
        is_open: true,
    };
    let mut folders: Vec<BucketPanelFolder> = Vec::new();
    for (adapter, label) in [("m", "1"), ("a", "2"), ("z", "3"), ("m", "4"), ("b", "5"), ("a", "6")] {
        place_folder(&mut folders, folder(adapter, label));
    }
    let found: Vec<(String, String)> =
        folders.iter().map(|folder| (folder.adapter.clone(), folder.label.clone())).collect();
    assert_eq!(
        found,
        [("a", "6"), ("b", "5"), ("m", "4"), ("z", "3")]
            .map(|(adapter, label)| (adapter.to_string(), label.to_string()))
    );
}
