use std::collections::BTreeMap;

use tickets_rs::config_base::Config;
use tickets_rs::config_option::{ConfigOption, ToConfig};
use tickets_rs::interpreter::AdapterInterpreter;
use tickets_rs::text::{split_text, text_equals, text_precedes};

fn entries(config: &Config) -> Vec<(String, String, String)> {
    config
        .iter()
        .into_iter()
        .map(|(name, option)| {
            (name.clone(), option.raw().clone(), option.display_options().clone())
        })
        .collect()
}

#[test]
fn options_are_kept_in_the_order_of_their_names() {
    let mut config = Config::default();
    assert!(config.is_empty());
    assert_eq!(config.len(), 0);
    for name in ["b", "a:x", "a", "ä", "Z", "", "a:", "aa", "🦀", "a "] {
        config.put(name, name.to_uppercase(), "string");
    }
    config.put("a", "again", "text");
    let mut names: Vec<&str> = vec!["b", "a:x", "a", "ä", "Z", "", "a:", "aa", "🦀", "a "];
    names.sort();
    assert_eq!(config.len(), names.len());
    assert!(!config.is_empty());
    let found = entries(&config);
    assert_eq!(found.iter().map(|entry| entry.0.as_str()).collect::<Vec<_>>(), names);
    assert_eq!(config.get("a").map(|option| option.raw().clone()), Some("again".to_string()));
    assert_eq!(
        config.get("a").map(|option| option.display_options().clone()),
        Some("text".to_string())
    );
    assert_eq!(config.get("ä").map(|option| option.raw().clone()), Some("Ä".to_string()));
    assert!(config.get("c").is_none());
}

#[test]
fn a_configuration_behaves_like_a_sorted_map() {
    let mut config = Config::default();
    let mut oracle: BTreeMap<String, (String, String)> = BTreeMap::new();
    let mut seed: u64 = 0x2545f4914f6cdd1d;
    let names = ["", "a", "b", "ab", "a:b", "a:c", "a:", "b:a", "b:b:c", "ä:x", "z", "a:b:c"];
    for step in 0..4000 {
        seed ^= seed << 13;
        seed ^= seed >> 7;
        seed ^= seed << 17;
        let name = names[(seed % names.len() as u64) as usize];
        let other = names[((seed >> 8) % names.len() as u64) as usize];
        match (seed >> 16) % 7 {
            0 | 1 => {
                config.put(name, step, other);
                oracle.insert(name.to_string(), (step.to_string(), other.to_string()));
            }
            2 => {
                assert_eq!(config.drop_entry(name), oracle.remove(name).is_some());
            }
            3 => {
                let found = config.get_or_default(name, other, "d").raw().clone();
                let expected = oracle
                    .entry(name.to_string())
                    .or_insert((other.to_string(), "d".to_string()));
                assert_eq!(found, expected.0);
            }
            4 => {
                let marker = format!("{name}:");
                let before = oracle.len();
                oracle.retain(|key, _| !key.starts_with(&marker));
                assert_eq!(config.drop_sub_config(name) as usize, before - oracle.len());
            }
            5 => {
                let marker = format!("{name}:");
                let sub = config.get_sub_config(name);
                let expected: Vec<(String, String, String)> = oracle
                    .iter()
                    .filter(|(key, _)| key.starts_with(&marker))
                    .map(|(key, value)| {
                        (key[marker.len()..].to_string(), value.0.clone(), value.1.clone())
                    })
                    .collect();
                assert_eq!(entries(&sub), expected);
                if (seed >> 24) % 2 == 0 {
                    config.put_sub_config(&sub, other);
                    for (key, value, display) in expected {
                        oracle.insert(format!("{other}:{key}"), (value, display));
                    }
                }
            }
            _ => {
                assert_eq!(
                    config.get(name).map(|option| option.raw().clone()),
                    oracle.get(name).map(|value| value.0.clone())
                );
            }
        }
        assert_eq!(config.len(), oracle.len());
        assert_eq!(config.is_empty(), oracle.is_empty());
    }
    let expected: Vec<(String, String, String)> = oracle
        .iter()
        .map(|(key, value)| (key.clone(), value.0.clone(), value.1.clone()))
        .collect();
    assert_eq!(entries(&config), expected);
    assert!(config.clone() == config);
}

#[test]
fn with_builds_a_configuration() {
    let config = Config::default()
        .with("type", "local", "readonly_string")
        .with("count", 12, "int")
        .with("flag", true, "bool")
        .with("list", vec!["a".to_string(), "b".to_string()], "list")
        .with("borrowed", vec!["x", "y", "z"], "list")
        .with("type", "remote".to_string(), "string");
    assert_eq!(
        entries(&config),
        [
            ("borrowed", "x|||y|||z", "list"),
            ("count", "12", "int"),
            ("flag", "true", "bool"),
            ("list", "a|||b", "list"),
            ("type", "remote", "string"),
        ]
        .map(|(name, value, display)| (
            name.to_string(),
            value.to_string(),
            display.to_string()
        ))
    );
}

#[test]
fn options_are_read_as_values() {
    let option = |value: &str| ConfigOption::new(value.to_string(), String::new());
    assert_eq!(option("12").get::<i32>(), Some(12));
    assert_eq!(option("-12").get::<i32>(), Some(-12));
    assert_eq!(option("twelve").get::<i32>(), None);
    assert_eq!(option("12").get::<String>(), Some("12".to_string()));
    assert_eq!(option("").get::<String>(), Some(String::new()));
    assert_eq!(option("true").get::<bool>(), Some(true));
    assert_eq!(option("false").get::<bool>(), Some(false));
    assert_eq!(option("True").get::<bool>(), None);
    assert_eq!(option("1").get::<bool>(), None);
    assert_eq!(option("text").get::<&str>(), None);
    assert_eq!(option("text").get::<Vec<&str>>(), None);
    let list = |items: &[&str]| Some(items.iter().map(|item| item.to_string()).collect::<Vec<_>>());
    assert_eq!(option("").get::<Vec<String>>(), list(&[""]));
    assert_eq!(option("a").get::<Vec<String>>(), list(&["a"]));
    assert_eq!(option("a|||b").get::<Vec<String>>(), list(&["a", "b"]));
    assert_eq!(option("a||||b|||").get::<Vec<String>>(), list(&["a", "|b", ""]));
    assert_eq!(option("||||||").get::<Vec<String>>(), list(&["", "", ""]));
    assert_eq!(option("a||b").get::<Vec<String>>(), list(&["a||b"]));
    assert!(ConfigOption::default() == option(""));
    assert!(option("a").clone() == option("a"));
}

#[test]
fn values_are_kept_as_text() {
    assert_eq!("text".to_config(), "text");
    assert_eq!("text".to_string().to_config(), "text");
    assert_eq!(0.to_config(), "0");
    assert_eq!(i32::MIN.to_config(), "-2147483648");
    assert_eq!(true.to_config(), "true");
    assert_eq!(false.to_config(), "false");
    assert_eq!(Vec::<String>::new().to_config(), "");
    assert_eq!(vec!["a", "", "b"].to_config(), "a||||||b");
    assert_eq!(<String as ToConfig>::to_self("x"), Some("x".to_string()));
    assert_eq!(<i32 as ToConfig>::to_self("+7"), Some(7));
    assert_eq!(<bool as ToConfig>::to_self("false"), Some(false));
}

#[test]
fn splitting_on_text_is_what_std_does() {
    let samples = ["", "|||", "a", "a|||b", "||||", "|||||||", "a|b||c|||d", "ü|||ö", "|||a|||"];
    for sample in samples {
        for pattern in ["|||", "|", "||", "a", "ü", "a|||b"] {
            assert_eq!(
                split_text(sample, pattern),
                sample.split(pattern).map(|piece| piece.to_string()).collect::<Vec<_>>(),
                "{sample:?} at {pattern:?}"
            );
        }
    }
}

#[test]
fn the_order_of_texts_is_the_order_of_strings() {
    let samples = ["", "a", "A", "aa", "ab", "b", "a:", "a b", "ä", "z", "ż", "🦀", "\u{ffff}", "\u{10000}"];
    for first in samples {
        for second in samples {
            assert_eq!(text_precedes(first, second), first < second, "{first:?} {second:?}");
            assert_eq!(text_equals(first, second), first == second);
        }
    }
}

#[test]
fn the_environment_is_set_up_from_the_configuration() {
    let mut config = Config::default();
    let mut interpreter = AdapterInterpreter::default();
    interpreter.setup_environment(&mut config);
    assert_eq!(interpreter.get_variable(&"me".to_string()), Some(&"new User".to_string()));
    assert_eq!(
        entries(&config),
        vec![("username".to_string(), "new User".to_string(), String::new())]
    );
    config.put("username", "biochemist", "string");
    interpreter.setup_environment(&mut config);
    assert_eq!(interpreter.get_variable(&"me".to_string()), Some(&"biochemist".to_string()));
    assert_eq!(config.len(), 1);
}
