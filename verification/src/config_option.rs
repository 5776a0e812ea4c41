//! The options of a configuration, and the values that can be kept in one.

use vstd::prelude::*;
use crate::text::{
    decimal,
    join,
    joined,
    parse_i32,
    parsed_i32,
    render_i32,
    split_on_text,
    split_text,
    text_equals,
    texts,
};

verus! {

/// What an option holds: its value as text, and a hint at how to show it.
pub struct ConfigOptionModel {
    pub value: Seq<char>,
    pub display_options: Seq<char>,
}

/// One option of a configuration. Its view is a [`ConfigOptionModel`].
#[derive(PartialEq)]
pub struct ConfigOption {
    value: String,
    display_options: String,
}

impl Clone for ConfigOption {
    fn clone(&self) -> (r: Self)
        ensures
            r@ == self@,
    {
        ConfigOption { value: self.value.clone(), display_options: self.display_options.clone() }
    }
}

impl View for ConfigOption {
    type V = ConfigOptionModel;

    closed spec fn view(&self) -> ConfigOptionModel {
        ConfigOptionModel { value: self.value@, display_options: self.display_options@ }
    }
}

impl Default for ConfigOption {
    fn default() -> (r: Self)
        ensures
            r@ == (ConfigOptionModel { value: Seq::empty(), display_options: Seq::empty() }),
    {
        ConfigOption { value: String::new(), display_options: String::new() }
    }
}

/// The text between the items of a list that is kept in one option.
pub open spec fn list_separator() -> Seq<char> {
    "|||"@
}

/// A value that can be kept in a configuration as text.
pub trait ToConfig: Sized {
    /// The text that stands for the value.
    spec fn config_text(&self) -> Seq<char>;

    /// Whether `result` is what the text `value` reads as.
    spec fn read_as(value: Seq<char>, result: Option<Self>) -> bool;

    fn to_config(&self) -> (r: String)
        ensures
            r@ == self.config_text(),
    ;

    fn to_self(value: &str) -> (r: Option<Self>)
        ensures
            Self::read_as(value@, r),
    ;
}

impl ToConfig for String {
    open spec fn config_text(&self) -> Seq<char> {
        self@
    }

    open spec fn read_as(value: Seq<char>, result: Option<Self>) -> bool {
        result matches Some(text) && text@ == value
    }

    fn to_config(&self) -> (r: String) {
        self.clone()
    }

    fn to_self(value: &str) -> (r: Option<Self>) {
        Some(value.to_string())
    }
}

/// A borrowed text can be kept, but none can be read back.
impl ToConfig for &str {
    open spec fn config_text(&self) -> Seq<char> {
        self@
    }

    open spec fn read_as(value: Seq<char>, result: Option<Self>) -> bool {
        result is None
    }

    fn to_config(&self) -> (r: String) {
        let text: &str = *self;
        text.to_string()
    }

    fn to_self(_value: &str) -> (r: Option<Self>) {
        None
    }
}

impl ToConfig for i32 {
    open spec fn config_text(&self) -> Seq<char> {
        decimal(*self as int)
    }

    open spec fn read_as(value: Seq<char>, result: Option<Self>) -> bool {
        match result {
            Some(number) => parsed_i32(value) == Some(number as int),
            None => parsed_i32(value) is None,
        }
    }

    fn to_config(&self) -> (r: String) {
        render_i32(*self)
    }

    fn to_self(value: &str) -> (r: Option<Self>) {
        parse_i32(value)
    }
}

impl ToConfig for Vec<String> {
    open spec fn config_text(&self) -> Seq<char> {
        joined(texts(self@), list_separator())
    }

    open spec fn read_as(value: Seq<char>, result: Option<Self>) -> bool {
        result matches Some(items) && texts(items@) == split_on_text(value, list_separator())
    }

    fn to_config(&self) -> (r: String) {
        join(self, "|||")
    }

    fn to_self(value: &str) -> (r: Option<Self>) {
        proof {
            reveal_strlit("|||");
        }
        Some(split_text(value, "|||"))
    }
}

impl ToConfig for bool {
    open spec fn config_text(&self) -> Seq<char> {
        if *self {
            "true"@
        } else {
            "false"@
        }
    }

    open spec fn read_as(value: Seq<char>, result: Option<Self>) -> bool {
        result == if value == "true"@ {
            Some(true)
        } else if value == "false"@ {
            Some(false)
        } else {
            None
        }
    }

    fn to_config(&self) -> (r: String) {
        if *self {
            "true".to_string()
        } else {
            "false".to_string()
        }
    }

    fn to_self(value: &str) -> (r: Option<Self>) {
        if text_equals(value, "true") {
            Some(true)
        } else if text_equals(value, "false") {
            Some(false)
        } else {
            None
        }
    }
}

/// A list of borrowed texts can be kept, but none can be read back.
impl ToConfig for Vec<&str> {
    open spec fn config_text(&self) -> Seq<char> {
        joined(self@.map_values(|item: &str| item@), list_separator())
    }

    open spec fn read_as(value: Seq<char>, result: Option<Self>) -> bool {
        result is None
    }

    fn to_config(&self) -> (r: String) {
        let mut items: Vec<String> = Vec::new();
        let mut i: usize = 0;
        while i < self.len()
            invariant
                i <= self.len(),
                items@.len() == i,
                forall|j: int| 0 <= j < i ==> items@[j]@ == self@[j]@,
            decreases self.len() - i,
        {
            items.push(self[i].to_string());
            i += 1;
        }
        proof {
            assert(texts(items@) =~= self@.map_values(|item: &str| item@));
        }
        join(&items, "|||")
    }

    fn to_self(_value: &str) -> (r: Option<Self>) {
        None
    }
}

impl ConfigOption {
    /// An option with the given value and hint.
    pub fn new(value: String, display_options: String) -> (r: ConfigOption)
        ensures
            r@ == (ConfigOptionModel { value: value@, display_options: display_options@ }),
    {
        ConfigOption { value, display_options }
    }

    /// The value, read as a `T`.
    pub fn get<T: ToConfig>(&self) -> (r: Option<T>)
        ensures
            T::read_as(self@.value, r),
    {
        T::to_self(self.value.as_str())
    }

    /// The value as text.
    pub fn raw(&self) -> (r: &String)
        ensures
            r@ == self@.value,
    {
        &self.value
    }

    /// The hint at how to show the value.
    pub fn display_options(&self) -> (r: &String)
        ensures
            r@ == self@.display_options,
    {
        &self.display_options
    }
}

} // verus!
