//! The two failures of a compile pass: one for tokenizing, one for generating SQL.
//!
//! Both carry a message and nothing else. Their view is that message.

use std::cmp::Ordering;
use vstd::prelude::*;
use crate::text::{concat3, precedes, text_precedes};

verus! {

/// What an error reads like when it is shown to the author of a filter.
pub open spec fn error_rendering(message: Seq<char>) -> Seq<char> {
    "An Error Occurred; "@ + message + "."@
}

/// A filter text could not be turned into instructions.
#[derive(Eq, Hash, Ord, Debug)]
pub struct TokenizationError {
    error_string: String,
}

/// Two errors are equal where their messages are.
impl PartialEq for TokenizationError {
    fn eq(&self, other: &Self) -> (r: bool) {
        self.error_string == other.error_string
    }
}

impl vstd::std_specs::cmp::PartialEqSpecImpl for TokenizationError {
    open spec fn obeys_eq_spec() -> bool {
        true
    }

    open spec fn eq_spec(&self, other: &Self) -> bool {
        self@ == other@
    }
}

/// Errors are in the order of their messages, which is that of a dictionary.
impl PartialOrd for TokenizationError {
    fn partial_cmp(&self, other: &Self) -> (r: Option<Ordering>) {
        if text_precedes(self.error_string.as_str(), other.error_string.as_str()) {
            Some(Ordering::Less)
        } else if text_precedes(other.error_string.as_str(), self.error_string.as_str()) {
            Some(Ordering::Greater)
        } else {
            Some(Ordering::Equal)
        }
    }
}

impl vstd::std_specs::cmp::PartialOrdSpecImpl for TokenizationError {
    open spec fn obeys_partial_cmp_spec() -> bool {
        true
    }

    open spec fn partial_cmp_spec(&self, other: &Self) -> Option<Ordering> {
        if precedes(self@, other@) {
            Some(Ordering::Less)
        } else if precedes(other@, self@) {
            Some(Ordering::Greater)
        } else {
            Some(Ordering::Equal)
        }
    }
}

impl View for TokenizationError {
    type V = Seq<char>;

    closed spec fn view(&self) -> Seq<char> {
        self.error_string@
    }
}

impl Clone for TokenizationError {
    fn clone(&self) -> (r: Self)
        ensures
            r@ == self@,
    {
        TokenizationError { error_string: self.error_string.clone() }
    }
}

impl TokenizationError {
    /// The message.
    pub fn message(&self) -> (r: String)
        ensures
            r@ == self@,
    {
        self.error_string.clone()
    }

    /// The error as it is shown.
    pub fn to_string(&self) -> (r: String)
        ensures
            r@ == error_rendering(self@),
    {
        concat3("An Error Occurred; ", self.error_string.as_str(), ".")
    }
}

/// Makes a tokenization error from a message of type `T`.
pub trait NewTokenizationError<T>: Sized {
    fn new(param: T) -> Self;
}

impl NewTokenizationError<&str> for TokenizationError {
    fn new(param: &str) -> (r: TokenizationError)
        ensures
            r@ == param@,
    {
        TokenizationError { error_string: param.to_string() }
    }
}

impl NewTokenizationError<String> for TokenizationError {
    fn new(param: String) -> (r: TokenizationError)
        ensures
            r@ == param@,
    {
        TokenizationError { error_string: param }
    }
}

/// A list of instructions could not be turned into SQL.
#[derive(Eq, Hash, Ord, Debug)]
pub struct SqlParseError {
    error_string: String,
}

/// Two errors are equal where their messages are.
impl PartialEq for SqlParseError {
    fn eq(&self, other: &Self) -> (r: bool) {
        self.error_string == other.error_string
    }
}

impl vstd::std_specs::cmp::PartialEqSpecImpl for SqlParseError {
    open spec fn obeys_eq_spec() -> bool {
        true
    }

    open spec fn eq_spec(&self, other: &Self) -> bool {
        self@ == other@
    }
}

/// Errors are in the order of their messages, which is that of a dictionary.
impl PartialOrd for SqlParseError {
    fn partial_cmp(&self, other: &Self) -> (r: Option<Ordering>) {
        if text_precedes(self.error_string.as_str(), other.error_string.as_str()) {
            Some(Ordering::Less)
        } else if text_precedes(other.error_string.as_str(), self.error_string.as_str()) {
            Some(Ordering::Greater)
        } else {
            Some(Ordering::Equal)
        }
    }
}

impl vstd::std_specs::cmp::PartialOrdSpecImpl for SqlParseError {
    open spec fn obeys_partial_cmp_spec() -> bool {
        true
    }

    open spec fn partial_cmp_spec(&self, other: &Self) -> Option<Ordering> {
        if precedes(self@, other@) {
            Some(Ordering::Less)
        } else if precedes(other@, self@) {
            Some(Ordering::Greater)
        } else {
            Some(Ordering::Equal)
        }
    }
}

impl View for SqlParseError {
    type V = Seq<char>;

    closed spec fn view(&self) -> Seq<char> {
        self.error_string@
    }
}

impl Clone for SqlParseError {
    fn clone(&self) -> (r: Self)
        ensures
            r@ == self@,
    {
        SqlParseError { error_string: self.error_string.clone() }
    }
}

impl SqlParseError {
    /// The message.
    pub fn _message(&self) -> (r: String)
        ensures
            r@ == self@,
    {
        self.error_string.clone()
    }

    /// The error as it is shown.
    pub fn to_string(&self) -> (r: String)
        ensures
            r@ == error_rendering(self@),
    {
        concat3("An Error Occurred; ", self.error_string.as_str(), ".")
    }
}

/// Makes a code generation error from a message of type `T`.
pub trait NewSqlParseError<T>: Sized {
    fn new(param: T) -> Self;
}

impl NewSqlParseError<&str> for SqlParseError {
    fn new(param: &str) -> (r: SqlParseError)
        ensures
            r@ == param@,
    {
        SqlParseError { error_string: param.to_string() }
    }
}

impl NewSqlParseError<String> for SqlParseError {
    fn new(param: String) -> (r: SqlParseError)
        ensures
            r@ == param@,
    {
        SqlParseError { error_string: param }
    }
}

} // verus!
