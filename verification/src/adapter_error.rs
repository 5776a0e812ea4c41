//! What can go wrong when an adapter is asked to read or write.

use vstd::prelude::*;
use crate::interpreter_errors::error_rendering;
use crate::text::{concat2, concat3};

verus! {

/// The kinds of failure of an adapter. A failed validation carries the
/// findings, each with the place it belongs to, and the name of what was
/// validated; a failed expression carries the reason.
#[derive(Eq, Hash, Ord, PartialEq, PartialOrd, Clone, Debug)]
pub enum AdapterErrorType {
    TicketWrite,
    TicketDelete,
    BucketWrite,
    BucketDelete,
    TagWrite,
    TagDelete,
    StateWrite,
    FilterWrite,
    FilterDelete,
    Access,
    Validate(Vec<(String, String)>, String),
    Expression(String),
    Instantiation,
}

/// The sentence that describes an expression that failed for the given reason.
pub open spec fn expression_failure(reason: Seq<char>) -> Seq<char> {
    "Failed to execute Expression correctly. Reason: "@ + reason
}

/// The sentence that describes a failure of the given kind.
pub open spec fn error_text(error_type: AdapterErrorType) -> Seq<char> {
    match error_type {
        AdapterErrorType::TicketDelete => "Failed to delete Ticket"@,
        AdapterErrorType::TicketWrite => "Failed to write Ticket"@,
        AdapterErrorType::Validate(_, name) => "Failed to validate "@ + name@,
        AdapterErrorType::BucketWrite => "Failed to write Bucket"@,
        AdapterErrorType::BucketDelete => "Failed to delete Bucket"@,
        AdapterErrorType::FilterWrite => "Failed to write custom Filter"@,
        AdapterErrorType::FilterDelete => "Failed to delete custom Filter"@,
        AdapterErrorType::TagWrite => "Failed to write Tag"@,
        AdapterErrorType::TagDelete => "Failed to delete Tag"@,
        AdapterErrorType::StateWrite => "Failed to write State"@,
        AdapterErrorType::Access => "Failed access Adapter Data"@,
        AdapterErrorType::Expression(text) => expression_failure(text@),
        AdapterErrorType::Instantiation => "Failed to instantiate Adapter"@,
    }
}

/// A failure of an adapter.
#[derive(Eq, Hash, Ord, PartialEq, PartialOrd, Clone, Debug)]
pub struct AdapterError {
    pub error_type: AdapterErrorType,
}

impl AdapterError {
    /// A failure of the given kind.
    pub fn new(error_type: AdapterErrorType) -> (r: Self)
        ensures
            r.error_type == error_type,
    {
        AdapterError { error_type }
    }

    /// The sentence that describes the failure.
    pub fn get_text(&self) -> (message: String)
        ensures
            message@ == error_text(self.error_type),
    {
        match &self.error_type {
            AdapterErrorType::TicketDelete => "Failed to delete Ticket".to_string(),
            AdapterErrorType::TicketWrite => "Failed to write Ticket".to_string(),
            AdapterErrorType::Validate(_, name) => concat2("Failed to validate ", name.as_str()),
            AdapterErrorType::BucketWrite => "Failed to write Bucket".to_string(),
            AdapterErrorType::BucketDelete => "Failed to delete Bucket".to_string(),
            AdapterErrorType::FilterWrite => "Failed to write custom Filter".to_string(),
            AdapterErrorType::FilterDelete => "Failed to delete custom Filter".to_string(),
            AdapterErrorType::TagWrite => "Failed to write Tag".to_string(),
            AdapterErrorType::TagDelete => "Failed to delete Tag".to_string(),
            AdapterErrorType::StateWrite => "Failed to write State".to_string(),
            AdapterErrorType::Access => "Failed access Adapter Data".to_string(),
            AdapterErrorType::Expression(text) => concat2(
                "Failed to execute Expression correctly. Reason: ",
                text.as_str(),
            ),
            AdapterErrorType::Instantiation => "Failed to instantiate Adapter".to_string(),
        }
    }

    /// The error as it is shown.
    pub fn to_string(&self) -> (r: String)
        ensures
            r@ == error_rendering(error_text(self.error_type)),
    {
        concat3("An Error Occurred; ", self.get_text().as_str(), ".")
    }
}

} // verus!
