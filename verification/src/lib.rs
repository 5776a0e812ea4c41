//! Tickets from several sources, and a small language to select them.
//!
//! The heart of the crate is a compiler for filter expressions such as
//!
//! ```text
//! in_bucket(default.bucket) with_tag(documentation) ;; assigned_to(::me)
//! ```
//!
//! A filter is a list of instructions. Each is a keyword with one argument,
//! which is literal text or the name of a variable after `::`. The
//! instructions between two separators `;;` all have to hold and become one
//! `SELECT`; the separators become `UNION`. Compiling has two phases:
//! [`AdapterInterpreter::try_tokenize`] turns the text into instructions, and
//! [`AdapterInterpreter::construct_sql`] turns the instructions into one SQL
//! query on the tables of the local database.
//!
//! Everything is verified with Verus against a mathematical model of the
//! language, which is the module [`language`]. The modules [`laws`] and
//! [`round_trip`] prove what holds of the language as a whole: that rendering
//! and tokenizing are inverse to each other, that a singleton instruction is
//! accepted once in a pass, that a separator needs a segment before it.
//!
//! Around the compiler stand the records that the tickets are made of
//! ([`ticket`], [`bucket`], [`state`], [`tag`], [`filter`]), the configuration
//! ([`config_base`], [`config_option`], [`color`]), and what is decided where
//! tickets are provided: how the operation of a filter is taken apart
//! ([`ticket_provider`]), how adapters stand in the configuration
//! ([`adapter_registry`]), what may be written ([`validation`]), what is shown
//! for a selection ([`selection`], [`bucket_panel`]), and what the adapters decide before they
//! turn to their sources ([`local_ticket_adapter`], [`github_ticket_adapter`],
//! [`adapter_error`]). Text is handled character by character in [`text`].
//!
//! Resolved text goes into the SQL as it is. Nothing is escaped: a quote in an
//! argument ends the SQL literal. The one place where text is quoted is
//! [`quote_literal`].

pub mod adapter_error;
pub mod adapter_registry;
pub mod bucket;
pub mod bucket_panel;
pub mod bucket_panel_location;
pub mod color;
pub mod config_base;
pub mod config_option;
pub mod filter;
pub mod github_ticket_adapter;
pub mod interpreter;
pub mod interpreter_errors;
pub mod interpreter_instructions;
pub mod interpreter_parameters;
pub mod language;
pub mod laws;
pub mod local_ticket_adapter;
pub mod round_trip;
pub mod selection;
pub mod state;
pub mod tag;
pub mod text;
pub mod ticket;
pub mod ticket_provider;
pub mod validation;

pub use adapter_error::{AdapterError, AdapterErrorType};
pub use bucket::{Bucket, BucketIdentifier};
pub use bucket_panel_location::{BucketPanelLocation, BucketPanelLocationType};
pub use config_base::Config;
pub use config_option::{ConfigOption, ToConfig};
pub use filter::{Filter, FilterIdentifier, FilterType};
pub use interpreter::{quote_literal, AdapterInterpreter, SqlExpression, SqlParsable};
pub use interpreter_errors::{
    NewSqlParseError, NewTokenizationError, SqlParseError, TokenizationError,
};
pub use interpreter_instructions::{
    AssignedToInstruction, DescriptionContainsInstruction, DueInDaysInstruction,
    FunctionTypeInstruction, InBucketInstruction, Instruction, JoinInstruction,
    TitleContainsInstruction, VerifiableInstruction, WithStateInstruction, WithTagInstruction,
};
pub use interpreter_parameters::{
    Literal, Parameter, Variable, VerifiableData, VerifiableDataType,
};
pub use state::{State, StateIdentifier};
pub use tag::Tag;
pub use ticket::Ticket;
pub use ticket_provider::FilterExpression;
