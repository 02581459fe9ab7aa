//! A declarative command-line argument parser.
//!
//! A command declares its fields once, as a [`schema::Schema`]: an ordered
//! list of fields, each either a named option (`-x` / `--name`, with an
//! optional default and help text) or a positional argument. One generic
//! engine then does all the work:
//!
//! - [`scan`] walks the raw token stream left to right, matches option
//!   keys, binds positional tokens in declaration order, and produces one
//!   typed value per field — or the exact parse fault;
//! - [`help`] renders the usage text for the same schema, independently of
//!   any token stream;
//! - [`cli`] decides, from a token stream and a set of command names,
//!   which command runs and whether help is wanted instead.
//!
//! Every function of the engine carries a contract that pins its result to
//! a mathematical description of the same step, and [`laws`] states and
//! proves the rules the engine obeys for all schemas. Reading the process
//! arguments, printing, and exiting stay outside the library: a host hands
//! in plain token lists and prints what comes back.

pub mod cli;
pub mod coerce;
pub mod help;
pub mod laws;
pub mod scan;
pub mod schema;
pub mod value;

pub use crate::cli::{
    contains_token, entry_point, error_message, plan_dispatch, DispatchPlan, EntryOutcome, Helper,
    PARSE_FAILURE_EXIT_CODE,
};
pub use crate::coerce::{ArgValue, ParseError, Slot};
pub use crate::help::{help_message, render_commands_help, render_help};
pub use crate::schema::{
    ArgumentMeta, FieldKind, FieldSpec, OptionMeta, Schema, SchemaError,
};
pub use crate::value::{Scalar, ScalarValue, Value, ValueType};
