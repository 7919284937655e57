//! Board-game catalog import: the reconciliation of a remote list of names
//! with a local table of records, and the replies of the HTTP routes.
//!
//! The network client, the database and the web server live outside this
//! library: an import is a state machine that asks for one store operation
//! at a time and is told how it went. `store_model` drives that machine
//! against a modelled store and proves what an import does to it.
mod error;
mod record;

pub mod import;
pub mod reconcile;
pub mod reply;
pub mod store_model;

pub use error::{BgError, ErrorView};
pub use import::{Action, Event, ImportRun};
pub use record::Bg;
pub use reply::{error_into_response, import_reply, push_decimal, version_text, Reply};
