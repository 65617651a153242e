//! Query-result rendering and command grammars for a command-line database runner.
//!
//! The library holds the logic: box-drawn table rendering with running column
//! widths, output naming, SQL statement helpers, the Redis and MongoDB command
//! grammars, and the decisions of one invocation. Connections, drivers, files
//! and the process live around it.

pub mod border;
pub mod clock;
pub mod command;
pub mod dispatch;
pub mod error;
pub mod mongo;
pub mod query;
pub mod redis;
pub mod table;
pub mod text;

pub use border::{Border, BorderStyle};
pub use error::Error;
pub use table::{Header, Table};
