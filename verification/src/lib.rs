//! One-way reconciliation of two content-addressed backup repositories that
//! are served over a REST blob-storage protocol.
//!
//! A run makes the destination hold what the source holds and, with
//! pruning, nothing else. Objects are named by the hash of their content and
//! grouped into five categories; one configuration object stands apart. A
//! run never forwards bytes that do not hash to their name, never replaces a
//! configuration that differs, and stops at the first failure.
//!
//! The library decides; it performs no I/O. Every component is a machine
//! that names an action for a driver and takes the event that the action led
//! to (see `protocol`). The driver sends the requests and reports what came
//! back:
//!
//! - `engine` sequences a whole run: `init`, then `config`, then one
//!   `category_sync` for each category in order.
//! - `category_sync` fetches both listings (`fetch`), plans (`plan`), and
//!   then transfers (`transfer`) and deletes (`delete`) one object at a time.
//! - `content` hashes and names content; `address` forms the addresses of
//!   the routes; `status` classifies status codes.
//! - `category_run` and `engine_run` state what whole runs ask for, and in
//!   which order, against a driver whose answers are given.

pub mod address;
pub mod category;
pub mod category_run;
pub mod category_sync;
pub mod config;
pub mod content;
pub mod delete;
pub mod engine;
pub mod engine_run;
pub mod fetch;
pub mod init;
pub mod listing;
pub mod plan;
pub mod protocol;
pub mod status;
pub mod transfer;
