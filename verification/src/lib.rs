//! Hot-reload change classification and patch streaming for a development
//! server: deciding whether an edit to a source file can be hot-patched into
//! a running application, extracting the minimal patch, and coordinating
//! rebuilds and reload notifications for connected clients.
pub mod builder;
pub mod bus;
pub mod client;
pub mod config;
pub mod console;
pub mod differ;
pub mod events;
pub mod extract;
pub mod location;
pub mod parse;
pub mod session;
pub mod snapshot;
pub mod text;
pub mod transit;
pub mod watcher;
