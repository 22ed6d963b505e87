//! Hammerfest account data: validated identifiers, strict extraction of typed
//! records from parsed pages, the session protocol's decisions, versioned
//! identity links, and the account lookup service over abstract stores.
pub mod text;
pub mod pattern;
pub mod server;
pub mod ids;
pub mod model;
pub mod errors;
pub mod document;
pub mod scrape;
pub mod forum;
pub mod session;
pub mod urls;
pub mod link;
pub mod service;
pub mod mem;
pub mod mem_client;
