//! Verified core of a peer-to-peer clipboard synchronisation tool: content
//! hashing, echo suppression, the table of discovered devices and their
//! connection states, the discovery protocol's decisions and the state that
//! the user interface shows.

pub mod clipboard;
mod clock;
pub mod ident;
pub mod network;
pub mod table;
pub mod tracker;
pub mod types;
pub mod ui;
