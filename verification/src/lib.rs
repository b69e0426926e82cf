//! Verified core of the SolNAS desktop client: the rules that decide what the
//! client shows, which requests it sends and how it reacts to the replies.

pub mod text;
pub mod paths;
pub mod saved_address;
pub mod theme;
pub mod messages;
pub mod preview;
pub mod upload;
pub mod client;
