//! Scoped configuration resolution engine.
//!
//! The library computes one authoritative view of pluggable server
//! definitions spread over several JSON sources with different authority
//! levels, resolves each entry's three-state enablement, manages named
//! settings profiles with at most one active at a time, and records
//! template installations so they can be reversed exactly.
//!
//! All logic here is pure: every operation takes the current contents of
//! the relevant files as values and returns the new contents to persist.
//! Reading, parsing and writing the files themselves is left to the
//! embedding application.

pub mod codec;
pub mod enable;
pub mod errors;
pub mod json;
pub mod listing;
pub mod merge;
pub mod packs;
pub mod paths;
pub mod plugins;
pub mod profiles;
pub mod registry;
pub mod servers;
pub mod sys;
pub mod toggle;
