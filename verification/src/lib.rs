//! Attribute-based trust for authenticated channels.
//!
//! An authority enrolls members, at once or through one-time tokens
//! (`enrollment`), and attests their attributes in signed credentials
//! (`credential`). A channel verifies the credential that its peer presents
//! against a trust context (`trust_context`) and keeps the attributes, with
//! their expiry, in a store (`store`). A guard in front of a destination
//! reads the store to decide on every message (`access_control`). What holds
//! across these parts is stated and proved in `laws`.
//!
//! Time is counted in whole seconds. Signing and checking signatures is the
//! work of whoever holds the keys: the library takes what that work came to,
//! as a value or through a function that the caller hands in.
//!
//! `wire` gives the enrollment requests their bytes. `events`, `app_state`
//! and `snapshot` serve an application that embeds a node and shows its
//! state.

pub mod byte_map;
pub mod identifier;
pub mod attributes;
pub mod trust_context;
pub mod credential;
pub mod store;
pub mod access_control;
pub mod enrollment;
pub mod wire;
pub mod laws;
pub mod events;
pub mod app_state;
pub mod snapshot;
