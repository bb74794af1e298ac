//! A verified name-registration registry.
//!
//! The registry maps human-readable domain names to resolution targets and
//! enforces that only the original registrant may change a domain's target.
//! Persistence is modelled as an injected key-value state store, so the
//! registration state machine — uniqueness at registration, ownership-gated
//! mutation, permanence of records — is stated in contracts and proved.

pub mod keys;
pub mod record;
pub mod registry;
pub mod store;
