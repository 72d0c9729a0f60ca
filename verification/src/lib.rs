//! Verified core of a shipment logistics platform.
//!
//! The crate owns the platform's state: registered users and drivers,
//! shipment records with their append-only tracking histories, return
//! requests, and the counters behind the human-readable identifiers.
//! Every operation is an ordinary function over that state; the caller's
//! already-authenticated identity and the current time are passed in as
//! plain values, so the whole rule set — authorization, status updates,
//! identifier generation, cost estimation, analytics — is verified here.

pub mod cost;
pub mod ids;
pub mod platform;
pub mod types;
