//! Validation and state-transition engine for an identity association log.
//!
//! An inbox accumulates accounts, passkeys and installations through signed
//! actions; replaying the same ordered actions always yields the same state.
pub mod association_log;
pub mod inbox_id;
pub mod laws;
pub mod member;
pub mod signature;
pub mod state;
