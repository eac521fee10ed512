//! A ledger-backed business-process engine for payment collection, refund
//! handling, and merchant onboarding, gated by a role-based access-control
//! layer.
//!
//! The host environment (clock, caller authentication, durable storage,
//! notification channel) is kept outside the library: every operation takes
//! the already-authenticated caller identity and the current time as plain
//! arguments, keeps its state in explicit fields, and records the
//! notifications it emits in an event log. Each public operation is total:
//! it returns either its documented success value or one of its named
//! failures, and never panics.

pub mod access_control;
pub mod decimal;
pub mod merchant_registry;
pub mod payment_processor;
pub mod refund_manager;
pub mod types;
