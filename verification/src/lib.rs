//! Plan/execute routing for coding sessions.
//!
//! A capable model plans until the first edit; from then on an efficient model
//! executes, with the caller's trajectory as it is. Two routers decide who
//! takes a turn and with which request:
//!
//! - [`plan_execute`] lets the capable model back in for bounded checkpoints,
//!   on a shortened conversation ([`compaction`]).
//! - [`plan_execute_finalize`] gives the capable model final control once the
//!   executor declares the task complete ([`turn`], [`pattern`]).
//!
//! Both work on the conversation model of [`protocol`] and keep the preserved
//! wire bodies in step with what they write ([`replay`]). What holds across
//! requests is stated in [`laws`] and [`compaction_laws`]. What each operation
//! gives, told from what it is given, is stated in [`call_laws`],
//! [`session_laws`], [`finalize_laws`], [`conversation_laws`], [`turn_laws`]
//! and [`request_laws`].

pub mod blocks;
pub mod call_laws;
pub mod compaction;
pub mod compaction_laws;
pub mod conversation_laws;
pub mod error;
pub mod finalize_laws;
pub mod json;
pub mod laws;
pub mod pattern;
pub mod plan_execute;
pub mod plan_execute_finalize;
pub mod prompts;
pub mod protocol;
pub mod replay;
pub mod request_laws;
pub mod session_laws;
pub mod sessions;
pub mod text;
pub mod turn;
pub mod turn_laws;
