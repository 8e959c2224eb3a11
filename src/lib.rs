//! An interactive task list: an ordered store of tasks, a two-mode input state
//! machine that drives it, and a verified in-memory persistence backend.
//!
//! The state machine never performs storage work itself: each transition
//! returns an [`Effect`](machine::Effect) that the caller carries out against
//! whatever backend it holds, reporting created identities back through
//! [`App::on_created`](machine::App::on_created).

pub mod task;
pub mod store;
pub mod machine;
pub mod backend;
pub mod laws;
pub mod keys;
