//! Sampling: when to ask which server, what becomes of the answers, and which model is
//! shown.
//!
//! A background thread of the program goes round the servers. What it should do next, and
//! what each outcome means, is decided here; the thread resolves names, sends, waits and
//! publishes what it is told to.

pub mod event;
pub mod sampler;
pub mod settings;
pub mod sleep;
pub mod stats;
