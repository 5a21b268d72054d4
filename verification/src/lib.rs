//! Core of a minimal TCP echo server: the per-connection read/echo state
//! machine and the accept-loop decision, each with a verified contract.
//! Socket plumbing lives outside this crate; the machine here is driven by
//! reports of what each blocking operation returned, and it asks for the
//! next one.

pub mod handler;
pub mod listener;
