//! Retention sweeping for chat containers: the decisions of a sweep pass, verified.
//!
//! The sweeper pages through a container oldest-first, stops at the first
//! message that is still within the retention window, deletes what expired in
//! batches, sweeps child containers first, and keeps run statistics. Every
//! network call is made by the caller: the types here say which call comes next
//! and take its result back.

pub mod message;
pub mod pager;
pub mod filter;
pub mod deleter;
pub mod children;
pub mod sweep;
pub mod policy;
pub mod pass;
pub mod stats;
pub mod scheduler;
pub mod sweeper;
