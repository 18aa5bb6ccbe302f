//! A persistent task record store: tasks addressed by a monotonically
//! increasing numeric identifier, kept in durable paged storage, with
//! per-record ownership enforcement and field validation.

pub mod task;
pub mod text;
pub mod storage;
pub mod codec;
pub mod messages;
pub mod store;

