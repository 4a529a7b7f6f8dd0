//! An in-memory message broker core: topics hold either a shared buffer of
//! pending messages or a set of per-subscriber fan-out queues, with lazy
//! retention on pop and key compaction on push.

pub mod json;
pub mod message;
pub mod registry;
pub mod routes;
pub mod topic;

pub use message::{Message, Messages, QueuedMessage};
pub use registry::Registry;
pub use routes::{router, PushParams};
pub use topic::{Subscriber, Topic, TopicConfig, TopicContent};
