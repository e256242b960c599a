//! A sharded key-value node: partitioning of keys over a fixed peer list,
//! the local store, the retry policy for forwarded calls, and the routing
//! of each HTTP request to a local answer or a forward to the owning peer.
pub mod partition;
pub mod store;
pub mod json;
pub mod remote;
pub mod router;
