//! A synchronous facade over a replicated, multi-writer document store.
//!
//! The library models the handle and capability layer of a peer-to-peer
//! key/value document node: typed errors, writer identities, capability
//! tickets with an exactly reversible text form, per-document latest-entry
//! state, and the decision logic of the live-event subscription loop.
//! The asynchronous executor, storage and network transport live outside
//! the verified core; a thin runtime shell drives this library through
//! plain values.

pub mod author;
pub mod doc;
pub mod error;
pub mod hexstr;
pub mod live;
pub mod node;
pub mod ticket;
pub mod util;
