//! A callback registry with handle-based lifetimes.
//!
//! Callers register closures with a [`CallbackManager`] and receive a
//! [`Handle`] for each registration. A callback stays active as long as any
//! clone of its handle is alive; once the last clone is dropped, the entry is
//! removed on the next [`CallbackManager::run_all`] pass, which first prunes
//! dead entries and then invokes the surviving closures in registration order.

pub mod liveness;
pub mod prune;
pub mod registry;

pub use liveness::Handle;
pub use registry::CallbackManager;
