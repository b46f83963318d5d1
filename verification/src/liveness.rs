//! The liveness cell shared between a caller-held [`Handle`] and the
//! registry's bookkeeping.
//!
//! Each registration allocates one fresh shared cell. The `Handle` (and every
//! clone of it) owns one reference to the cell; the registry's entry holds one
//! further reference through a [`LivenessObserver`]. The entry counts as alive
//! exactly while some handle clone still owns the cell, which the observer
//! reads off the cell's owner count: destruction of the last handle clone
//! lowers it immediately, without touching the registry. Liveness can only
//! fall, never rise: observers are never cloned and hand out no new handles,
//! so once every handle clone is gone, no new owner of the cell can appear.

use vstd::prelude::*;
use std::rc::Rc;

verus! {

/// A caller-held capability: the callback registered alongside this handle
/// stays active as long as any clone of the handle is alive. Dropping the
/// last clone marks the callback for removal on the next invocation pass.
pub struct Handle {
    token: Rc<()>,
}

/// The registry's side of one liveness cell: answers whether any handle
/// clone for the associated entry is still alive.
pub(crate) struct LivenessObserver {
    cell: Rc<()>,
}

/// Creates a fresh liveness cell and returns its two sides: the owning
/// handle and the observer for the registry's entry.
pub(crate) fn liveness_pair() -> (Handle, LivenessObserver) {
    let cell = Rc::new(());
    let observed = share_cell(&cell);
    (Handle { token: cell }, LivenessObserver { cell: observed })
}

impl LivenessObserver {
    /// Whether some handle clone for this entry is still alive: beyond the
    /// observer's own reference, the cell has at least one further owner.
    /// The answer depends on which handles the caller has dropped so far,
    /// so the contract promises nothing of it, and nothing relates two
    /// readings.
    pub(crate) fn is_alive(&self) -> bool {
        owner_count(&self.cell) >= 2
    }
}

impl Clone for Handle {
    /// Duplicates the capability: the callback stays active until every
    /// clone is dropped.
    fn clone(&self) -> (other: Self) {
        Handle { token: share_cell(&self.token) }
    }
}

/// Relies on `Rc::clone`: returns a new owning reference to the same
/// allocation, raising its owner count by one.
#[verifier::external_body]
fn share_cell(cell: &Rc<()>) -> (other: Rc<()>) {
    Rc::clone(cell)
}

/// Relies on `Rc::strong_count`: the number of owning references to the
/// allocation at this moment. Owners are created and dropped between calls,
/// so two calls may differ.
#[verifier::external_body]
fn owner_count(cell: &Rc<()>) -> usize {
    Rc::strong_count(cell)
}

} // verus!
