//! Support for tasks that are polled on every simulation cycle.

use std::sync::Arc;
use vstd::prelude::*;

verus! {

/// A task that can be woken through a shared handle to itself.
pub trait ArcWake: Send + Sync {
    /// Wakes the task, consuming the handle.
    fn wake(self: Arc<Self>) {
        Self::wake_by_ref(&self)
    }

    /// Wakes the task without consuming the handle.
    fn wake_by_ref(arc_self: &Arc<Self>);
}

} // verus!
