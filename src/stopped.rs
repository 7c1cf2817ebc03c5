//! An awaiter of the signal: it resolves once the flag is raised.
use crate::protocol::Watch;
use crate::signal::Stopper;
use vstd::prelude::*;

verus! {

/// Awaits a [`Stopper`] being stopped. It has no inner computation: its watch
/// suspends until the held waiter is woken, and resolves only as cancelled,
/// that is, once the flag is found raised.
pub struct Stopped {
    /// The signal awaited.
    pub stopper: Stopper,
    /// The protocol state of the awaiter.
    pub watch: Watch,
}

impl Stopped {
    /// The invariant of an awaiter.
    pub open spec fn wf(self) -> bool {
        self.watch.wf() && !self.watch.wraps_inner
    }
}

impl From<Stopper> for Stopped {
    fn from(stopper: Stopper) -> (r: Stopped)
        ensures
            r.stopper == stopper,
            r.watch == Watch::for_signal_spec(),
            r.wf(),
    {
        Stopped { stopper, watch: Watch::for_signal() }
    }
}

impl vstd::std_specs::convert::FromSpecImpl<Stopper> for Stopped {
    open spec fn obeys_from_spec() -> bool {
        true
    }

    open spec fn from_spec(stopper: Stopper) -> Stopped {
        Stopped { stopper, watch: Watch::for_signal_spec() }
    }
}

impl From<Stopped> for Stopper {
    fn from(awaiter: Stopped) -> (r: Stopper)
        ensures
            r == awaiter.stopper,
    {
        awaiter.stopper
    }
}

impl vstd::std_specs::convert::FromSpecImpl<Stopped> for Stopper {
    open spec fn obeys_from_spec() -> bool {
        true
    }

    open spec fn from_spec(awaiter: Stopped) -> Stopper {
        awaiter.stopper
    }
}

} // verus!
