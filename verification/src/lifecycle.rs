//! The two-state application lifecycle: `Loading` then `Running`, with a
//! pending-transition queue. A requested transition does not take effect
//! immediately: it is applied at the commit point between ticks, so readers
//! during the remainder of the requesting tick still observe the prior state.

use vstd::prelude::*;

verus! {

/// The application lifecycle state. `Loading` is initial; `Running` is
/// terminal for this process.
#[derive(Clone, Copy, Debug, Default, PartialEq, Eq, Hash, Structural)]
pub enum AppState {
    #[default]
    Loading,
    Running,
}

/// The lifecycle controller: the currently observable state plus the queued
/// transition, if any.
#[derive(Clone, Copy, Debug)]
pub struct Lifecycle {
    pub current: AppState,
    pub pending: Option<AppState>,
}

/// The controller after a transition to `to` is requested: only the queue
/// changes; the observable state does not.
pub open spec fn request_spec(l: Lifecycle, to: AppState) -> Lifecycle {
    Lifecycle { current: l.current, pending: Some(to) }
}

/// The controller after the between-tick commit point: a queued transition
/// becomes observable and the queue empties.
pub open spec fn apply_spec(l: Lifecycle) -> Lifecycle {
    Lifecycle {
        current: match l.pending {
            Some(s) => s,
            None => l.current,
        },
        pending: None,
    }
}

impl Lifecycle {
    /// The initial controller: `Loading`, nothing queued.
    pub fn new() -> (r: Lifecycle)
        ensures
            r.current == AppState::Loading,
            r.pending is None,
    {
        Lifecycle { current: AppState::Loading, pending: None }
    }

    /// The currently observable state (read-only query).
    pub fn current(&self) -> (r: AppState)
        ensures
            r == self.current,
    {
        self.current
    }

    /// Queue a transition to `to`. Idempotent when called again with the same
    /// target before the commit point; the observable state is unchanged
    /// until then.
    pub fn request_transition(&mut self, to: AppState)
        ensures
            *final(self) == request_spec(*old(self), to),
            final(self).current == old(self).current,
    {
        self.pending = Some(to);
    }

    /// The between-tick commit point: apply the queued transition, if any.
    pub fn apply_pending(&mut self)
        ensures
            *final(self) == apply_spec(*old(self)),
    {
        match self.pending {
            Some(s) => {
                self.current = s;
                self.pending = None;
            },
            None => {
                self.pending = None;
            },
        }
    }
}

/// Transition latency: a transition requested during tick N leaves the state
/// observed by the remainder of tick N unchanged; only a reader at tick N+1,
/// after the between-tick commit point, observes the new state. Requesting
/// the same target again before the commit point changes nothing.
pub proof fn lemma_transition_latency(l: Lifecycle, to: AppState)
    ensures
        request_spec(l, to).current == l.current,
        apply_spec(request_spec(l, to)).current == to,
        request_spec(request_spec(l, to), to) == request_spec(l, to),
{
}

} // verus!
