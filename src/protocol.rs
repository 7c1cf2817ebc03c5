//! The suspend-and-check protocol, as a state machine.
//!
//! A wrapper (a cancelable computation, a cancelable sequence, or an awaiter
//! of the signal) owns one [`Watch`]. Each time the executor polls the
//! wrapper, the wrapper feeds [`Observation::Polled`] to the watch and then
//! performs the [`Action`] it gets back, feeding the outcome in turn, until
//! the action is one that ends the poll (`Cancel`, `Complete`, `Suspend`).
//! The wrapper holds at most one waiter of the signal's notifier; the watch
//! records whether it holds one and whether that waiter is armed, that is,
//! registered before a check that still found the flag down.
use crate::signal::Stopper;
use event_listener::EventListener;
use vstd::prelude::*;

verus! {

/// Where a watch stands within a poll.
#[derive(PartialEq, Eq, Structural, Clone, Copy, Debug)]
pub enum Stage {
    /// Between polls.
    Idle,
    /// Waiting for the fast-path read of the flag.
    Checking,
    /// Waiting for a fresh waiter to be registered.
    Subscribing,
    /// Waiting for the read of the flag made after registering.
    Rechecking,
    /// Waiting for the poll of the held waiter.
    Waiting,
    /// Waiting for a woken waiter to be released.
    Releasing,
    /// Waiting for the poll of the inner computation.
    Running,
}

/// What the wrapper reports to its watch.
#[derive(PartialEq, Eq, Structural, Clone, Copy, Debug)]
pub enum Observation {
    /// The executor polled the wrapper.
    Polled,
    /// A read of the flag returned this value.
    Stopped(bool),
    /// A fresh waiter has been registered and is now held.
    Subscribed,
    /// The held waiter was polled: `true` if it has been notified.
    Woken(bool),
    /// The held waiter has been released.
    Released,
    /// The inner computation was polled: `true` if it produced its result.
    InnerReady(bool),
}

/// What the watch asks the wrapper to do next.
#[derive(PartialEq, Eq, Structural, Clone, Copy, Debug)]
pub enum Action {
    /// Read the flag with the relaxed fast-path read.
    CheckFast,
    /// Register a fresh waiter with the notifier and hold it.
    Subscribe,
    /// Read the flag again, sequentially consistent, after registering.
    Recheck,
    /// Poll the held waiter.
    PollWaiter,
    /// Release the held waiter.
    Release,
    /// Poll the inner computation.
    PollInner,
    /// Release any held waiter and resolve as cancelled.
    Cancel,
    /// Release the held waiter and resolve with the inner result.
    Complete,
    /// Keep the held waiter and return pending.
    Suspend,
}

/// The protocol state of one wrapper.
#[derive(PartialEq, Eq, Structural, Clone, Copy, Debug)]
pub struct Watch {
    /// Where the current poll stands.
    pub stage: Stage,
    /// Whether the wrapper holds a waiter.
    pub holding: bool,
    /// Whether the held waiter is armed: a read of the flag made after it was
    /// registered found the flag down.
    pub armed: bool,
    /// Whether there is an inner computation to poll; an awaiter of the
    /// signal has none.
    pub wraps_inner: bool,
    /// Whether the wrapper has resolved as cancelled. It then stays so.
    pub cancelled: bool,
}

/// Whether `a` ends the current poll.
pub open spec fn ends_poll(a: Action) -> bool {
    a == Action::Cancel || a == Action::Complete || a == Action::Suspend
}

/// The watch after resolving as cancelled.
pub open spec fn cancelled_from(w: Watch) -> Watch {
    Watch { stage: Stage::Idle, holding: false, armed: false, cancelled: true, ..w }
}

impl Watch {
    /// The invariant of a watch.
    pub open spec fn wf(self) -> bool {
        &&& self.armed ==> self.holding
        &&& self.cancelled ==> self.stage == Stage::Idle && !self.holding
        &&& self.stage == Stage::Subscribing ==> !self.holding
        &&& self.stage == Stage::Rechecking ==> self.holding && !self.armed
        &&& (self.stage == Stage::Waiting || self.stage == Stage::Releasing || self.stage
            == Stage::Running) ==> self.holding && self.armed
        &&& (self.stage == Stage::Idle || self.stage == Stage::Checking) ==> self.holding
            == self.armed
        &&& self.stage == Stage::Running ==> self.wraps_inner
    }

    /// Whether `obs` answers what the watch last asked for.
    pub open spec fn expects(self, obs: Observation) -> bool {
        match self.stage {
            Stage::Idle => obs == Observation::Polled,
            Stage::Checking => obs is Stopped,
            Stage::Subscribing => obs == Observation::Subscribed,
            Stage::Rechecking => obs is Stopped,
            Stage::Waiting => obs is Woken,
            Stage::Releasing => obs == Observation::Released,
            Stage::Running => obs is InnerReady,
        }
    }

    /// The next watch and action, on observation `obs`.
    pub open spec fn step(self, obs: Observation) -> (Watch, Action) {
        match (self.stage, obs) {
            (Stage::Idle, _) => if self.cancelled {
                (self, Action::Cancel)
            } else {
                (Watch { stage: Stage::Checking, ..self }, Action::CheckFast)
            },
            (Stage::Checking, Observation::Stopped(true)) => (cancelled_from(self), Action::Cancel),
            (Stage::Checking, _) => if self.holding {
                (Watch { stage: Stage::Waiting, ..self }, Action::PollWaiter)
            } else {
                (Watch { stage: Stage::Subscribing, ..self }, Action::Subscribe)
            },
            (Stage::Subscribing, _) => (
                Watch { stage: Stage::Rechecking, holding: true, armed: false, ..self },
                Action::Recheck,
            ),
            (Stage::Rechecking, Observation::Stopped(true)) => (
                cancelled_from(self),
                Action::Cancel,
            ),
            (Stage::Rechecking, _) => (
                Watch { stage: Stage::Waiting, armed: true, ..self },
                Action::PollWaiter,
            ),
            (Stage::Waiting, Observation::Woken(true)) => (
                Watch { stage: Stage::Releasing, ..self },
                Action::Release,
            ),
            (Stage::Waiting, _) => if self.wraps_inner {
                (Watch { stage: Stage::Running, ..self }, Action::PollInner)
            } else {
                (Watch { stage: Stage::Idle, ..self }, Action::Suspend)
            },
            (Stage::Releasing, _) => (
                Watch { stage: Stage::Checking, holding: false, armed: false, ..self },
                Action::CheckFast,
            ),
            (Stage::Running, Observation::InnerReady(true)) => (
                Watch { stage: Stage::Idle, holding: false, armed: false, ..self },
                Action::Complete,
            ),
            (Stage::Running, _) => (Watch { stage: Stage::Idle, ..self }, Action::Suspend),
        }
    }

    /// A fresh watch, between polls and holding no waiter.
    pub open spec fn fresh(wraps_inner: bool) -> Watch {
        Watch {
            stage: Stage::Idle,
            holding: false,
            armed: false,
            wraps_inner,
            cancelled: false,
        }
    }

    /// A fresh watch for an awaiter of the signal alone.
    pub open spec fn for_signal_spec() -> Watch {
        Watch::fresh(false)
    }

    /// A watch for a wrapper of an inner computation or sequence.
    pub fn for_inner() -> (r: Watch)
        ensures
            r == Watch::fresh(true),
            r.wf(),
    {
        Watch {
            stage: Stage::Idle,
            holding: false,
            armed: false,
            wraps_inner: true,
            cancelled: false,
        }
    }

    /// A watch for an awaiter of the signal alone.
    pub fn for_signal() -> (r: Watch)
        ensures
            r == Watch::for_signal_spec(),
            r.wf(),
    {
        Watch {
            stage: Stage::Idle,
            holding: false,
            armed: false,
            wraps_inner: false,
            cancelled: false,
        }
    }

    /// Whether `obs` is an answer the watch accepts now.
    pub fn accepts(&self, obs: Observation) -> (r: bool)
        ensures
            r == self.expects(obs),
    {
        match self.stage {
            Stage::Idle => obs == Observation::Polled,
            Stage::Checking => matches!(obs, Observation::Stopped(_)),
            Stage::Subscribing => obs == Observation::Subscribed,
            Stage::Rechecking => matches!(obs, Observation::Stopped(_)),
            Stage::Waiting => matches!(obs, Observation::Woken(_)),
            Stage::Releasing => obs == Observation::Released,
            Stage::Running => matches!(obs, Observation::InnerReady(_)),
        }
    }

    /// How many steps the signal alone may still answer, at most.
    pub open spec fn local_rank(self) -> nat {
        match self.stage {
            Stage::Releasing => 4,
            Stage::Checking => 3,
            Stage::Subscribing => 2,
            Stage::Rechecking => 1,
            _ => 0,
        }
    }

    /// Steps the watch on `obs`, then performs against `stopper` every action
    /// that needs only the signal (flag reads, registering and releasing the
    /// waiter held in `slot`), until the action is to poll the waiter or the
    /// inner computation, or ends the poll. A waiter is held in `slot`
    /// exactly when the watch says so, so it is released whenever the
    /// wrapper resolves.
    pub fn run_local(
        &mut self,
        stopper: &Stopper,
        slot: &mut Option<EventListener>,
        obs: Observation,
    ) -> (a: Action)
        requires
            old(self).wf(),
            old(self).expects(obs),
            obs == Observation::Polled || obs is Woken || obs is InnerReady,
            old(self).holding == old(slot).is_some(),
        ensures
            final(self).wf(),
            final(self).wraps_inner == old(self).wraps_inner,
            final(self).holding == final(slot).is_some(),
            a == Action::PollWaiter || a == Action::PollInner || ends_poll(a),
            a == Action::PollWaiter ==> final(self).stage == Stage::Waiting && final(self).armed,
            a == Action::PollInner ==> final(self).stage == Stage::Running,
            ends_poll(a) ==> final(self).stage == Stage::Idle,
            a == Action::Cancel ==> final(self).cancelled && final(slot).is_none(),
            a == Action::Complete ==> final(slot).is_none(),
            a == Action::Suspend ==> final(slot).is_some() && final(self).armed,
            old(self).cancelled ==> a == Action::Cancel,
            obs == Observation::InnerReady(true) ==> a == Action::Complete,
            obs is InnerReady || obs == Observation::Woken(false) ==> (*final(self), a) == old(
                self,
            ).step(obs),
            exists|ans: Seq<Observation>|
                {
                    &&& signal_answers(ans)
                    &&& well_answered(*old(self), seq![obs] + ans)
                    &&& *final(self) == after(*old(self), seq![obs] + ans)
                    &&& a == action_at(*old(self), seq![obs] + ans, ans.len() as int)
                },
    {
        let ghost start = *self;
        let ghost mut ans: Seq<Observation> = Seq::empty();
        let mut a = self.advance(obs);
        proof {
            lemma_extend_run(start, Seq::empty(), obs);
            assert(Seq::<Observation>::empty().push(obs) =~= seq![obs] + ans);
        }
        loop
            invariant
                start == *old(self),
                start.wf(),
                signal_answers(ans),
                well_answered(start, seq![obs] + ans),
                *self == after(start, seq![obs] + ans),
                a == action_at(start, seq![obs] + ans, ans.len() as int),
                ans.len() == 0 ==> (*self, a) == start.step(obs),
                obs is InnerReady || obs == Observation::Woken(false) ==> ans.len() == 0,
                self.wf(),
                self.wraps_inner == old(self).wraps_inner,
                a == Action::Cancel || a == Action::Complete || self.holding == slot.is_some(),
                a == Action::Cancel || a == Action::Complete ==> !self.holding,
                old(self).cancelled ==> a == Action::Cancel,
                obs == Observation::InnerReady(true) ==> a == Action::Complete,
                a == Action::CheckFast || a == Action::Recheck ==> self.stage == Stage::Checking
                    || self.stage == Stage::Rechecking,
                a == Action::Subscribe ==> self.stage == Stage::Subscribing,
                a == Action::Release ==> self.stage == Stage::Releasing,
                a == Action::PollWaiter ==> self.stage == Stage::Waiting,
                a == Action::PollInner ==> self.stage == Stage::Running,
                ends_poll(a) ==> self.stage == Stage::Idle,
                a == Action::Cancel ==> self.cancelled,
                a == Action::Suspend ==> self.holding && self.armed,
            decreases self.local_rank(),
        {
            let next = match a {
                Action::CheckFast => Observation::Stopped(stopper.is_stopped_relaxed()),
                Action::Recheck => Observation::Stopped(stopper.is_stopped()),
                Action::Subscribe => {
                    *slot = Some(stopper.listener());
                    Observation::Subscribed
                },
                Action::Release => {
                    *slot = None;
                    Observation::Released
                },
                _ => {
                    if a == Action::Cancel || a == Action::Complete {
                        *slot = None;
                    }
                    return a;
                },
            };
            proof {
                assert(a == Action::CheckFast || a == Action::Recheck || a == Action::Subscribe
                    || a == Action::Release);
                if obs is InnerReady || obs == Observation::Woken(false) {
                    assert(start.expects(obs));
                    assert(ans.len() != 0);
                }
                lemma_extend_run(start, seq![obs] + ans, next);
                assert((seq![obs] + ans).push(next) =~= seq![obs] + ans.push(next));
                ans = ans.push(next);
            }
            a = self.advance(next);
        }
    }

    /// Takes one step of the protocol on observation `obs` and returns the
    /// next action.
    pub fn advance(&mut self, obs: Observation) -> (a: Action)
        requires
            old(self).wf(),
            old(self).expects(obs),
        ensures
            (*final(self), a) == old(self).step(obs),
            final(self).wf(),
    {
        let w = *self;
        match self.stage {
            Stage::Idle => {
                if self.cancelled {
                    Action::Cancel
                } else {
                    self.stage = Stage::Checking;
                    Action::CheckFast
                }
            },
            Stage::Checking | Stage::Rechecking => {
                if obs == Observation::Stopped(true) {
                    *self = Watch {
                        stage: Stage::Idle,
                        holding: false,
                        armed: false,
                        cancelled: true,
                        ..w
                    };
                    Action::Cancel
                } else if self.stage == Stage::Rechecking {
                    self.stage = Stage::Waiting;
                    self.armed = true;
                    Action::PollWaiter
                } else if self.holding {
                    self.stage = Stage::Waiting;
                    Action::PollWaiter
                } else {
                    self.stage = Stage::Subscribing;
                    Action::Subscribe
                }
            },
            Stage::Subscribing => {
                self.stage = Stage::Rechecking;
                self.holding = true;
                self.armed = false;
                Action::Recheck
            },
            Stage::Waiting => {
                if obs == Observation::Woken(true) {
                    self.stage = Stage::Releasing;
                    Action::Release
                } else if self.wraps_inner {
                    self.stage = Stage::Running;
                    Action::PollInner
                } else {
                    self.stage = Stage::Idle;
                    Action::Suspend
                }
            },
            Stage::Releasing => {
                self.stage = Stage::Checking;
                self.holding = false;
                self.armed = false;
                Action::CheckFast
            },
            Stage::Running => {
                self.stage = Stage::Idle;
                if obs == Observation::InnerReady(true) {
                    self.holding = false;
                    self.armed = false;
                    Action::Complete
                } else {
                    Action::Suspend
                }
            },
        }
    }
}

/// The watch after the observations `obs`, fed in order from `w`.
pub open spec fn after(w: Watch, obs: Seq<Observation>) -> Watch
    decreases obs.len(),
{
    if obs.len() == 0 {
        w
    } else {
        after(w, obs.drop_last()).step(obs.last()).0
    }
}

/// The action the watch returns on the observation at position `i` of `obs`,
/// fed in order from `w`.
pub open spec fn action_at(w: Watch, obs: Seq<Observation>, i: int) -> Action {
    after(w, obs.take(i)).step(obs[i]).1
}

/// Whether each observation of `obs`, fed in order from `w`, answers what the
/// watch asked for.
pub open spec fn well_answered(w: Watch, obs: Seq<Observation>) -> bool {
    forall|i: int| 0 <= i < obs.len() ==> #[trigger] after(w, obs.take(i)).expects(obs[i])
}

/// Whether no read of the flag in `obs` found it raised.
pub open spec fn never_stopped(obs: Seq<Observation>) -> bool {
    forall|i: int| 0 <= i < obs.len() ==> obs[i] != Observation::Stopped(true)
}

/// What the world answers to `a` when the flag reads `stopped` from now on,
/// every waiter is woken exactly when it is raised, and the inner
/// computation stays pending.
pub open spec fn answer(a: Action, stopped: bool) -> Observation {
    match a {
        Action::CheckFast => Observation::Stopped(stopped),
        Action::Recheck => Observation::Stopped(stopped),
        Action::Subscribe => Observation::Subscribed,
        Action::PollWaiter => Observation::Woken(stopped),
        Action::Release => Observation::Released,
        Action::PollInner => Observation::InnerReady(false),
        _ => Observation::Polled,
    }
}

/// The watch and action reached from `w` on observation `obs`, the world then
/// answering with `answer(_, stopped)`, after at most `fuel` more steps: the
/// run rests at an action that ends the poll or hands it to the inner
/// computation.
pub open spec fn settle(w: Watch, obs: Observation, stopped: bool, fuel: nat) -> (Watch, Action)
    decreases fuel,
{
    let (next, a) = w.step(obs);
    if fuel == 0 || ends_poll(a) || a == Action::PollInner {
        (next, a)
    } else {
        settle(next, answer(a, stopped), stopped, (fuel - 1) as nat)
    }
}

/// Whether every observation of `ans` is one the signal alone gives: a read
/// of the flag, a registration or a release.
pub open spec fn signal_answers(ans: Seq<Observation>) -> bool {
    forall|i: int|
        0 <= i < ans.len() ==> #[trigger] ans[i] is Stopped || ans[i] == Observation::Subscribed
            || ans[i] == Observation::Released
}

proof fn lemma_extend_run(w: Watch, obs: Seq<Observation>, o: Observation)
    requires
        well_answered(w, obs),
        after(w, obs).expects(o),
    ensures
        well_answered(w, obs.push(o)),
        after(w, obs.push(o)) == after(w, obs).step(o).0,
        action_at(w, obs.push(o), obs.len() as int) == after(w, obs).step(o).1,
{
    let ext = obs.push(o);
    assert(ext.drop_last() =~= obs);
    assert(ext.take(obs.len() as int) =~= obs);
    assert forall|i: int| 0 <= i < ext.len() implies #[trigger] after(w, ext.take(i)).expects(
        ext[i],
    ) by {
        if i < obs.len() {
            assert(ext.take(i) =~= obs.take(i));
            assert(after(w, obs.take(i)).expects(obs[i]));
        }
    }
}

proof fn lemma_after_step(w: Watch, obs: Seq<Observation>, k: int)
    requires
        0 <= k < obs.len(),
    ensures
        after(w, obs.take(k + 1)) == after(w, obs.take(k)).step(obs[k]).0,
{
    assert(obs.take(k + 1).drop_last() =~= obs.take(k));
}

/// Every step preserves the invariant.
pub proof fn lemma_step_wf(w: Watch, obs: Observation)
    requires
        w.wf(),
        w.expects(obs),
    ensures
        w.step(obs).0.wf(),
        w.step(obs).0.wraps_inner == w.wraps_inner,
{
}

/// Along any well-answered run the invariant holds, a cancelled watch stays
/// cancelled, and a watch that no read found stopped is not cancelled.
pub proof fn lemma_run_wf(w: Watch, obs: Seq<Observation>, k: int)
    requires
        w.wf(),
        well_answered(w, obs),
        0 <= k <= obs.len(),
    ensures
        after(w, obs.take(k)).wf(),
        w.cancelled ==> after(w, obs.take(k)).cancelled,
        !w.cancelled && never_stopped(obs) ==> !after(w, obs.take(k)).cancelled,
    decreases k,
{
    if k == 0 {
        assert(obs.take(0) =~= Seq::<Observation>::empty());
    } else {
        lemma_run_wf(w, obs, k - 1);
        lemma_after_step(w, obs, k - 1);
        assert(after(w, obs.take(k - 1)).expects(obs[k - 1]));
    }
}

/// Completion precedence: on a run where no read of the flag found it raised,
/// the wrapper never resolves as cancelled, and whenever the inner
/// computation is ready the wrapper resolves with its result.
pub proof fn lemma_completion_precedence(w: Watch, obs: Seq<Observation>)
    requires
        w.wf(),
        !w.cancelled,
        well_answered(w, obs),
        never_stopped(obs),
    ensures
        forall|i: int| 0 <= i < obs.len() ==> #[trigger] action_at(w, obs, i) != Action::Cancel,
        forall|i: int|
            0 <= i < obs.len() && obs[i] == Observation::InnerReady(true) ==> #[trigger] action_at(
                w,
                obs,
                i,
            ) == Action::Complete,
{
    assert forall|i: int| 0 <= i < obs.len() implies #[trigger] action_at(w, obs, i)
        != Action::Cancel && (obs[i] == Observation::InnerReady(true) ==> action_at(w, obs, i)
        == Action::Complete) by {
        lemma_run_wf(w, obs, i);
        assert(after(w, obs.take(i)).expects(obs[i]));
    }
}

/// No missed wake-up: whatever the answers and however a `stop` interleaves
/// with them, a poll that returns pending leaves the wrapper holding an armed
/// waiter, one registered before a read that found the flag down, so the
/// broadcast of any later `stop` reaches it.
pub proof fn lemma_suspends_armed(w: Watch, obs: Seq<Observation>)
    requires
        w.wf(),
        well_answered(w, obs),
    ensures
        forall|i: int|
            0 <= i < obs.len() && #[trigger] action_at(w, obs, i) == Action::Suspend ==> {
                let next = after(w, obs.take(i + 1));
                next.stage == Stage::Idle && next.holding && next.armed
            },
{
    assert forall|i: int|
        0 <= i < obs.len() && #[trigger] action_at(w, obs, i) == Action::Suspend implies {
        let next = after(w, obs.take(i + 1));
        next.stage == Stage::Idle && next.holding && next.armed
    } by {
        lemma_run_wf(w, obs, i);
        lemma_after_step(w, obs, i);
        assert(after(w, obs.take(i)).expects(obs[i]));
    }
}

/// Once the wrapper has resolved as cancelled, every later poll resolves as
/// cancelled at once: a cancelled sequence does not resume.
pub proof fn lemma_cancel_latches(w: Watch, obs: Seq<Observation>)
    requires
        w.wf(),
        w.cancelled,
        well_answered(w, obs),
    ensures
        forall|i: int| 0 <= i < obs.len() ==> #[trigger] action_at(w, obs, i) == Action::Cancel,
{
    assert forall|i: int| 0 <= i < obs.len() implies #[trigger] action_at(w, obs, i)
        == Action::Cancel by {
        lemma_run_wf(w, obs, i);
        assert(after(w, obs.take(i)).expects(obs[i]));
    }
}

/// Once the flag is raised, every poll of the wrapper resolves as cancelled
/// within two steps, releasing any held waiter; every later poll does too.
pub proof fn lemma_cancels_once_stopped(w: Watch)
    requires
        w.wf(),
        w.stage == Stage::Idle,
    ensures
        settle(w, Observation::Polled, true, 2).1 == Action::Cancel,
        settle(w, Observation::Polled, true, 2).0.cancelled,
        !settle(w, Observation::Polled, true, 2).0.holding,
        settle(settle(w, Observation::Polled, true, 2).0, Observation::Polled, false, 0).1
            == Action::Cancel,
{
    let (w1, a1) = w.step(Observation::Polled);
    if !w.cancelled {
        assert(a1 == Action::CheckFast);
        let (w2, a2) = w1.step(Observation::Stopped(true));
        assert(a2 == Action::Cancel);
        assert(settle(w1, Observation::Stopped(true), true, 1) == (w2, a2));
    }
}

/// Pass-through: while the flag stays down and no waiter is woken, every poll
/// of a wrapper with an inner computation reaches the inner computation
/// within four steps.
pub proof fn lemma_passes_through(w: Watch)
    requires
        w.wf(),
        w.stage == Stage::Idle,
        !w.cancelled,
        w.wraps_inner,
    ensures
        settle(w, Observation::Polled, false, 4).1 == Action::PollInner,
        settle(w, Observation::Polled, false, 4).0.stage == Stage::Running,
{
    let (w1, a1) = w.step(Observation::Polled);
    let (w2, a2) = w1.step(Observation::Stopped(false));
    if w.holding {
        let (w3, a3) = w2.step(Observation::Woken(false));
        assert(a3 == Action::PollInner);
        assert(settle(w2, Observation::Woken(false), false, 2) == (w3, a3));
        assert(settle(w1, Observation::Stopped(false), false, 3) == settle(
            w2,
            Observation::Woken(false),
            false,
            2,
        ));
    } else {
        let (w3, a3) = w2.step(Observation::Subscribed);
        let (w4, a4) = w3.step(Observation::Stopped(false));
        let (w5, a5) = w4.step(Observation::Woken(false));
        assert(a5 == Action::PollInner);
        assert(settle(w4, Observation::Woken(false), false, 0) == (w5, a5));
        assert(settle(w3, Observation::Stopped(false), false, 1) == settle(
            w4,
            Observation::Woken(false),
            false,
            0,
        ));
        assert(settle(w2, Observation::Subscribed, false, 2) == settle(
            w3,
            Observation::Stopped(false),
            false,
            1,
        ));
        assert(settle(w1, Observation::Stopped(false), false, 3) == settle(
            w2,
            Observation::Subscribed,
            false,
            2,
        ));
    }
}


} // verus!
