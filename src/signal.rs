//! The shared stop flag and its broadcast notifier.
use event_listener::{Event, EventListener, IntoNotification};
use std::sync::atomic::{AtomicBool, Ordering};
use std::sync::Arc;
use vstd::prelude::*;

verus! {

#[verifier::external_type_specification]
#[verifier::external_body]
#[verifier::reject_recursive_types(T)]
pub struct ExEvent<T>(Event<T>);

#[verifier::external_type_specification]
#[verifier::external_body]
#[verifier::reject_recursive_types(T)]
pub struct ExEventListener<T>(EventListener<T>);

/// Relies on `event_listener::Event::new`: an event with no listeners.
#[verifier::external_body]
fn new_event() -> (r: Event) {
    Event::new()
}

/// Relies on `event_listener::Event::listen`: registers a fresh listener on
/// the event. Whether and when it is notified depends on other threads, so
/// nothing is stated of it.
#[verifier::external_body]
fn listen(event: &Event) -> (r: EventListener) {
    event.listen()
}

/// Relies on `event_listener::Event::notify` with a relaxed notification of
/// `usize::MAX` listeners: wakes every listener registered so far. The number
/// it reports depends on other threads and is not used.
#[verifier::external_body]
fn notify_all(event: &Event) {
    event.notify(usize::MAX.relaxed());
}

/// One operation on a signal, made through any of its clones, in a model of
/// the signal as a linear history of operations on one flag.
///
/// The model describes the intended behaviour of the shared flag. `Stopper`
/// keeps its flag in std's `AtomicBool`, of whose values Verus knows nothing,
/// so no executable function is proved against the model as a whole. The one
/// link is `must_broadcast`, the decision `stop` makes from the value its
/// swap returned, which is proved equal to `broadcasts_of_stop`.
pub enum SignalOp {
    /// `stop()`.
    Stop,
    /// `is_stopped()`.
    Check,
}

/// The stop flag after a `stop()` that found it in state `stopped`.
pub open spec fn stopped_after_stop(stopped: bool) -> bool {
    true
}

/// The number of broadcasts a `stop()` makes when it finds the flag in state
/// `stopped`: one on the transition, none on a repeated call.
pub open spec fn broadcasts_of_stop(stopped: bool) -> nat {
    if stopped { 0 } else { 1 }
}

/// The flag after the operations `ops`, applied in order to a fresh signal.
pub open spec fn flag_after(ops: Seq<SignalOp>) -> bool
    decreases ops.len(),
{
    if ops.len() == 0 {
        false
    } else {
        let prev = flag_after(ops.drop_last());
        match ops.last() {
            SignalOp::Stop => stopped_after_stop(prev),
            SignalOp::Check => prev,
        }
    }
}

/// The number of broadcasts made by the operations `ops` on a fresh signal.
pub open spec fn broadcasts_after(ops: Seq<SignalOp>) -> nat
    decreases ops.len(),
{
    if ops.len() == 0 {
        0
    } else {
        let prev = broadcasts_after(ops.drop_last());
        match ops.last() {
            SignalOp::Stop => prev + broadcasts_of_stop(flag_after(ops.drop_last())),
            SignalOp::Check => prev,
        }
    }
}

/// What the `Check` at position `i` of `ops` reports: the flag as the
/// operations before it left it.
pub open spec fn observed_at(ops: Seq<SignalOp>, i: int) -> bool {
    flag_after(ops.take(i))
}

/// What a `Check` made `k` operations after the first `skip` ones of `ops`
/// reports.
pub open spec fn observed_past(ops: Seq<SignalOp>, skip: nat, k: int) -> bool {
    observed_at(ops, skip + k)
}

/// In the history model: across any history, however many `stop` calls it
/// holds, exactly one broadcast is made once the flag is raised and none
/// before.
pub proof fn lemma_single_broadcast(ops: Seq<SignalOp>)
    ensures
        broadcasts_after(ops) == (if flag_after(ops) { 1nat } else { 0nat }),
    decreases ops.len(),
{
    if ops.len() > 0 {
        lemma_single_broadcast(ops.drop_last());
    }
}

/// In the history model: once the flag has been raised it stays raised, and
/// a `Check` made after any point at which the flag was up reports `true`.
pub proof fn lemma_flag_monotone(ops: Seq<SignalOp>, i: int, j: int)
    requires
        0 <= i <= j <= ops.len(),
        flag_after(ops.take(i)),
    ensures
        flag_after(ops.take(j)),
        observed_at(ops, j),
    decreases j - i,
{
    if i < j {
        lemma_flag_monotone(ops, i, j - 1);
        assert(ops.take(j).drop_last() =~= ops.take(j - 1));
    }
}

proof fn lemma_same_flag_extends(h1: Seq<SignalOp>, h2: Seq<SignalOp>, rest: Seq<SignalOp>)
    requires
        flag_after(h1) == flag_after(h2),
    ensures
        flag_after(h1 + rest) == flag_after(h2 + rest),
        broadcasts_after(h1 + rest) - broadcasts_after(h1) == broadcasts_after(h2 + rest)
            - broadcasts_after(h2),
    decreases rest.len(),
{
    if rest.len() == 0 {
        assert(h1 + rest =~= h1);
        assert(h2 + rest =~= h2);
    } else {
        let r = rest.drop_last();
        lemma_same_flag_extends(h1, h2, r);
        assert((h1 + rest).drop_last() =~= h1 + r);
        assert((h2 + rest).drop_last() =~= h2 + r);
        assert((h1 + rest).last() == rest.last());
        assert((h2 + rest).last() == rest.last());
    }
}

/// The history `before`, two `stop` calls, then `after`.
pub open spec fn stop_twice_between(before: Seq<SignalOp>, after: Seq<SignalOp>) -> Seq<SignalOp> {
    before + seq![SignalOp::Stop, SignalOp::Stop] + after
}

/// The history `before`, one `stop` call, then `after`.
pub open spec fn stop_once_between(before: Seq<SignalOp>, after: Seq<SignalOp>) -> Seq<SignalOp> {
    before + seq![SignalOp::Stop] + after
}

/// In the history model: two `Stop` operations in a row have the effect of
/// one, after any history and whatever follows. They leave the same flag,
/// make the same number of broadcasts, and give the same answer to every
/// later `Check`.
pub proof fn lemma_stop_idempotent(before: Seq<SignalOp>, after: Seq<SignalOp>)
    ensures
        flag_after(stop_twice_between(before, after)) == flag_after(
            stop_once_between(before, after),
        ),
        broadcasts_after(stop_twice_between(before, after))
            == broadcasts_after(stop_once_between(before, after)),
        forall|k: int|
            0 <= k <= after.len() ==> #[trigger] observed_past(
                stop_twice_between(before, after),
                before.len() + 2,
                k,
            ) == observed_past(stop_once_between(before, after), before.len() + 1, k),
{
    let twice = before + seq![SignalOp::Stop, SignalOp::Stop];
    let once = before + seq![SignalOp::Stop];
    assert(twice.drop_last() =~= once);
    assert(once.drop_last() =~= before);
    lemma_same_flag_extends(twice, once, after);
    assert forall|k: int| 0 <= k <= after.len() implies #[trigger] observed_past(
        twice + after,
        before.len() + 2,
        k,
    ) == observed_past(once + after, before.len() + 1, k) by {
        lemma_same_flag_extends(twice, once, after.take(k));
        assert((twice + after).take(before.len() + 2 + k) =~= twice + after.take(k));
        assert((once + after).take(before.len() + 1 + k) =~= once + after.take(k));
    }
}

/// The decision `stop()` makes from the flag's previous value: whether it has
/// to broadcast. Only the call that moves the flag from `false` to `true`
/// does. This is the step of the history model that `stop` performs.
pub fn must_broadcast(was_stopped: bool) -> (r: bool)
    ensures
        r == (broadcasts_of_stop(was_stopped) == 1),
        r == !was_stopped,
{
    !was_stopped
}

struct Shared {
    stopped: AtomicBool,
    event: Event,
}

/// A handle on a shared stop flag. All clones of a `Stopper` are views of the
/// same flag and the same notifier.
#[derive(Clone)]
pub struct Stopper {
    shared: Arc<Shared>,
}

impl Stopper {
    /// A signal that is not stopped and has no registered listeners.
    pub fn new() -> (r: Stopper) {
        Stopper {
            shared: Arc::new(Shared { stopped: AtomicBool::new(false), event: new_event() }),
        }
    }

    /// Raises the flag. Only the call that raises it broadcasts to the
    /// listeners; a repeated call changes nothing.
    pub fn stop(&self) {
        let was_stopped = self.shared.stopped.swap(true, Ordering::SeqCst);
        if must_broadcast(was_stopped) {
            notify_all(&self.shared.event);
        }
    }

    /// Whether this signal, through any clone, has been stopped. This read is
    /// sequentially consistent with `stop`.
    pub fn is_stopped(&self) -> (r: bool) {
        self.shared.stopped.load(Ordering::SeqCst)
    }

    /// The fast-path read of the flag, with relaxed ordering. A `false` from
    /// it is only trusted after a listener has been registered and
    /// `is_stopped` has been read again.
    pub fn is_stopped_relaxed(&self) -> (r: bool) {
        self.shared.stopped.load(Ordering::Relaxed)
    }

    /// Registers a fresh listener that a later `stop` will wake.
    pub fn listener(&self) -> (r: EventListener) {
        listen(&self.shared.event)
    }
}

impl Default for Stopper {
    fn default() -> (r: Stopper) {
        Stopper::new()
    }
}

} // verus!
