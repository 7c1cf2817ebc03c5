use event_listener::EventListener;
use futures_lite::future::{block_on, poll_once};
use stopper::protocol::Stage;
use stopper::signal::must_broadcast;
use stopper::{Action, Observation, Stopped, Stopper, Watch};

/// Whether the waiter has been notified, polled once without blocking.
fn woken(listener: &mut EventListener) -> bool {
    block_on(poll_once(listener)).is_some()
}

/// Performs one action of the watch against the real signal and returns the
/// observation it yields. `inner_ready` is what a poll of the inner
/// computation reports.
fn perform(
    action: Action,
    stopper: &Stopper,
    slot: &mut Option<EventListener>,
    inner_ready: bool,
) -> Observation {
    match action {
        Action::CheckFast => Observation::Stopped(stopper.is_stopped_relaxed()),
        Action::Subscribe => {
            *slot = Some(stopper.listener());
            Observation::Subscribed
        }
        Action::Recheck => Observation::Stopped(stopper.is_stopped()),
        Action::PollWaiter => Observation::Woken(woken(slot.as_mut().expect("a held waiter"))),
        Action::Release => {
            *slot = None;
            Observation::Released
        }
        Action::PollInner => Observation::InnerReady(inner_ready),
        Action::Cancel | Action::Complete | Action::Suspend => {
            panic!("the poll has already ended")
        }
    }
}

/// Runs one whole poll and returns the action that ended it.
fn poll(
    watch: &mut Watch,
    stopper: &Stopper,
    slot: &mut Option<EventListener>,
    inner_ready: bool,
) -> Action {
    let mut action = watch.run_local(stopper, slot, Observation::Polled);
    loop {
        let obs = match action {
            Action::PollWaiter => {
                Observation::Woken(woken(slot.as_mut().expect("a held waiter")))
            }
            Action::PollInner => Observation::InnerReady(inner_ready),
            _ => return action,
        };
        assert!(watch.accepts(obs));
        action = watch.run_local(stopper, slot, obs);
    }
}

#[test]
fn future_stopper() {
    let stopper = Stopper::new();
    let mut watch = Watch::for_inner();
    let mut slot = None;
    assert_eq!(poll(&mut watch, &stopper, &mut slot, false), Action::Suspend);
    assert!(slot.is_some());
    stopper.stop();
    assert_eq!(poll(&mut watch, &stopper, &mut slot, false), Action::Cancel);
    assert!(slot.is_none());
}

#[test]
fn stream_stopper() {
    let stopper = Stopper::new();
    let mut watch = Watch::for_inner();
    let mut slot = None;
    let mut produced: Vec<&str> = Vec::new();
    for _ in 0..5 {
        assert_eq!(poll(&mut watch, &stopper, &mut slot, true), Action::Complete);
        produced.push("infinite stream");
    }
    stopper.stop();
    assert_eq!(poll(&mut watch, &stopper, &mut slot, true), Action::Cancel);
    assert_eq!(produced, vec!["infinite stream"; 5]);
    assert_eq!(poll(&mut watch, &stopper, &mut slot, true), Action::Cancel);
}

#[test]
fn stopped() {
    let stopper = Stopper::new();
    let mut awaiter = Stopped::from(stopper.clone());
    let mut slot = None;
    assert!(!stopper.is_stopped());
    assert_eq!(
        poll(&mut awaiter.watch, &awaiter.stopper, &mut slot, false),
        Action::Suspend
    );
    let mut other = Stopped::from(stopper.clone());
    let mut other_slot = None;
    assert_eq!(
        poll(&mut other.watch, &other.stopper, &mut other_slot, false),
        Action::Suspend
    );

    stopper.clone().stop();

    assert_eq!(
        poll(&mut awaiter.watch, &awaiter.stopper, &mut slot, false),
        Action::Cancel
    );
    assert!(stopper.is_stopped());
    let mut late = Stopped::from(stopper.clone());
    let mut late_slot = None;
    assert_eq!(
        poll(&mut late.watch, &late.stopper, &mut late_slot, false),
        Action::Cancel
    );
    assert!(Stopper::from(late).is_stopped());
}

#[test]
fn completes_when_inner_is_ready_first() {
    let stopper = Stopper::new();
    let mut watch = Watch::for_inner();
    let mut slot = None;
    assert_eq!(poll(&mut watch, &stopper, &mut slot, true), Action::Complete);
    assert!(slot.is_none());
    assert!(!watch.cancelled);
}

#[test]
fn stopped_before_first_poll_cancels_at_once() {
    let stopper = Stopper::new();
    stopper.stop();
    let mut watch = Watch::for_inner();
    assert_eq!(watch.advance(Observation::Polled), Action::CheckFast);
    assert_eq!(watch.advance(Observation::Stopped(true)), Action::Cancel);
    assert!(watch.cancelled);
    assert!(!watch.holding);
}

#[test]
fn stop_twice_is_stop_once() {
    let stopper = Stopper::new();
    let mut first = stopper.listener();
    stopper.stop();
    assert!(stopper.is_stopped());
    assert!(woken(&mut first));
    let mut second = stopper.listener();
    stopper.stop();
    assert!(stopper.is_stopped());
    assert!(!woken(&mut second));
}

#[test]
fn only_the_first_stop_broadcasts() {
    assert!(must_broadcast(false));
    assert!(!must_broadcast(true));
}

#[test]
fn stop_is_seen_by_every_clone_and_stays() {
    let stopper = Stopper::default();
    let clones: Vec<Stopper> = (0..4).map(|_| stopper.clone()).collect();
    assert!(clones.iter().all(|c| !c.is_stopped()));
    clones[2].stop();
    for _ in 0..3 {
        assert!(clones.iter().all(|c| c.is_stopped() && c.is_stopped_relaxed()));
        assert!(stopper.is_stopped());
    }
}

#[test]
fn stop_between_check_and_subscribe_is_caught_by_recheck() {
    let stopper = Stopper::new();
    let mut watch = Watch::for_inner();
    let mut slot = None;
    let a = watch.advance(Observation::Polled);
    let obs = perform(a, &stopper, &mut slot, false);
    assert_eq!(obs, Observation::Stopped(false));
    assert_eq!(watch.advance(obs), Action::Subscribe);
    stopper.stop();
    let obs = perform(Action::Subscribe, &stopper, &mut slot, false);
    assert_eq!(watch.advance(obs), Action::Recheck);
    let obs = perform(Action::Recheck, &stopper, &mut slot, false);
    assert_eq!(obs, Observation::Stopped(true));
    assert_eq!(watch.advance(obs), Action::Cancel);
}

#[test]
fn stop_after_recheck_wakes_the_held_waiter() {
    let stopper = Stopper::new();
    let mut watch = Watch::for_inner();
    let mut slot = None;
    let mut action = watch.advance(Observation::Polled);
    while action != Action::PollWaiter {
        let obs = perform(action, &stopper, &mut slot, false);
        action = watch.advance(obs);
    }
    stopper.stop();
    let obs = perform(action, &stopper, &mut slot, false);
    assert_eq!(obs, Observation::Woken(true));
    assert_eq!(watch.advance(obs), Action::Release);
    let obs = perform(Action::Release, &stopper, &mut slot, false);
    assert_eq!(watch.advance(obs), Action::CheckFast);
    assert_eq!(watch.advance(Observation::Stopped(true)), Action::Cancel);
}

#[test]
fn suspends_only_with_an_armed_waiter() {
    let stopper = Stopper::new();
    let mut watch = Watch::for_inner();
    let mut slot = None;
    for _ in 0..3 {
        assert_eq!(poll(&mut watch, &stopper, &mut slot, false), Action::Suspend);
        assert_eq!(watch.stage, Stage::Idle);
        assert!(watch.holding && watch.armed);
        assert!(slot.is_some());
    }
}

#[test]
fn pass_through_reaches_the_inner_each_poll() {
    let stopper = Stopper::new();
    let mut watch = Watch::for_inner();
    let mut slot = None;
    let mut items: Vec<u32> = Vec::new();
    let mut next: u32 = 0;
    for _ in 0..10 {
        let mut action = watch.advance(Observation::Polled);
        while action != Action::PollInner {
            let obs = perform(action, &stopper, &mut slot, true);
            action = watch.advance(obs);
        }
        assert_eq!(watch.advance(Observation::InnerReady(true)), Action::Complete);
        items.push(next);
        next += 1;
    }
    assert_eq!(items, (0..10).collect::<Vec<u32>>());
}

#[test]
fn awaiter_never_polls_an_inner() {
    let stopper = Stopper::new();
    let mut watch = Watch::for_signal();
    let mut slot = None;
    let mut action = watch.advance(Observation::Polled);
    while action != Action::Suspend {
        assert_ne!(action, Action::PollInner);
        let obs = perform(action, &stopper, &mut slot, false);
        action = watch.advance(obs);
    }
}

#[test]
fn accepts_only_the_awaited_answer() {
    let mut watch = Watch::for_inner();
    assert!(watch.accepts(Observation::Polled));
    assert!(!watch.accepts(Observation::Stopped(false)));
    watch.advance(Observation::Polled);
    assert!(watch.accepts(Observation::Stopped(true)));
    assert!(!watch.accepts(Observation::Subscribed));
    assert!(!watch.accepts(Observation::Polled));
}

#[test]
fn run_local_stops_at_the_waiter_poll() {
    let stopper = Stopper::new();
    let mut watch = Watch::for_inner();
    let mut slot = None;
    assert_eq!(
        watch.run_local(&stopper, &mut slot, Observation::Polled),
        Action::PollWaiter
    );
    assert_eq!(watch.stage, Stage::Waiting);
    assert!(watch.holding && watch.armed && slot.is_some());
    assert_eq!(
        watch.run_local(&stopper, &mut slot, Observation::Woken(false)),
        Action::PollInner
    );
    assert_eq!(
        watch.run_local(&stopper, &mut slot, Observation::InnerReady(true)),
        Action::Complete
    );
    assert!(slot.is_none() && !watch.holding);
}

#[test]
fn run_local_releases_and_cancels_after_a_wake() {
    let stopper = Stopper::new();
    let mut watch = Watch::for_inner();
    let mut slot = None;
    assert_eq!(
        watch.run_local(&stopper, &mut slot, Observation::Polled),
        Action::PollWaiter
    );
    stopper.stop();
    let obs = Observation::Woken(woken(slot.as_mut().expect("a held waiter")));
    assert_eq!(obs, Observation::Woken(true));
    assert_eq!(watch.run_local(&stopper, &mut slot, obs), Action::Cancel);
    assert!(slot.is_none() && watch.cancelled);
    assert_eq!(
        watch.run_local(&stopper, &mut slot, Observation::Polled),
        Action::Cancel
    );
}
