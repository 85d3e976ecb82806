use cfst::addr::{Family, SocketAddr};
use cfst::ping_loop::{LoopAction, LoopEvent, PingLoop};
use cfst::single::Single;

fn single(x: f32) -> Single {
    Single { bits: x.to_bits() }
}

fn addr() -> SocketAddr {
    SocketAddr { family: Family::V4, ip: "1.0.0.1".to_owned(), port: 443 }
}

fn replied(delay: f32) -> LoopEvent {
    LoopEvent::Replied { delay: Some(single(delay)) }
}

const LOST: LoopEvent = LoopEvent::Replied { delay: None };

#[test]
fn a_wait_follows_each_answer() {
    let mut series = PingLoop::new(3, 200);
    assert_eq!(series.action(), LoopAction::Ping);
    series.step(replied(1.5));
    assert_eq!(series.action(), LoopAction::Sleep { millis: 200 });
    series.step(LoopEvent::Slept);
    assert_eq!(series.action(), LoopAction::Ping);
    series.step(LOST);
    assert_eq!(series.action(), LoopAction::Ping);
    series.step(replied(2.5));
    assert_eq!(series.action(), LoopAction::Sleep { millis: 200 });
    series.step(LoopEvent::Slept);
    assert_eq!(series.action(), LoopAction::Done);
    assert_eq!(*series.delays(), vec![single(1.5), single(2.5)]);
    assert_eq!(series.received(), 2);
    assert_eq!(series.outcome(single(2.0)), (Some(single(2.0)), 2));
    let data = series.conclude(addr(), single(2.0), None).unwrap();
    assert_eq!((data.sent, data.received, data.delay), (3, 2, single(2.0)));
}

#[test]
fn no_pings_are_done_at_once() {
    let series = PingLoop::new(0, 200);
    assert_eq!(series.action(), LoopAction::Done);
    assert_eq!(series.outcome(single(1.0)), (None, 0));
}

#[test]
fn no_answers_give_no_result() {
    let mut series = PingLoop::new(2, 0);
    series.step(LOST);
    series.step(LOST);
    assert_eq!(series.action(), LoopAction::Done);
    assert_eq!(series.outcome(single(0.0)), (None, 0));
    assert!(series.conclude(addr(), single(1.0), None).is_none());
}

#[test]
fn events_that_do_not_fit_change_nothing() {
    let mut series = PingLoop::new(1, 5);
    series.step(LoopEvent::Slept);
    assert_eq!(series.action(), LoopAction::Ping);
    series.step(replied(1.0));
    series.step(replied(2.0));
    assert_eq!(series.action(), LoopAction::Sleep { millis: 5 });
    assert_eq!(series.received(), 1);
    series.step(LoopEvent::Slept);
    series.step(replied(3.0));
    assert_eq!(series.action(), LoopAction::Done);
    assert_eq!(series.received(), 1);
}

#[test]
fn giving_up_ends_a_series() {
    let mut series = PingLoop::new(4, 5);
    series.step(LOST);
    series.give_up();
    assert_eq!(series.action(), LoopAction::Done);
    let mut waiting = PingLoop::new(4, 5);
    waiting.step(replied(1.0));
    waiting.give_up();
    assert_eq!(waiting.action(), LoopAction::Sleep { millis: 5 });
}

#[test]
fn giving_up_is_like_getting_no_answers() {
    let start = || {
        let mut series = PingLoop::new(4, 5);
        series.step(replied(1.0));
        series.step(LoopEvent::Slept);
        series
    };
    let mut given_up = start();
    given_up.give_up();
    let mut unanswered = start();
    while unanswered.action() == LoopAction::Ping {
        unanswered.step(LOST);
    }
    assert_eq!(given_up.action(), unanswered.action());
    assert_eq!(given_up.outcome(single(1.0)), unanswered.outcome(single(1.0)));
}
