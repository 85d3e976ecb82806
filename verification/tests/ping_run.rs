use cfst::addr::{Family, SocketAddr};
use cfst::args::{Args, DelayBound};
use cfst::common::{create_base_ping, BasePing, PingData};
use cfst::ping_run::PingRun;
use cfst::single::Single;
use std::sync::atomic::AtomicBool;
use std::sync::Arc;

fn single(x: f32) -> Single {
    Single { bits: x.to_bits() }
}

fn base(target_num: Option<usize>, total: usize) -> BasePing {
    let args = Args {
        tcp_port: 443,
        min_delay: DelayBound { millis: 10, number: single(10.0) },
        max_delay: DelayBound { millis: 500, number: single(500.0) },
        max_loss_rate: single(0.5),
        ping_times: 4,
        target_num,
        httping: None,
        httping_cf_colo: String::new(),
        httping_code: String::new(),
        test_count: 10,
        min_speed: single(0.0),
        timeout_nanos: None,
    };
    create_base_ping(Arc::new(args), total, Arc::new(AtomicBool::new(false)))
}

fn run(target_num: Option<usize>, total: usize, max_concurrent: usize) -> PingRun {
    PingRun::new(&base(target_num, total), max_concurrent)
}

fn addr(port: u16) -> SocketAddr {
    SocketAddr { family: Family::V4, ip: "1.0.0.1".to_owned(), port }
}

fn good(port: u16) -> Option<(PingData, Single)> {
    Some((PingData::new(addr(port), 4, 4, single(50.0)), single(0.0)))
}

fn fill(run: &mut PingRun, addresses: usize) -> usize {
    let mut started = 0;
    while run.wants_address() {
        let next = if started < addresses { Some(addr(started as u16)) } else { None };
        if run.popped(next).is_some() {
            started += 1;
        }
    }
    started
}

#[test]
fn tasks_are_started_up_to_the_limit() {
    let mut test = run(None, 10, 3);
    assert!(!test.wants_task());
    assert_eq!(fill(&mut test, 10), 3);
    assert!(test.wants_task());
    let update = test.joined(false, good(1)).unwrap();
    assert_eq!((update.position, update.message.as_str(), update.suffix.as_str()), (1, "1/10", "1"));
    assert!(test.wants_address());
    assert_eq!(fill(&mut test, 1), 1);
}

#[test]
fn few_addresses_start_few_tasks() {
    let mut test = run(None, 2, 5);
    assert_eq!(fill(&mut test, 2), 2);
    assert!(test.joined(false, None).is_some());
    assert_eq!(fill(&mut test, 0), 0);
    let update = test.joined(false, good(7)).unwrap();
    assert_eq!((update.position, update.message.as_str(), update.suffix.as_str()), (2, "2/2", "1"));
    assert_eq!(fill(&mut test, 0), 0);
    assert!(!test.wants_task());
    assert_eq!(test.results().len(), 1);
}

#[test]
fn no_tasks_are_allowed() {
    let test = run(None, 2, 0);
    assert!(!test.wants_address());
    assert!(!test.wants_task());
}

#[test]
fn the_target_stops_a_test_with_the_next_task() {
    let mut test = run(Some(1), 10, 2);
    fill(&mut test, 10);
    assert!(test.joined(false, good(1)).is_some());
    fill(&mut test, 1);
    assert!(test.joined(false, good(2)).is_none());
    assert!(!test.wants_address());
    assert!(!test.wants_task());
    assert_eq!(test.results().len(), 1);
}

#[test]
fn the_target_is_at_most_the_number_of_addresses() {
    let mut test = run(Some(100), 1, 2);
    fill(&mut test, 2);
    assert!(test.joined(false, good(1)).is_some());
    fill(&mut test, 0);
    assert!(test.joined(false, good(2)).is_none());
}

#[test]
fn a_target_of_zero_stops_at_once() {
    let mut test = run(Some(0), 10, 1);
    fill(&mut test, 10);
    assert!(test.joined(false, good(1)).is_none());
    assert!(test.results().is_empty());
}

#[test]
fn the_signal_stops_a_test() {
    let mut test = run(None, 10, 1);
    fill(&mut test, 10);
    assert!(test.joined(true, good(1)).is_none());
    assert!(test.results().is_empty());
}

#[test]
fn only_good_results_are_kept_and_sorted() {
    let mut test = run(None, 10, 1);
    for (port, delay, loss) in [(1u16, 50.0, 0.0), (2, 5.0, 0.0), (3, 60.0, 0.75), (4, 70.0, 0.5)] {
        fill(&mut test, 1);
        let data = PingData::new(addr(port), 4, 2, single(delay));
        assert!(test.joined(false, Some((data, single(loss)))).is_some());
    }
    let ports: Vec<u16> = test.results().iter().map(|r| r.addr.port).collect();
    assert_eq!(ports, vec![1, 4]);
    let sorted = test.finish(&[single(-1.0), single(1.0)]);
    let ports: Vec<u16> = sorted.iter().map(|r| r.addr.port).collect();
    assert_eq!(ports, vec![4, 1]);
}

#[test]
fn a_test_that_is_not_stopped_is_complete() {
    let mut test = run(None, 5, 2);
    let mut left: u16 = 5;
    let mut started = 0;
    let mut ended = 0;
    let mut dry = false;
    while test.wants_address() || test.wants_task() {
        if test.wants_address() {
            let next = if left > 0 { Some(addr(left)) } else { None };
            match test.popped(next) {
                Some(_) => {
                    left -= 1;
                    started += 1;
                }
                None => dry = true,
            }
            assert!(started - ended <= 2);
        } else {
            let update = test.joined(false, good(1)).unwrap();
            ended += 1;
            assert_eq!(update.position, ended);
        }
    }
    assert!(dry);
    assert_eq!((started, ended), (5, 5));
    assert_eq!(test.results().len(), 5);
}

#[test]
fn a_test_goes_on_from_its_counters() {
    let mut test = PingRun::resume(&base(Some(3), 10), 1, 2, 7);
    assert_eq!(fill(&mut test, 1), 1);
    let update = test.joined(false, good(1)).unwrap();
    assert_eq!((update.position, update.message.as_str(), update.suffix.as_str()), (8, "8/10", "3"));
    assert_eq!(fill(&mut test, 1), 1);
    assert!(test.joined(false, good(2)).is_none());
    assert_eq!(test.results().len(), 1);
}

#[test]
fn a_test_that_begins_at_the_limit_has_no_results() {
    let mut test = PingRun::resume(&base(Some(3), 10), 2, 3, 3);
    assert_eq!(fill(&mut test, 2), 2);
    assert!(test.joined(false, good(1)).is_none());
    assert!(test.results().is_empty());
}

#[test]
fn tests_that_share_counters_count_together() {
    let mut test = run(Some(2), 10, 1);
    assert_eq!(fill(&mut test, 1), 1);
    test.recount(1, 4);
    let update = test.joined(false, good(1)).unwrap();
    assert_eq!((update.position, update.message.as_str(), update.suffix.as_str()), (5, "5/10", "2"));
    assert_eq!(fill(&mut test, 1), 1);
    assert!(test.joined(false, good(2)).is_none());
}
