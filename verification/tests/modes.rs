use cfst::addr::{Family, SocketAddr};
use cfst::args::{Args, DelayBound};
use cfst::common::Ping;
use cfst::ping_loop::{LoopAction, LoopEvent};
use cfst::single::Single;
use cfst::{icmp, tcping};
use std::sync::atomic::AtomicBool;
use std::sync::Arc;

fn args() -> Arc<Args> {
    let zero = Single::zero();
    Arc::new(Args {
        tcp_port: 80,
        min_delay: DelayBound { millis: 0, number: zero },
        max_delay: DelayBound { millis: 9, number: zero },
        max_loss_rate: zero,
        ping_times: 2,
        target_num: None,
        httping: None,
        httping_cf_colo: String::new(),
        httping_code: String::new(),
        test_count: 1,
        min_speed: zero,
        timeout_nanos: None,
    })
}

fn flag() -> Arc<AtomicBool> {
    Arc::new(AtomicBool::new(false))
}

#[test]
fn tcp_tests_use_the_interface() {
    let ping = tcping::new(args(), Arc::new("eth0"), 12, flag());
    assert_eq!(*ping.factory_data.interface_config, "eth0");
    assert_eq!(ping.base.total_ips, 12);
    let mut series = ping.factory_data.clone().series(&args());
    series.step(LoopEvent::Replied { delay: Some(Single::zero()) });
    assert_eq!(series.action(), LoopAction::Sleep { millis: 200 });
    assert_eq!(
        tcping::announcement(&args(), "0.00"),
        "开始延迟测速（模式：Tcping, 端口：80, 范围：0 ~ 9 ms, 丢包：0.00)"
    );
}

#[test]
fn icmp_tests_need_both_clients() {
    assert!(icmp::new(args(), 1, flag(), Some(4), None).is_none());
    assert!(icmp::new(args(), 1, flag(), None, Some(6)).is_none());
    let ping = icmp::new(args(), 1, flag(), Some(4), Some(6)).unwrap();
    assert_eq!(ping.base.bar.total, 1);
    let data = ping.factory_data.clone();
    let v4 = SocketAddr { family: Family::V4, ip: "1.1.1.1".to_owned(), port: 0 };
    let v6 = SocketAddr { family: Family::V6 { scope_id: 0 }, ip: "::1".to_owned(), port: 0 };
    assert_eq!(*data.client_for(&v4), 4);
    assert_eq!(*data.client_for(&v6), 6);
    let mut series = data.series(&args());
    series.step(LoopEvent::Replied { delay: Some(Single::zero()) });
    assert_eq!(series.action(), LoopAction::Sleep { millis: 0 });
    assert_eq!(
        icmp::announcement(&args(), "0.00"),
        "开始延迟测速（模式：ICMP-Ping, 端口：80, 范围：0 ~ 9 ms, 丢包：0.00)"
    );
}

#[test]
fn a_ping_holds_its_parts() {
    let ping = tcping::new(args(), Arc::new(()), 3, flag());
    let again = Ping::new(ping.base, 5);
    assert_eq!(again.factory_data, 5);
    assert_eq!(again.base.total_ips, 3);
}

#[test]
fn tcp_and_icmp_results_name_the_address_and_no_data_center() {
    let addr = || SocketAddr { family: Family::V4, ip: "1.1.1.1".to_owned(), port: 8 };
    let average = Single { bits: 2.5f32.to_bits() };
    let tcp = tcping::new(args(), Arc::new(()), 1, flag()).factory_data;
    let icmp = icmp::new(args(), 1, flag(), Some(4), Some(6)).unwrap().factory_data;
    let mut series = tcp.series(&args());
    assert!(tcp.conclude(&series, addr(), average).is_none());
    assert!(icmp.conclude(&series, addr(), average).is_none());
    series.step(LoopEvent::Replied { delay: Some(average) });
    for result in [tcp.conclude(&series, addr(), average), icmp.conclude(&series, addr(), average)] {
        let data = result.unwrap();
        assert_eq!((data.addr.ip.as_str(), data.addr.port), ("1.1.1.1", 8));
        assert_eq!((data.sent, data.received), (2, 1));
        assert_eq!(data.delay, average);
        assert_eq!(data.data_center, "");
        assert_eq!(data.download_speed, None);
    }
}
