use cfst::addr::{Family, SocketAddr};
use cfst::args::{Args, DelayBound};
use cfst::common::{
    build_ping_data_result, check_timeout_signal, create_base_ping, data_center_of,
    extract_data_center, is_colo_matched, parse_colo_filters, print_speed_test_info, request_uri,
    should_keep_result, update_progress_bar, BasePing, LossRate, PingData,
};
use cfst::progress::Bar;
use cfst::single::Single;
use std::sync::atomic::{AtomicBool, AtomicUsize, Ordering};
use std::sync::Arc;

fn single(x: f32) -> Single {
    Single { bits: x.to_bits() }
}

fn args() -> Args {
    Args {
        tcp_port: 443,
        min_delay: DelayBound { millis: 10, number: single(10.0) },
        max_delay: DelayBound { millis: 500, number: single(500.0) },
        max_loss_rate: single(0.5),
        ping_times: 4,
        target_num: None,
        httping: None,
        httping_cf_colo: String::new(),
        httping_code: String::new(),
        test_count: 10,
        min_speed: single(0.0),
        timeout_nanos: None,
    }
}

fn addr() -> SocketAddr {
    SocketAddr { family: Family::V4, ip: "1.0.0.1".to_owned(), port: 443 }
}

#[test]
fn filters_are_trimmed_and_not_empty() {
    assert_eq!(parse_colo_filters("HKG, lax ,,\tNRT"), vec!["HKG", "lax", "NRT"]);
    assert!(parse_colo_filters("").is_empty());
    assert!(parse_colo_filters(" , ,").is_empty());
}

#[test]
fn filters_are_read_back_from_a_list() {
    let filters = parse_colo_filters(" HKG ,lax, Los Angeles");
    assert_eq!(filters, vec!["HKG", "lax", "Los Angeles"]);
    assert_eq!(parse_colo_filters(&filters.join(",")), filters);
}

#[test]
fn data_centers_match_in_any_case() {
    let filters = parse_colo_filters("HKG,lax");
    assert!(is_colo_matched("hkg", &filters));
    assert!(is_colo_matched("LAX", &filters));
    assert!(!is_colo_matched("NRT", &filters));
    assert!(!is_colo_matched("HK", &filters));
    assert!(!is_colo_matched("", &filters));
    assert!(is_colo_matched("NRT", &[]));
    assert!(!is_colo_matched("", &[]));
}

#[test]
fn data_center_follows_the_last_hyphen() {
    let mut headers = http::HeaderMap::new();
    assert_eq!(extract_data_center(&headers), None);
    headers.insert("server", http::HeaderValue::from_static("a-b"));
    assert_eq!(extract_data_center(&headers), None);
    headers.insert("CF-RAY".parse::<http::HeaderName>().unwrap(), http::HeaderValue::from_static("8a-b2-LAX"));
    assert_eq!(extract_data_center(&headers).as_deref(), Some("LAX"));
    headers.append("cf-ray", http::HeaderValue::from_static("8a-NRT"));
    assert_eq!(extract_data_center(&headers).as_deref(), Some("LAX"));
    headers.insert("cf-ray", http::HeaderValue::from_static("plain"));
    assert_eq!(extract_data_center(&headers).as_deref(), Some("plain"));
    headers.insert("cf-ray", http::HeaderValue::from_static("ends-"));
    assert_eq!(extract_data_center(&headers).as_deref(), Some(""));
    headers.insert("cf-ray", http::HeaderValue::from_bytes(b"8a-\xe6").unwrap());
    assert_eq!(extract_data_center(&headers), None);
}

#[test]
fn data_center_needs_text() {
    assert_eq!(data_center_of(b"8a-LAX").as_deref(), Some("LAX"));
    assert_eq!(data_center_of(b"").as_deref(), Some(""));
    assert_eq!(data_center_of(b"8a-\tx ~").as_deref(), Some("\tx ~"));
    for b in 0..=255u8 {
        let expected = (32..127).contains(&b) || b == 9;
        assert_eq!(data_center_of(&[b]).is_some(), expected, "{}", b);
    }
}

#[test]
fn results_need_a_delay_above_zero() {
    for delay in [0.0, -0.0, -1.0, f32::NAN] {
        assert!(build_ping_data_result(addr(), 4, 2, single(delay), None).is_none());
    }
    let data = build_ping_data_result(addr(), 4, 2, single(0.01), None).unwrap();
    assert_eq!((data.sent, data.received, data.delay), (4, 2, single(0.01)));
    assert_eq!(data.data_center, "");
    assert!(data.download_speed.is_none());
    let data = build_ping_data_result(addr(), 4, 2, single(1.0), Some("LAX".to_owned())).unwrap();
    assert_eq!(data.data_center, "LAX");
    assert_eq!(data.addr.to_text(), "1.0.0.1:443");
}

#[test]
fn loss_rates() {
    let lost = PingData::new(addr(), 4, 1, single(1.0)).loss_rate();
    assert_eq!(lost, LossRate::OneMinus { received: 1, sent: 4 });
    assert_eq!(PingData::new(addr(), 0, 0, single(1.0)).loss_rate(), LossRate::Zero);
}

#[test]
fn results_are_kept_within_the_bounds() {
    let args = args();
    let keep = |delay: f32, loss: f32| {
        should_keep_result(&PingData::new(addr(), 4, 2, single(delay)), single(loss), &args)
    };
    assert!(keep(10.0, 0.5));
    assert!(keep(500.0, 0.0));
    assert!(!keep(9.99, 0.0));
    assert!(!keep(500.01, 0.0));
    assert!(!keep(100.0, 0.75));
    assert!(!keep(f32::NAN, 0.0));
    assert!(!keep(100.0, f32::NAN));
}

#[test]
fn a_tenth_lost_is_more_than_a_tenth() {
    let mut args = args();
    args.max_loss_rate = single(0.1);
    let loss = 1.0 - (9u16 as f32 / 10u16 as f32);
    let data = PingData::new(addr(), 10, 9, single(100.0));
    assert_eq!(should_keep_result(&data, single(loss), &args), loss <= 0.1);
}

#[test]
fn announcement_of_a_latency_test() {
    assert_eq!(
        print_speed_test_info("Tcping", &args(), "0.50"),
        "开始延迟测速（模式：Tcping, 端口：443, 范围：10 ~ 500 ms, 丢包：0.50)"
    );
}

#[test]
fn a_base_is_made_for_its_addresses() {
    let flag = Arc::new(AtomicBool::new(false));
    let base = create_base_ping(Arc::new(args()), 256, flag.clone());
    assert_eq!(base.total_ips, 256);
    assert_eq!(base.bar.total, 256);
    assert_eq!(base.bar.prefix, "可用:");
    assert_eq!(base.bar.suffix, "");
    assert!(Arc::ptr_eq(&base.timeout_flag, &flag));
    let copy = base.clone();
    assert!(Arc::ptr_eq(&copy.args, &base.args));
    assert!(Arc::ptr_eq(&copy.timeout_flag, &flag));
    assert_eq!(copy.total_ips, 256);
    assert_eq!(base.success_count.load(Ordering::Relaxed), 0);
    assert_eq!(base.tested_count.load(Ordering::Relaxed), 0);
    base.success_count.fetch_add(2, Ordering::Relaxed);
    base.tested_count.fetch_add(5, Ordering::Relaxed);
    assert_eq!(copy.success_count.load(Ordering::Relaxed), 2);
    assert_eq!(copy.tested_count.load(Ordering::Relaxed), 5);
}

#[test]
fn parts_of_a_base_are_kept() {
    let bar = Arc::new(Bar { total: 3, prefix: "p".to_owned(), suffix: "s".to_owned() });
    let flag = Arc::new(AtomicBool::new(true));
    let success = Arc::new(AtomicUsize::new(1));
    let tested = Arc::new(AtomicUsize::new(2));
    let base = BasePing::new(3, bar, Arc::new(args()), success, flag, tested);
    assert_eq!(base.success_count.load(Ordering::Relaxed), 1);
    assert_eq!(base.tested_count.load(Ordering::Relaxed), 2);
    assert_eq!(base.total_ips, 3);
    assert_eq!(base.bar.prefix, "p");
    assert!(check_timeout_signal(&base.timeout_flag));
}

#[test]
fn signal_to_stop_is_read() {
    let flag = AtomicBool::new(false);
    assert!(!check_timeout_signal(&flag));
    flag.store(true, Ordering::SeqCst);
    assert!(check_timeout_signal(&flag));
}

#[test]
fn latency_bar_shows_tested_and_good_addresses() {
    let update = update_progress_bar(12, 3, 256);
    assert_eq!(update.position, 12);
    assert_eq!(update.message, "12/256");
    assert_eq!(update.suffix, "3");
}

#[test]
fn requests_go_to_the_address() {
    assert_eq!(request_uri("https", &addr(), "/a?b"), "https://1.0.0.1:443/a?b");
}

#[test]
fn copies_of_results_are_equal() {
    let mut data = PingData::new(addr(), 4, 2, single(3.5));
    data.download_speed = Some(single(7.0));
    data.data_center = "LAX".to_owned();
    let copy = data.clone();
    assert_eq!((copy.sent, copy.received, copy.delay), (4, 2, single(3.5)));
    assert_eq!(copy.download_speed, Some(single(7.0)));
    assert_eq!(copy.data_center, "LAX");
    assert_eq!(copy.addr.to_text(), "1.0.0.1:443");
}
