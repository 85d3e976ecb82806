use cfst::addr::{Family, SocketAddr};
use cfst::args::{Args, DelayBound};
use cfst::common::PingData;
use cfst::download::{DownloadReply, DownloadTest};
use cfst::single::Single;
use std::sync::Arc;

fn single(x: f32) -> Single {
    Single { bits: x.to_bits() }
}

fn test(count: usize, colo: &str, ports: &[u16]) -> DownloadTest {
    let args = Args {
        tcp_port: 443,
        min_delay: DelayBound { millis: 0, number: single(0.0) },
        max_delay: DelayBound { millis: 500, number: single(500.0) },
        max_loss_rate: single(1.0),
        ping_times: 4,
        target_num: None,
        httping: None,
        httping_cf_colo: colo.to_owned(),
        httping_code: String::new(),
        test_count: count,
        min_speed: single(1024.0),
        timeout_nanos: Some(10_000_000_000),
    };
    let results = ports
        .iter()
        .map(|port| {
            let ip = "1.0.0.1".to_owned();
            PingData::new(SocketAddr { family: Family::V4, ip, port: *port }, 4, 4, single(9.0))
        })
        .collect();
    DownloadTest::new(Arc::new(args), results)
}

fn reply(speed: Option<f32>, colo: Option<&str>) -> DownloadReply {
    DownloadReply { speed: speed.map(single), colo: colo.map(str::to_owned) }
}

#[test]
fn results_are_tested_in_the_order_of_the_queue() {
    let mut test = test(5, "", &[1, 2, 3]);
    for (port, speed, message) in [(1, 2000.0, "1|1"), (2, 1023.0, "1|2"), (3, 1024.0, "2|3")] {
        let job = test.next(false).unwrap();
        assert_eq!(job.addr.port, port);
        assert!(job.need_colo);
        assert!(test.wants_reply());
        let update = test.replied(reply(Some(speed), Some("LAX")));
        assert_eq!(update.message, message);
        assert_eq!(update.position, port as usize);
        assert_eq!(update.suffix, "");
    }
    assert!(!test.is_over());
    assert!(test.next(false).is_none());
    assert!(test.is_over());
    assert_eq!(test.result_warning(), Some("下载测速符合要求的 IP 数量不足！"));
    let kept: Vec<u16> = test.qualified().iter().map(|r| r.addr.port).collect();
    assert_eq!(kept, vec![1, 3]);
    let sorted = test.finish(&[single(0.0), single(1.0)]);
    assert_eq!(sorted[0].addr.port, 3);
    assert_eq!(sorted[0].download_speed, Some(single(1024.0)));
    assert_eq!(sorted[1].data_center, "LAX");
}

#[test]
fn enough_results_end_a_test() {
    let mut test = test(1, "", &[1, 2]);
    test.next(false).unwrap();
    test.replied(reply(Some(5000.0), None));
    assert!(test.next(false).is_none());
    assert_eq!(test.qualified().len(), 1);
    assert!(test.result_warning().is_none());
}

#[test]
fn the_signal_ends_a_test() {
    let mut test = test(1, "", &[1, 2]);
    assert!(test.next(true).is_none());
    assert!(test.is_over());
    assert!(!test.wants_reply());
}

#[test]
fn a_data_center_has_to_be_wanted() {
    let mut test = test(5, "hkg, LAX", &[1, 2, 3]);
    assert_eq!(*test.colo_filters(), vec!["hkg", "LAX"]);
    test.next(false).unwrap();
    test.replied(reply(Some(5000.0), Some("NRT")));
    test.next(false).unwrap();
    test.replied(reply(Some(5000.0), None));
    test.next(false).unwrap();
    test.replied(reply(Some(5000.0), Some("lax")));
    let kept: Vec<u16> = test.qualified().iter().map(|r| r.addr.port).collect();
    assert_eq!(kept, vec![3]);
}

#[test]
fn a_known_data_center_stays() {
    let args = Args {
        tcp_port: 443,
        min_delay: DelayBound { millis: 0, number: single(0.0) },
        max_delay: DelayBound { millis: 500, number: single(500.0) },
        max_loss_rate: single(1.0),
        ping_times: 4,
        target_num: None,
        httping: None,
        httping_cf_colo: String::new(),
        httping_code: String::new(),
        test_count: 1,
        min_speed: single(0.0),
        timeout_nanos: None,
    };
    let addr = SocketAddr { family: Family::V4, ip: "1.0.0.1".to_owned(), port: 1 };
    let mut data = PingData::new(addr, 4, 4, single(9.0));
    data.data_center = "HKG".to_owned();
    let mut test = DownloadTest::new(Arc::new(args), vec![data]);
    assert!(!test.next(false).unwrap().need_colo);
    test.replied(reply(Some(0.0), Some("LAX")));
    assert_eq!(test.qualified()[0].data_center, "HKG");
}

#[test]
fn no_speed_does_not_qualify() {
    let mut test = test(1, "", &[1]);
    test.next(false).unwrap();
    test.replied(reply(None, Some("LAX")));
    assert!(test.qualified().is_empty());
}

#[test]
fn announcement_of_a_download_test() {
    let test = test(5, "", &[1, 2]);
    assert_eq!(test.announcement("1.00"), "开始下载测速（下限：1.00 MB/s, 所需：5, 队列：2）");
    assert_eq!(test.queue_warning(), Some("队列的 IP 数量不足，可能需要降低延迟测速筛选条件！"));
    let bar = test.bar();
    assert_eq!((bar.total, bar.prefix.as_str(), bar.suffix.as_str()), (2, "", "MB/s"));
}

#[test]
fn a_long_queue_needs_no_warning() {
    let test = test(2, "", &[1, 2, 3]);
    assert!(test.queue_warning().is_none());
    assert_eq!(test.bar().total, 2);
}

#[test]
fn a_test_that_is_over_stays_over() {
    let mut test = test(1, "", &[1, 2, 3]);
    assert!(test.next(true).is_none());
    assert!(test.next(false).is_none());
    assert!(test.is_over());
    assert!(test.qualified().is_empty());
}

#[test]
fn a_second_test_finds_nothing() {
    let mut test = test(1, "", &[1, 2, 3]);
    test.next(false).unwrap();
    test.replied(reply(Some(5000.0), None));
    assert!(test.next(false).is_none());
    let found = test.finish(&[single(1.0)]);
    assert_eq!(found.len(), 1);
    assert_eq!(found[0].addr.port, 1);
    assert!(!test.is_over());
    assert!(test.next(false).is_none());
    assert!(test.is_over());
    assert!(test.result_warning().is_some());
    assert!(test.finish(&[]).is_empty());
}

#[test]
fn a_stopped_test_gives_up_its_queue() {
    let mut test = test(2, "", &[1, 2, 3]);
    assert!(test.next(true).is_none());
    assert!(test.finish(&[]).is_empty());
    assert!(test.next(false).is_none());
    assert!(test.qualified().is_empty());
}
