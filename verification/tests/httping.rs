use cfst::addr::{Family, SocketAddr};
use cfst::args::{Args, DelayBound};
use cfst::httping::{announcement, new, parse_codes, prepare, prepare_parts, HttpingTest, PingTask};
use cfst::outside::UriParts;
use cfst::ping_loop::LoopAction;
use cfst::single::Single;
use std::sync::atomic::AtomicBool;
use std::sync::Arc;

fn single(x: f32) -> Single {
    Single { bits: x.to_bits() }
}

fn args(url: Option<&str>, colo: &str, codes: &str) -> Args {
    Args {
        tcp_port: 443,
        min_delay: DelayBound { millis: 0, number: single(0.0) },
        max_delay: DelayBound { millis: 500, number: single(500.0) },
        max_loss_rate: single(1.0),
        ping_times: 3,
        target_num: None,
        httping: url.map(str::to_owned),
        httping_cf_colo: colo.to_owned(),
        httping_code: codes.to_owned(),
        test_count: 1,
        min_speed: single(0.0),
        timeout_nanos: None,
    }
}

fn addr() -> SocketAddr {
    SocketAddr { family: Family::V4, ip: "1.0.0.1".to_owned(), port: 443 }
}

fn test(colo: &str, codes: &str) -> HttpingTest {
    let args = Arc::new(args(Some("https://a.b/trace"), colo, codes));
    let plan = prepare(&args, Some(("https://a.b/trace", "a.b".to_owned()))).unwrap();
    let flag = Arc::new(AtomicBool::new(false));
    let ping = new(args.clone(), plan, 10, flag, Some(7u8)).unwrap();
    ping.factory_data.clone().test(&args, addr()).unwrap()
}

fn answer(delay: f32, dc: &str) -> Option<(Single, String)> {
    Some((single(delay), dc.to_owned()))
}

#[test]
fn codes_between_commas() {
    assert!(parse_codes("").is_none());
    assert_eq!(*parse_codes("200, 301 ,x,70000,+404").unwrap(), vec![200, 301, 404]);
    assert!(parse_codes("x").unwrap().is_empty());
}

#[test]
fn a_plan_needs_a_url_with_a_scheme() {
    let uri = "https://a.b/trace?x=1";
    let host = || "a.b".to_owned();
    let wanted = args(Some(uri), " HKG,", "200");
    let plan = prepare(&wanted, Some((uri, host()))).unwrap();
    assert_eq!(plan.scheme, "https");
    assert_eq!(plan.path, "/trace");
    assert_eq!(plan.host_header, "a.b");
    assert_eq!(*plan.colo_filters, vec!["HKG"]);
    assert_eq!(**plan.allowed_codes.as_ref().unwrap(), vec![200]);
    assert!(prepare(&wanted, None).is_none());
    assert!(prepare(&wanted, Some(("/trace", host()))).is_none());
    assert!(prepare(&wanted, Some(("not a uri", host()))).is_none());
    assert!(prepare(&args(None, "", ""), Some((uri, host()))).is_none());
}

#[test]
fn a_plan_follows_from_the_parts_of_a_uri() {
    let wanted = args(Some("u"), "", "");
    let parts = |scheme: Option<&str>| {
        Some(UriParts { scheme: scheme.map(str::to_owned), path: "/p".to_owned() })
    };
    let plan = prepare_parts(&wanted, parts(Some("http")), "h".to_owned()).unwrap();
    assert_eq!((plan.scheme.as_str(), plan.path.as_str()), ("http", "/p"));
    assert!(plan.colo_filters.is_empty());
    assert!(plan.allowed_codes.is_none());
    assert!(prepare_parts(&wanted, parts(None), "h".to_owned()).is_none());
    assert!(prepare_parts(&wanted, None, "h".to_owned()).is_none());
}

#[test]
fn a_test_needs_a_client() {
    let args = Arc::new(args(Some("https://a.b/"), "", ""));
    let plan = || prepare(&args, Some(("https://a.b/", "a.b".to_owned()))).unwrap();
    let flag = Arc::new(AtomicBool::new(false));
    assert!(new::<u8>(args.clone(), plan(), 10, flag.clone(), None).is_none());
    let ping = new(args.clone(), plan(), 10, flag, Some(7u8)).unwrap();
    assert_eq!(*ping.factory_data.global_client, 7);
    assert_eq!(ping.base.total_ips, 10);
}

#[test]
fn requests_go_to_the_tested_address() {
    let test = test("", "");
    assert_eq!(test.uri(), "https://1.0.0.1:443/trace");
    assert_eq!(test.action(), LoopAction::Ping);
}

#[test]
fn an_address_without_a_uri_is_not_tested() {
    let args = args(Some("u"), "", "");
    let parts = Some(UriParts { scheme: Some("ht tp".to_owned()), path: "/".to_owned() });
    let plan = prepare_parts(&args, parts, "h".to_owned()).unwrap();
    let flag = Arc::new(AtomicBool::new(false));
    let args = Arc::new(args);
    let ping = new(args.clone(), plan, 1, flag, Some(())).unwrap();
    assert!(ping.factory_data.test(&args, addr()).is_none());
    assert_eq!(ping.factory_data.test_with(&args, addr(), "x:y".to_owned()).uri(), "x:y");
}

#[test]
fn responses_are_judged() {
    let mut headers = http::HeaderMap::new();
    let any = test("", "");
    assert_eq!(any.judge(200, &headers), None);
    headers.insert("cf-ray", http::HeaderValue::from_static("1-LAX"));
    assert_eq!(any.judge(500, &headers).as_deref(), Some("LAX"));
    let some = test("", "200,301");
    assert_eq!(some.judge(301, &headers).as_deref(), Some("LAX"));
    assert_eq!(some.judge(302, &headers), None);
    assert_eq!(test("", "x").judge(200, &headers), None);
}

#[test]
fn all_answers_count_from_a_wanted_data_center() {
    let mut test = test("LAX", "");
    test.answered(answer(1.0, "lax"));
    assert_eq!(test.action(), LoopAction::Sleep { millis: 200 });
    test.slept();
    test.answered(answer(2.0, "NRT"));
    test.slept();
    test.answered(None);
    assert_eq!(test.action(), LoopAction::Done);
    assert_eq!(*test.delays(), vec![single(1.0), single(2.0)]);
    let data = test.conclude(single(1.5)).unwrap();
    assert_eq!((data.sent, data.received, data.delay), (3, 2, single(1.5)));
    assert_eq!(data.data_center, "lax");
}

#[test]
fn an_unwanted_data_center_ends_a_test() {
    let mut test = test("HKG", "");
    test.answered(None);
    assert_eq!(test.action(), LoopAction::Ping);
    test.answered(answer(1.0, "LAX"));
    assert_eq!(test.action(), LoopAction::Done);
    assert!(test.delays().is_empty());
    assert!(test.conclude(single(1.0)).is_none());
}

#[test]
fn a_list_without_filters_wants_a_known_data_center() {
    let mut known = test(" , ", "");
    known.answered(answer(1.0, "LAX"));
    assert_eq!(known.action(), LoopAction::Sleep { millis: 200 });
    let mut unknown = test(" , ", "");
    unknown.answered(answer(1.0, ""));
    assert_eq!(unknown.action(), LoopAction::Done);
}

#[test]
fn a_task_notes_the_first_data_center() {
    let args = args(Some("https://a.b/"), "", "204");
    let plan = prepare(&args, Some(("https://a.b/", "a.b".to_owned()))).unwrap();
    let mut task = PingTask::new(Arc::new(plan), &args, "u".to_owned());
    assert!(task.allows(204));
    assert!(!task.allows(200));
    assert_eq!(task.settle(None), None);
    assert_eq!(task.settle(answer(1.0, "LAX")), Some(single(1.0)));
    assert_eq!(task.settle(answer(2.0, "NRT")), Some(single(2.0)));
}

#[test]
fn announcement_of_an_http_test() {
    assert_eq!(
        announcement(&args(None, "", ""), "1.00"),
        "开始延迟测速（模式：HTTPing, 端口：443, 范围：0 ~ 500 ms, 丢包：1.00)"
    );
}

#[test]
fn nothing_is_noted_of_an_address_that_was_given_up() {
    let args = args(Some("https://a.b/"), "HKG", "");
    let plan = prepare(&args, Some(("https://a.b/", "a.b".to_owned()))).unwrap();
    let mut task = PingTask::new(Arc::new(plan), &args, "u".to_owned());
    assert_eq!(task.settle(None), None);
    assert_eq!(task.settle(answer(1.0, "LAX")), None);
    assert_eq!(task.settle(answer(2.0, "HKG")), None);
    assert_eq!(task.settle(answer(3.0, "HKG")), None);
}
