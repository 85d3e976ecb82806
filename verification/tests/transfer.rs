use cfst::addr::{Family, SocketAddr};
use cfst::outside::UriParts;
use cfst::speed::{DisplayUpdate, SpeedRatio};
use cfst::transfer::{download_target, download_target_of, download_uri, uri_or, Frame, Readings, Stage, Transfer};
use std::sync::Arc;

const SECOND: u128 = 1_000_000_000;

fn at(now: u128) -> Readings {
    Readings { sample: now, check: now, window: now, update: now, count: now }
}

fn filters(list: &[&str]) -> Arc<Vec<String>> {
    Arc::new(list.iter().map(|f| f.to_string()).collect())
}

fn headers(ray: &'static str) -> http::HeaderMap {
    let mut headers = http::HeaderMap::new();
    headers.insert("cf-ray", http::HeaderValue::from_static(ray));
    headers
}

#[test]
fn no_response_is_no_speed() {
    let mut transfer = Transfer::new(10 * SECOND, true, filters(&[]));
    assert_eq!(transfer.stage(), Stage::Requesting);
    assert_eq!(transfer.first_shown(), DisplayUpdate::Show { speed: None });
    transfer.responded(None);
    assert_eq!(transfer.stage(), Stage::Over);
    assert_eq!(transfer.outcome(), (None, None));
}

#[test]
fn a_needed_data_center_has_to_be_named() {
    let mut transfer = Transfer::new(10 * SECOND, true, filters(&[]));
    transfer.responded(Some(&http::HeaderMap::new()));
    assert_eq!(transfer.outcome(), (None, None));
}

#[test]
fn an_unwanted_data_center_is_told_without_a_speed() {
    let mut transfer = Transfer::new(10 * SECOND, true, filters(&["HKG"]));
    transfer.responded_at(Some(&headers("1-LAX")), 5);
    assert_eq!(transfer.stage(), Stage::Over);
    assert_eq!(transfer.outcome(), (None, Some("LAX".to_owned())));
}

#[test]
fn an_empty_data_center_is_wanted_without_filters() {
    let mut transfer = Transfer::new(10 * SECOND, true, filters(&[]));
    transfer.accept(Some(String::new()), 5);
    assert_eq!(transfer.stage(), Stage::Reading { start: 5 });
}

#[test]
fn a_data_center_that_is_not_needed_is_not_read() {
    let mut transfer = Transfer::new(10 * SECOND, false, filters(&["HKG"]));
    transfer.responded_at(Some(&headers("1-LAX")), 5);
    assert_eq!(transfer.stage(), Stage::Reading { start: 5 });
    assert_eq!(transfer.frame_at(Frame::Failed, at(6)), DisplayUpdate::Keep);
    assert_eq!(transfer.outcome(), (None, None));
}

#[test]
fn only_data_after_the_warm_up_is_measured() {
    let mut transfer = Transfer::new(10 * SECOND, true, filters(&["lax"]));
    transfer.responded_at(Some(&headers("1-LAX")), SECOND);
    assert!(transfer.poll_at(false, SECOND));
    let shown = transfer.frame_at(Frame::Data { size: 1000 }, at(2 * SECOND));
    assert_eq!(shown, DisplayUpdate::Show { speed: None });
    transfer.frame_at(Frame::Data { size: 50 }, at(4 * SECOND - 1));
    transfer.frame_at(Frame::Data { size: 200 }, at(4 * SECOND));
    transfer.frame_at(Frame::Other, at(5 * SECOND));
    transfer.frame_at(Frame::Data { size: 300 }, at(6 * SECOND));
    assert_eq!(transfer.data_received(), 1550);
    assert!(transfer.poll_at(false, 14 * SECOND - 1));
    assert!(!transfer.poll_at(false, 14 * SECOND));
    let speed = Some(SpeedRatio { bytes: 500, nanos: 2 * SECOND });
    assert_eq!(transfer.outcome(), (speed, Some("LAX".to_owned())));
}

#[test]
fn the_end_of_the_body_ends_a_download() {
    let mut transfer = Transfer::new(SECOND, false, filters(&[]));
    transfer.responded_at(Some(&headers("1-LAX")), 0);
    transfer.frame_at(Frame::Data { size: 7 }, at(3 * SECOND));
    transfer.frame_at(Frame::End, at(3 * SECOND));
    assert_eq!(transfer.stage(), Stage::Over);
    assert_eq!(transfer.outcome(), (None, None));
}

#[test]
fn an_error_ends_a_download_without_a_speed() {
    let mut transfer = Transfer::new(SECOND, true, filters(&[]));
    transfer.responded_at(Some(&headers("1-LAX")), 0);
    transfer.frame_at(Frame::Data { size: 7 }, at(3 * SECOND));
    transfer.frame_at(Frame::Data { size: 7 }, at(4 * SECOND));
    transfer.frame_at(Frame::Failed, at(4 * SECOND));
    assert_eq!(transfer.outcome(), (None, Some("LAX".to_owned())));
}

#[test]
fn the_signal_ends_a_download() {
    let mut transfer = Transfer::new(SECOND, false, filters(&[]));
    transfer.responded(Some(&headers("1-LAX")));
    assert!(transfer.poll(false));
    assert_eq!(transfer.frame(Frame::Data { size: 7 }), DisplayUpdate::Keep);
    assert_eq!(transfer.frame(Frame::Other), DisplayUpdate::Keep);
    assert!(!transfer.poll(true));
    assert_eq!(transfer.data_received(), 7);
    assert_eq!(transfer.outcome(), (None, None));
}

#[test]
fn a_uri_that_is_none_is_replaced() {
    let addr = SocketAddr { family: Family::V4, ip: "1.0.0.1".to_owned(), port: 443 };
    assert_eq!(download_uri("https", &addr, "/x", "https://a/"), "https://1.0.0.1:443/x");
    assert_eq!(download_uri("ht tp", &addr, "/x", "https://a/"), "https://a/");
    let v6 = SocketAddr { family: Family::V6 { scope_id: 0 }, ip: "::1".to_owned(), port: 80 };
    assert_eq!(download_uri("http", &v6, "/", "https://a/"), "http://[::1]:80/");
}

#[test]
fn the_parse_decides_on_the_uri() {
    let parts = Some(UriParts { scheme: None, path: String::new() });
    assert_eq!(uri_or("built".to_owned(), &parts, "other"), "built");
    assert_eq!(uri_or("built".to_owned(), &None, "other"), "other");
}

#[test]
fn an_unwanted_data_center_ends_a_download() {
    let mut transfer = Transfer::new(10 * SECOND, true, filters(&["HKG"]));
    transfer.responded(Some(&headers("1-LAX")));
    assert_eq!(transfer.stage(), Stage::Over);
    assert_eq!(transfer.outcome(), (None, Some("LAX".to_owned())));
}

#[test]
fn a_wanted_data_center_is_read_from_now_on() {
    let mut transfer = Transfer::new(10 * SECOND, true, filters(&["LAX"]));
    let start = std::time::Instant::now();
    while start.elapsed().as_millis() < 2 {}
    transfer.responded(Some(&headers("1-LAX")));
    match transfer.stage() {
        Stage::Reading { start } => assert!(start >= 2_000_000),
        other => panic!("the body is not read: {other:?}"),
    }
    assert!(transfer.poll(false));
    transfer.frame(Frame::End);
    assert_eq!(transfer.outcome(), (None, Some("LAX".to_owned())));
}

fn edge() -> SocketAddr {
    SocketAddr { family: Family::V4, ip: "1.0.0.1".to_owned(), port: 443 }
}

#[test]
fn a_download_keeps_scheme_and_path() {
    assert_eq!(
        download_target("https://a.b/c/d?e=f", &edge()),
        Some("https://1.0.0.1:443/c/d".to_owned())
    );
    assert_eq!(download_target("http://a.b", &edge()), Some("http://1.0.0.1:443/".to_owned()));
}

#[test]
fn a_download_needs_a_scheme() {
    assert_eq!(download_target("/c/d", &edge()), None);
    assert_eq!(download_target("a.b", &edge()), None);
    assert_eq!(download_target("a b", &edge()), None);
}

#[test]
fn a_target_that_is_no_uri_is_replaced() {
    let parts = UriParts { scheme: Some("https".to_owned()), path: "/a b".to_owned() };
    assert_eq!(download_target_of(Some(parts), "u", &edge()), Some("u".to_owned()));
    let parts = UriParts { scheme: None, path: "/".to_owned() };
    assert_eq!(download_target_of(Some(parts), "u", &edge()), None);
    assert_eq!(download_target_of(None, "u", &edge()), None);
}
