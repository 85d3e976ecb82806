use cfst::addr::{Family, SocketAddr};
use cfst::common::PingData;
use cfst::single::Single;
use cfst::sort::{has_speed, sort_results};

fn single(x: f32) -> Single {
    Single { bits: x.to_bits() }
}

fn result(port: u16) -> PingData {
    let addr = SocketAddr { family: Family::V4, ip: "1.1.1.1".to_owned(), port };
    PingData::new(addr, 4, 4, single(1.0))
}

fn sorted_ports(scores: &[f32]) -> Vec<u16> {
    let mut results: Vec<PingData> = (0..scores.len()).map(|i| result(i as u16)).collect();
    let scores: Vec<Single> = scores.iter().map(|s| single(*s)).collect();
    sort_results(&mut results, &scores);
    results.iter().map(|r| r.addr.port).collect()
}

#[test]
fn highest_scores_come_first() {
    assert_eq!(sorted_ports(&[0.5, -2.0, 3.25, 0.0, f32::INFINITY]), vec![4, 2, 0, 3, 1]);
    assert!(sorted_ports(&[]).is_empty());
    assert_eq!(sorted_ports(&[7.0]), vec![0]);
}

#[test]
fn sorting_keeps_all_results() {
    let scores: Vec<f32> = (0..1000u32).map(|i| ((i * 7919) % 101) as f32 - 50.0).collect();
    let ports = sorted_ports(&scores);
    for pair in ports.windows(2) {
        assert!(scores[pair[0] as usize] >= scores[pair[1] as usize]);
    }
    let mut all = ports.clone();
    all.sort();
    assert_eq!(all, (0..1000u16).collect::<Vec<u16>>());
}

#[test]
fn scores_that_are_not_numbers_lose_nothing() {
    let mut ports = sorted_ports(&[1.0, f32::NAN, 2.0, f32::NAN, -1.0]);
    ports.sort();
    assert_eq!(ports, vec![0, 1, 2, 3, 4]);
}

#[test]
fn a_speed_is_known_of_some_result() {
    let mut results = vec![result(1), result(2)];
    assert!(!has_speed(&results));
    assert!(!has_speed(&[]));
    results[1].download_speed = Some(single(0.0));
    assert!(has_speed(&results));
}
