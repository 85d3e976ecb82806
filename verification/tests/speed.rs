use cfst::speed::{elapsed_between, not_before, DisplayUpdate, DownloadHandler, SpeedRatio};

const SECOND: u128 = 1_000_000_000;

#[test]
fn times_do_not_run_backwards() {
    assert_eq!(elapsed_between(3, 10), 7);
    assert_eq!(elapsed_between(10, 3), 0);
}

#[test]
fn nothing_is_shown_before_the_interval() {
    let mut handler = DownloadHandler::new();
    let shown = handler.update_data_received_at(100, 1, 499_999_999, 499_999_999, 499_999_999);
    assert_eq!(shown, DisplayUpdate::Keep);
    assert_eq!(handler.data_received(), 100);
    assert!(!handler.should_update_display_at(499_999_999));
    assert!(handler.should_update_display_at(500_000_000));
}

#[test]
fn speed_is_taken_over_the_interval() {
    let mut handler = DownloadHandler::new();
    handler.add_data_point_at(1000, SECOND / 10);
    handler.add_data_point_at(500, SECOND);
    handler.add_data_point_at(700, SECOND + SECOND / 4);
    assert_eq!(
        handler.calculate_speed(),
        Some(SpeedRatio { bytes: 1200, nanos: SECOND + SECOND / 4 - SECOND / 10 })
    );
    let now = SECOND + SECOND / 4;
    let shown = handler.update_display_at(now, now, now + 5);
    let speed = Some(SpeedRatio { bytes: 700, nanos: SECOND / 4 });
    assert_eq!(shown, DisplayUpdate::Show { speed });
    assert!(!handler.should_update_display_at(now + 5 + 499_999_999));
    assert!(handler.should_update_display_at(now + 5 + 500_000_000));
}

#[test]
fn no_progress_is_no_speed() {
    let mut handler = DownloadHandler::new();
    assert_eq!(handler.calculate_speed(), None);
    handler.add_data_point_at(10, 5);
    assert_eq!(handler.calculate_speed(), None);
    handler.add_data_point_at(0, 9);
    assert_eq!(handler.calculate_speed(), None);
    handler.add_data_point_at(3, 5);
    assert_eq!(handler.calculate_speed(), None);
    handler.add_data_point_at(1, 6);
    assert_eq!(handler.calculate_speed(), Some(SpeedRatio { bytes: 4, nanos: 1 }));
}

#[test]
fn old_samples_are_given_up() {
    let mut handler = DownloadHandler::new();
    for t in 1..=5u128 {
        handler.add_data_point_at(10, t);
    }
    handler.cleanup_old_samples(3);
    assert_eq!(handler.calculate_speed(), Some(SpeedRatio { bytes: 20, nanos: 2 }));
    handler.cleanup_old_samples(6);
    assert_eq!(handler.calculate_speed(), None);
    assert_eq!(handler.data_received(), 50);
}

#[test]
fn the_clock_runs() {
    let mut handler = DownloadHandler::new();
    let start = std::time::Instant::now();
    let before = handler.now();
    assert!(!handler.should_update_display());
    assert_eq!(handler.update_data_received(10), DisplayUpdate::Keep);
    assert_eq!(handler.update_display(), DisplayUpdate::Keep);
    handler.add_data_point(5);
    while start.elapsed().as_millis() < 520 {}
    assert!(handler.now() > before + 500_000_000);
    assert!(handler.should_update_display());
    match handler.update_data_received(10) {
        DisplayUpdate::Show { speed } => assert!(speed.is_none()),
        DisplayUpdate::Keep => panic!("the shown speed was due for a change"),
    }
    assert!(!handler.should_update_display());
    assert_eq!(handler.data_received(), 25);
}

#[test]
fn every_piece_of_data_is_counted() {
    let mut handler = DownloadHandler::new();
    let mut sum = 0;
    for i in 1..=20u64 {
        let now = i as u128 * SECOND / 10;
        let shown = handler.update_data_received_at(i, now, now, now, now);
        sum += i;
        assert_eq!(handler.data_received(), sum);
        match shown {
            DisplayUpdate::Show { speed } => {
                assert_eq!(i % 5, 0);
                let bytes = if i == 5 { 14 } else { 5 * i - 10 };
                let nanos = if i == 5 { 4 * SECOND / 10 } else { SECOND / 2 };
                assert_eq!(speed, Some(SpeedRatio { bytes, nanos }));
            }
            DisplayUpdate::Keep => assert_ne!(i % 5, 0),
        }
    }
    assert_eq!(sum, 210);
}

#[test]
fn noted_readings_do_not_fall() {
    let mut handler = DownloadHandler::new();
    let mut last = 0;
    for _ in 0..100 {
        let now = handler.read();
        assert!(now >= last);
        last = now;
    }
    assert!(handler.now() >= last);
    assert_eq!(handler.data_received(), 0);
}

#[test]
fn a_reading_is_not_before_the_last_one() {
    assert_eq!(not_before(7, 3), 7);
    assert_eq!(not_before(3, 3), 3);
    assert_eq!(not_before(2, 3), 3);
}

#[test]
fn the_current_speed_is_the_one_shown() {
    let mut handler = DownloadHandler::new();
    assert_eq!(handler.current_speed(), None);
    let half = SECOND / 2;
    assert_eq!(handler.update_data_received_at(4, 100, 100, 100, 100), DisplayUpdate::Keep);
    assert_eq!(handler.current_speed(), None);
    let speed = Some(SpeedRatio { bytes: 6, nanos: half - 100 });
    let shown = handler.update_data_received_at(6, half, half, half, half);
    assert_eq!(shown, DisplayUpdate::Show { speed });
    assert_eq!(handler.current_speed(), speed);
    let shown = handler.update_data_received_at(1, half + 1, half + 1, half + 1, half + 1);
    assert_eq!(shown, DisplayUpdate::Keep);
    assert_eq!(handler.current_speed(), speed);
}

#[test]
fn a_change_comes_due_with_time() {
    let mut handler = DownloadHandler::new();
    assert!(!handler.display_due());
    let start = std::time::Instant::now();
    while start.elapsed().as_millis() < 520 {}
    assert!(handler.display_due());
    assert!(handler.display_due());
    assert_eq!(handler.update_display(), DisplayUpdate::Show { speed: None });
    assert!(!handler.display_due());
}
