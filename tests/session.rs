use audio_scatter::config::Config;
use audio_scatter::geometry::Viewport;
use audio_scatter::session::{Session, TickAction};
use audio_scatter::table::{FeatureRow, StatsError};

fn row(time: u64, frequency: i32, loudness: i32) -> FeatureRow {
    FeatureRow { time, frequency, loudness }
}

fn scenario_session() -> Session {
    let table = vec![row(0, 100, 500), row(5000, 200, 800), row(9900, 150, 300)];
    Session::start(table, 10_000, Config::default()).unwrap()
}

fn circle_count(a: &TickAction) -> Option<usize> {
    match a {
        TickAction::Redraw(c) => Some(c.len()),
        _ => None,
    }
}

#[test]
fn scenario_selects_middle_row_then_finishes() {
    let mut s = scenario_session();
    let a = s.tick(5000);
    match &a {
        TickAction::Redraw(circles) => {
            assert_eq!(circles.len(), 1);
            assert_eq!(circles[0].radius.num as f64 / circles[0].radius.den as f64, 25.0);
        },
        _ => panic!("expected a redraw"),
    }
    assert!(!s.is_finished());
    assert!(matches!(s.tick(10_000), TickAction::Exit));
    assert!(s.is_finished());
    assert!(matches!(s.tick(10_050), TickAction::Idle));
    assert!(matches!(s.tick(20_000), TickAction::Idle));
}

#[test]
fn session_exits_once_and_never_draws_again() {
    let mut s = scenario_session();
    let readings = [0u64, 150, 200, 260, 4000, 9999, 10_000, 10_001, 12_000, 15_000];
    let mut exits = 0;
    let mut seen_exit = false;
    for e in readings {
        let a = s.tick(e);
        if seen_exit {
            assert!(matches!(a, TickAction::Idle));
        }
        if matches!(a, TickAction::Exit) {
            assert_eq!(e, 10_000);
            exits += 1;
            seen_exit = true;
        }
    }
    assert_eq!(exits, 1);
}

#[test]
fn ticks_inside_throttle_interval_hold() {
    let mut s = scenario_session();
    assert!(matches!(s.tick(50), TickAction::Hold));
    assert_eq!(circle_count(&s.tick(100)), Some(1));
    assert_eq!(s.last_sample_time(), 100);
    assert!(matches!(s.tick(199), TickAction::Hold));
    assert_eq!(s.last_sample_time(), 100);
    assert_eq!(circle_count(&s.tick(2600)), Some(1));
    assert_eq!(circle_count(&s.tick(7500)), Some(2));
    assert_eq!(circle_count(&s.tick(8000)), Some(1));
}

#[test]
fn empty_window_redraws_nothing() {
    let table = vec![row(0, 1, 1), row(9000, 2, 2)];
    let mut s = Session::start(table, 10_000, Config::default()).unwrap();
    assert_eq!(circle_count(&s.tick(4500)), Some(0));
}

#[test]
fn session_needs_rows() {
    assert_eq!(Session::start(Vec::new(), 1000, Config::default()).err(), Some(StatsError::EmptyTable));
}

#[test]
fn session_keeps_its_statistics() {
    let s = scenario_session();
    let st = s.stats();
    assert_eq!((st.min_frequency, st.max_frequency, st.min_loudness, st.max_loudness), (100, 200, 300, 800));
    assert_eq!(s.duration(), 10_000);
}

#[test]
fn zero_duration_finishes_on_first_tick() {
    let config = Config { viewport: Viewport { width: 10, height: 10, offset_x: 0, offset_y: 0 }, ..Config::default() };
    let mut s = Session::start(vec![row(0, 1, 1)], 0, config).unwrap();
    assert!(matches!(s.tick(0), TickAction::Exit));
    assert!(matches!(s.tick(0), TickAction::Idle));
}
