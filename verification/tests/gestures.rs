use group29_backup::monitor::{MonitorAction, MovementMonitor, DEBOUNCE_INTERVAL_NS, MINUS_SIGN_TIMEOUT_NS};
use group29_backup::tracker::{
    detect_minus_sign, track_rectangle, Border, Corner, Direction, MinusSignTracker, MouseEvent,
    RectangleTracker,
};

const W: u32 = 1920;
const H: u32 = 1080;

fn mv(x: i32, y: i32) -> MouseEvent {
    MouseEvent::MouseMove { x, y }
}

/// A clockwise trip round a 1920x1080 screen starting in the top-left corner.
fn clockwise_trip() -> Vec<MouseEvent> {
    vec![
        mv(10, 10),
        mv(300, 10),
        mv(600, 10),
        mv(1910, 10),
        mv(1910, 500),
        mv(1910, 1070),
        mv(900, 1070),
        mv(10, 1070),
        mv(10, 500),
        mv(10, 10),
    ]
}

#[test]
fn clockwise_rectangle_is_recognised_at_the_start_corner() {
    let mut t = RectangleTracker::new();
    let trip = clockwise_trip();
    let last = trip.len() - 1;
    for (i, e) in trip.into_iter().enumerate() {
        let done = track_rectangle(&mut t, W, H, e);
        assert_eq!(done, i == last, "event {}", i);
    }
    assert_eq!(t.count_corners(), 4);
    assert_eq!(t.direction(), Direction::Clockwise);
    assert_eq!(t.initial_corner(), Corner::TopLeft);
}

#[test]
fn counter_clockwise_rectangle_from_top_right() {
    let mut t = RectangleTracker::new();
    let trip = vec![
        mv(1915, 5),
        mv(1000, 5),
        mv(800, 5),
        mv(5, 5),
        mv(5, 400),
        mv(5, 1075),
        mv(500, 1075),
        mv(1000, 1075),
        mv(1915, 1075),
        mv(1915, 600),
        mv(1915, 5),
    ];
    let last = trip.len() - 1;
    for (i, e) in trip.into_iter().enumerate() {
        let done = track_rectangle(&mut t, W, H, e);
        assert_eq!(done, i == last, "event {}", i);
    }
    assert_eq!(t.direction(), Direction::CounterClockwise);
}

#[test]
fn completion_is_reported_once() {
    let mut t = RectangleTracker::new();
    for e in clockwise_trip() {
        track_rectangle(&mut t, W, H, e);
    }
    assert!(!track_rectangle(&mut t, W, H, mv(10, 10)));
    assert!(!track_rectangle(&mut t, W, H, mv(12, 12)));
}

#[test]
fn leaving_the_edge_abandons_the_gesture() {
    let mut t = RectangleTracker::new();
    assert!(!track_rectangle(&mut t, W, H, mv(10, 10)));
    assert!(!track_rectangle(&mut t, W, H, mv(300, 10)));
    assert_eq!(t.current_border(), Border::Top);
    assert!(t.is_rectangle());
    assert!(!track_rectangle(&mut t, W, H, mv(600, 500)));
    assert!(!t.is_rectangle());
    assert_eq!(t.count_corners(), 0);
    assert_eq!(t.direction(), Direction::Unknown);
    // the edge and the corners recorded are kept
    assert_eq!(t.current_border(), Border::Top);
    assert_eq!(t.initial_corner(), Corner::TopLeft);
    assert_eq!(t.last_corner(), Corner::NoCorner);
}

#[test]
fn abandoning_keeps_the_last_corner_visited() {
    let mut t = RectangleTracker::new();
    for e in [mv(10, 10), mv(300, 10), mv(1910, 10), mv(1910, 300), mv(600, 500)] {
        assert!(!track_rectangle(&mut t, W, H, e));
    }
    assert!(!t.is_rectangle());
    assert_eq!(t.count_corners(), 0);
    assert_eq!(t.current_border(), Border::Right);
    assert_eq!(t.last_corner(), Corner::TopRight);
    assert_eq!(t.initial_corner(), Corner::TopLeft);
    // a new gesture starts from the next corner reached
    assert!(!track_rectangle(&mut t, W, H, mv(1900, 1060)));
    assert!(t.is_rectangle());
    assert_eq!(t.initial_corner(), Corner::BottomRight);
    assert_eq!(t.count_corners(), 1);
    assert_eq!(t.last_corner(), Corner::NoCorner);
}

#[test]
fn going_backwards_along_an_edge_abandons_the_gesture() {
    let mut t = RectangleTracker::new();
    track_rectangle(&mut t, W, H, mv(10, 10));
    track_rectangle(&mut t, W, H, mv(600, 10));
    track_rectangle(&mut t, W, H, mv(800, 10));
    assert!(t.is_rectangle());
    track_rectangle(&mut t, W, H, mv(700, 10));
    assert!(!t.is_rectangle());
}

#[test]
fn returning_to_the_start_too_early_does_not_complete() {
    let mut t = RectangleTracker::new();
    let trip = vec![mv(10, 10), mv(300, 10), mv(600, 10), mv(10, 10)];
    for e in trip {
        assert!(!track_rectangle(&mut t, W, H, e));
    }
}

#[test]
fn returning_to_the_start_after_one_edge_counts_the_corner() {
    let mut t = RectangleTracker::new();
    for e in [mv(10, 10), mv(200, 10), mv(1000, 10)] {
        assert!(!track_rectangle(&mut t, W, H, e));
    }
    assert_eq!(t.count_corners(), 1);
    assert!(!track_rectangle(&mut t, W, H, mv(10, 10)));
    assert_eq!(t.count_corners(), 2);
    assert_eq!(t.last_corner(), Corner::TopLeft);
    assert_eq!(t.current_border(), Border::Top);
}

#[test]
fn other_events_change_nothing() {
    let mut t = RectangleTracker::new();
    assert!(!track_rectangle(&mut t, W, H, MouseEvent::Other));
    assert!(!t.is_rectangle());
    assert_eq!(t.count_corners(), 0);
    let mut m = MinusSignTracker::new();
    assert!(!detect_minus_sign(&mut m, W, H, MouseEvent::Other));
    assert!(!m.is_tracking());
}

#[test]
fn corner_tolerance_is_strict() {
    let mut t = RectangleTracker::new();
    track_rectangle(&mut t, W, H, mv(50, 10));
    assert!(!t.is_rectangle());
    track_rectangle(&mut t, W, H, mv(49, 49));
    assert!(t.is_rectangle());
    assert_eq!(t.initial_corner(), Corner::TopLeft);
}

#[test]
fn each_corner_is_recognised() {
    let cases = [
        (1900, 20, Corner::TopRight),
        (20, 1060, Corner::BottomLeft),
        (1900, 1060, Corner::BottomRight),
    ];
    for (x, y, c) in cases {
        let mut t = RectangleTracker::new();
        track_rectangle(&mut t, W, H, mv(x, y));
        assert_eq!(t.initial_corner(), c);
    }
}

#[test]
fn jumping_back_to_the_start_counts_it_but_does_not_complete() {
    let mut t = RectangleTracker::new();
    let trip = vec![mv(10, 10), mv(200, 10), mv(1000, 10), mv(1910, 10), mv(1910, 500), mv(10, 10)];
    for e in trip {
        assert!(!track_rectangle(&mut t, W, H, e));
    }
    // the jump back to the start corner was counted, and the top edge is next
    assert_eq!(t.count_corners(), 3);
    assert_eq!(t.current_border(), Border::Top);
    assert_eq!(t.last_corner(), Corner::TopLeft);
    assert!(!track_rectangle(&mut t, W, H, mv(10, 10)));
    assert!(!track_rectangle(&mut t, W, H, mv(12, 12)));
    assert_eq!(t.count_corners(), 3);
}

#[test]
fn jumping_across_a_corner_cannot_close_the_rectangle() {
    let mut t = RectangleTracker::new();
    // along the top edge, then straight into the bottom-right corner
    for e in [mv(10, 10), mv(300, 10), mv(900, 10), mv(1900, 1060)] {
        assert!(!track_rectangle(&mut t, W, H, e));
    }
    assert_eq!(t.count_corners(), 2);
    assert_eq!(t.current_border(), Border::Bottom);
    // round the rest of the way: three corners are counted, but the right
    // edge was never followed, so arriving back is no rectangle
    for e in [mv(900, 1060), mv(10, 1070), mv(10, 500), mv(10, 10)] {
        assert!(!track_rectangle(&mut t, W, H, e));
    }
    assert_eq!(t.count_corners(), 4);
}

#[test]
fn a_rectangle_after_an_abandoned_attempt_is_recognised() {
    let mut t = RectangleTracker::new();
    for e in [mv(10, 10), mv(200, 10), mv(1000, 10), mv(1910, 10), mv(1910, 500), mv(500, 500)] {
        assert!(!track_rectangle(&mut t, W, H, e));
    }
    assert!(!t.is_rectangle());
    assert_eq!(t.last_corner(), Corner::TopRight);
    let trip = vec![
        mv(10, 10),
        mv(200, 10),
        mv(1000, 10),
        mv(1910, 10),
        mv(1910, 500),
        mv(1910, 1070),
        mv(1000, 1070),
        mv(10, 1070),
        mv(10, 500),
        mv(10, 10),
    ];
    let last = trip.len() - 1;
    for (i, e) in trip.into_iter().enumerate() {
        assert_eq!(track_rectangle(&mut t, W, H, e), i == last, "event {}", i);
    }
}

#[test]
fn counter_clockwise_rectangle_across_the_whole_bottom_edge() {
    let mut t = RectangleTracker::new();
    // from the top-left corner down the left edge, along the whole bottom
    // edge (beyond the screen height), up the right edge, back along the top
    let trip = vec![
        mv(10, 10),
        mv(10, 300),
        mv(10, 1070),
        mv(300, 1070),
        mv(1500, 1070),
        mv(1910, 1070),
        mv(1910, 800),
        mv(1910, 10),
        mv(1400, 10),
        mv(600, 10),
        mv(10, 10),
    ];
    let last = trip.len() - 1;
    for (i, e) in trip.into_iter().enumerate() {
        assert_eq!(track_rectangle(&mut t, W, H, e), i == last, "event {}", i);
    }
    assert_eq!(t.direction(), Direction::CounterClockwise);
}

#[test]
fn going_up_the_right_edge_records_only_the_height() {
    let mut t = RectangleTracker::new();
    // counter-clockwise: the bottom stroke ends at x = 1500, so the top
    // stroke must start no further right
    let trip = vec![
        mv(10, 10),
        mv(10, 300),
        mv(10, 1070),
        mv(1500, 1070),
        mv(1910, 1070),
        mv(1910, 800),
        mv(1910, 10),
    ];
    for e in trip {
        assert!(!track_rectangle(&mut t, W, H, e));
    }
    assert_eq!(t.current_border(), Border::Top);
    assert!(!track_rectangle(&mut t, W, H, mv(1700, 10)));
    assert!(!t.is_rectangle());
}

#[test]
fn counter_clockwise_rectangle_from_bottom_right() {
    let mut t = RectangleTracker::new();
    let trip = vec![
        mv(1910, 1070),
        mv(1910, 900),
        mv(1910, 10),
        mv(1800, 10),
        mv(10, 10),
        mv(10, 500),
        mv(10, 1070),
        mv(200, 1070),
        mv(1910, 1070),
    ];
    let last = trip.len() - 1;
    for (i, e) in trip.into_iter().enumerate() {
        assert_eq!(track_rectangle(&mut t, W, H, e), i == last, "event {}", i);
    }
}

#[test]
fn each_edge_needs_a_move_along_it() {
    let mut t = RectangleTracker::new();
    // from the top-right corner straight into the bottom-right corner
    for e in [mv(10, 10), mv(500, 10), mv(1910, 10), mv(1910, 1070)] {
        assert!(!track_rectangle(&mut t, W, H, e));
    }
    // the corner is counted out of turn: the right edge was never followed
    assert_eq!(t.count_corners(), 3);
    assert_eq!(t.current_border(), Border::Bottom);
    for e in [mv(1000, 1070), mv(10, 1070), mv(10, 600), mv(10, 10)] {
        assert!(!track_rectangle(&mut t, W, H, e));
    }
}

#[test]
fn lingering_in_a_corner_counts_it_once() {
    let mut t = RectangleTracker::new();
    for e in [mv(10, 10), mv(500, 10), mv(1910, 10), mv(1915, 15), mv(1905, 5)] {
        assert!(!track_rectangle(&mut t, W, H, e));
    }
    assert_eq!(t.count_corners(), 2);
}

#[test]
fn minus_sign_needs_a_fifth_of_the_width() {
    let mut m = MinusSignTracker::new();
    assert!(!detect_minus_sign(&mut m, W, H, mv(500, 500)));
    assert!(m.is_tracking());
    assert!(!detect_minus_sign(&mut m, W, H, mv(700, 510)));
    // 1920 / 5 = 384: 883 - 500 = 383 is one pixel short.
    assert!(!detect_minus_sign(&mut m, W, H, mv(883, 520)));
    assert!(detect_minus_sign(&mut m, W, H, mv(884, 460)));
    assert!(m.is_minus_sign());
}

#[test]
fn minus_sign_leaving_the_band_stops_tracking() {
    let mut m = MinusSignTracker::new();
    detect_minus_sign(&mut m, W, H, mv(500, 500));
    assert!(!detect_minus_sign(&mut m, W, H, mv(1500, 550)));
    assert!(!m.is_tracking());
    // the next move starts a new stroke
    assert!(!detect_minus_sign(&mut m, W, H, mv(1500, 550)));
    assert!(m.is_tracking());
}

#[test]
fn leftward_stroke_is_not_a_minus_sign() {
    let mut m = MinusSignTracker::new();
    detect_minus_sign(&mut m, W, H, mv(1500, 500));
    assert!(!detect_minus_sign(&mut m, W, H, mv(100, 500)));
    assert!(m.is_tracking());
}

fn feed(mon: &mut MovementMonitor, start: u64, events: &[MouseEvent]) -> (Vec<MonitorAction>, u64) {
    let mut t = start;
    let mut out = Vec::new();
    for e in events {
        t += 200_000_000;
        out.push(mon.on_event(t, *e));
    }
    (out, t)
}

#[test]
fn monitor_recognises_rectangle_then_minus_sign() {
    let mut mon = MovementMonitor::new(0, W, H, true);
    let (acts, t) = feed(&mut mon, 0, &clockwise_trip());
    assert_eq!(*acts.last().unwrap(), MonitorAction::RectangleCompleted);
    assert!(acts[..acts.len() - 1].iter().all(|a| *a == MonitorAction::Followed));
    assert!(!mon.is_monitoring_rectangle());
    let (acts, t) = feed(&mut mon, t, &[mv(500, 500), mv(700, 500), mv(1000, 500)]);
    assert_eq!(acts, vec![MonitorAction::Followed, MonitorAction::Followed, MonitorAction::MinusSignDetected]);
    assert!(mon.is_done());
    let (acts, _) = feed(&mut mon, t, &[mv(500, 500), mv(10, 10)]);
    assert_eq!(acts, vec![MonitorAction::Ignored, MonitorAction::Ignored]);
}

#[test]
fn monitor_drops_events_within_the_debounce_interval() {
    let mut mon = MovementMonitor::new(1_000, W, H, true);
    assert_eq!(mon.on_event(1_000 + DEBOUNCE_INTERVAL_NS - 1, mv(10, 10)), MonitorAction::Ignored);
    assert_eq!(mon.on_event(1_000 + DEBOUNCE_INTERVAL_NS, mv(10, 10)), MonitorAction::Followed);
    assert_eq!(mon.rectangle_corner_count(), 1);
    assert_eq!(mon.on_event(1_000 + DEBOUNCE_INTERVAL_NS + 10, mv(300, 10)), MonitorAction::Ignored);
    // an earlier time than the last accepted event is dropped as well
    assert_eq!(mon.on_event(0, mv(300, 10)), MonitorAction::Ignored);
}

#[test]
fn monitor_times_out_only_with_a_timeout() {
    let mut mon = MovementMonitor::new(0, W, H, false);
    let (_, t) = feed(&mut mon, 0, &clockwise_trip());
    assert!(!mon.is_monitoring_rectangle());
    // without a timeout the minus sign is awaited however long it takes
    let late = t + 5 * MINUS_SIGN_TIMEOUT_NS;
    assert_eq!(mon.on_event(late, mv(500, 500)), MonitorAction::Followed);
    assert!(!mon.is_monitoring_rectangle());

    // with one, it runs from the completion of the rectangle
    let mut mon = MovementMonitor::new(0, W, H, true);
    let (_, t) = feed(&mut mon, 0, &clockwise_trip());
    assert_eq!(mon.on_event(t + MINUS_SIGN_TIMEOUT_NS - DEBOUNCE_INTERVAL_NS, mv(500, 500)), MonitorAction::Followed);
    assert_eq!(mon.on_event(t + MINUS_SIGN_TIMEOUT_NS, mv(500, 900)), MonitorAction::TimedOut);
    assert!(mon.is_monitoring_rectangle());
    // the rectangle is awaited again and can be drawn anew
    let (acts, _) = feed(&mut mon, t + MINUS_SIGN_TIMEOUT_NS, &clockwise_trip());
    assert_eq!(*acts.last().unwrap(), MonitorAction::RectangleCompleted);
}

#[test]
fn monitor_minus_sign_wins_over_timeout() {
    let mut mon = MovementMonitor::new(0, W, H, true);
    let (_, t) = feed(&mut mon, 0, &clockwise_trip());
    assert_eq!(mon.on_event(t + 1_000_000_000, mv(500, 500)), MonitorAction::Followed);
    assert_eq!(mon.on_event(t + 2 * MINUS_SIGN_TIMEOUT_NS, mv(1500, 500)), MonitorAction::MinusSignDetected);
    assert!(mon.is_done());
}

#[test]
fn monitor_timeout_saturates_at_the_end_of_the_clock() {
    // ten events 0.2 s apart complete the rectangle one second before the
    // clock's end, so the deadline saturates there
    let start = u64::MAX - 3_000_000_000;
    let mut mon = MovementMonitor::new(start, W, H, true);
    let (_, t) = feed(&mut mon, start, &clockwise_trip());
    assert_eq!(t, u64::MAX - 1_000_000_000);
    assert_eq!(mon.on_event(u64::MAX - 1, mv(500, 500)), MonitorAction::Followed);

    let mut mon = MovementMonitor::new(start, W, H, true);
    feed(&mut mon, start, &clockwise_trip());
    assert_eq!(mon.on_event(u64::MAX, mv(500, 500)), MonitorAction::TimedOut);
}
