use relique::schedule::{
    format_bounds, local_now, parse_bounds, prev_tick, Bounds, LocalTime, Schedule, ScheduleEdge,
};

fn work_schedule(name: &str, monday: Option<Bounds>) -> Schedule {
    Schedule {
        name: String::from(name),
        monday,
        tuesday: None,
        wednesday: None,
        thursday: None,
        friday: None,
        saturday: None,
        sunday: None,
    }
}

#[test]
fn parse_single_range() {
    let b = parse_bounds("09:00-17:00".as_bytes()).unwrap();
    assert_eq!(b.0, vec![(9 * 3600, 17 * 3600)]);
}

#[test]
fn parse_several_ranges() {
    let b = parse_bounds("09:00-12:00, 13:30-17:45".as_bytes()).unwrap();
    assert_eq!(
        b.0,
        vec![
            (9 * 3600, 12 * 3600),
            (13 * 3600 + 30 * 60, 17 * 3600 + 45 * 60)
        ]
    );
}

#[test]
fn parse_skips_surrounding_text() {
    let b = parse_bounds("xx09:00-17:00yy".as_bytes()).unwrap();
    assert_eq!(b.0, vec![(9 * 3600, 17 * 3600)]);
}

#[test]
fn parse_rejects_out_of_clock_times() {
    let e = parse_bounds("25:00-26:00".as_bytes()).unwrap_err();
    assert_eq!(e.start_hour, 25);
    assert_eq!(e.start_min, 0);
    assert_eq!(e.stop_hour, 26);
    assert_eq!(e.stop_min, 0);
}

#[test]
fn parse_empty_text_yields_no_ranges() {
    let b = parse_bounds("".as_bytes()).unwrap();
    assert!(b.0.is_empty());
}

#[test]
fn format_round_trips_through_parse() {
    let text = "09:00-12:00, 13:30-17:45";
    let b = parse_bounds(text.as_bytes()).unwrap();
    assert_eq!(format_bounds(&b), text);
}

#[test]
fn is_active_strictly_inside_only() {
    let s = work_schedule("work", Some(Bounds(vec![(9 * 3600, 17 * 3600)])));
    // Exactly on the boundary is inactive.
    assert!(!s.is_active(&LocalTime {
        weekday: 0,
        secs: 9 * 3600
    }));
    assert!(s.is_active(&LocalTime {
        weekday: 0,
        secs: 9 * 3600 + 1
    }));
    assert!(s.is_active(&LocalTime {
        weekday: 0,
        secs: 12 * 3600
    }));
    assert!(!s.is_active(&LocalTime {
        weekday: 0,
        secs: 17 * 3600
    }));
    // Another weekday has no bounds at all.
    assert!(!s.is_active(&LocalTime {
        weekday: 1,
        secs: 12 * 3600
    }));
}

#[test]
fn inverted_range_is_never_active() {
    let s = work_schedule("night", Some(Bounds(vec![(17 * 3600, 9 * 3600)])));
    assert!(!s.is_active(&LocalTime {
        weekday: 0,
        secs: 18 * 3600
    }));
    assert!(!s.is_active(&LocalTime {
        weekday: 0,
        secs: 8 * 3600
    }));
}

#[test]
fn entering_edge_is_reported_once_inside() {
    let s = work_schedule("work", Some(Bounds(vec![(9 * 3600, 17 * 3600)])));
    // 09:00:05 on a Monday; the previous tick at 08:59:55 lay outside.
    let (active, events) = s.evaluate(&LocalTime {
        weekday: 0,
        secs: 9 * 3600 + 5,
    });
    assert!(active);
    assert_eq!(events.len(), 1);
    assert_eq!(events[0].edge, ScheduleEdge::Entering);
    assert_eq!(events[0].start, 9 * 3600);
    assert_eq!(events[0].stop, 17 * 3600);
    assert_eq!(
        events[0].format_message("work"),
        "Entering schedule 'work': '09:00-17:00'"
    );
}

#[test]
fn exiting_edge_is_reported_after_leaving() {
    let s = work_schedule("work", Some(Bounds(vec![(9 * 3600, 17 * 3600)])));
    // 17:00:05 on a Monday; the previous tick at 16:59:55 lay inside.
    let (active, events) = s.evaluate(&LocalTime {
        weekday: 0,
        secs: 17 * 3600 + 5,
    });
    assert!(!active);
    assert_eq!(events.len(), 1);
    assert_eq!(events[0].edge, ScheduleEdge::Exiting);
    assert_eq!(
        events[0].format_message("work"),
        "Exiting schedule 'work': '09:00-17:00'"
    );
}

#[test]
fn no_edge_while_well_inside() {
    let s = work_schedule("work", Some(Bounds(vec![(9 * 3600, 17 * 3600)])));
    let (active, events) = s.evaluate(&LocalTime {
        weekday: 0,
        secs: 12 * 3600,
    });
    assert!(active);
    assert!(events.is_empty());
}

#[test]
fn leaving_one_range_while_entering_another() {
    // The previous tick sat in the first range; now sits in the second.
    let s = work_schedule(
        "split",
        Some(Bounds(vec![(9 * 3600, 10 * 3600), (10 * 3600 - 8, 17 * 3600)])),
    );
    let (active, events) = s.evaluate(&LocalTime {
        weekday: 0,
        secs: 10 * 3600 + 1,
    });
    assert!(active);
    assert_eq!(events.len(), 2);
    assert_eq!(events[0].edge, ScheduleEdge::Exiting);
    assert_eq!(events[0].stop, 10 * 3600);
    assert_eq!(events[1].edge, ScheduleEdge::Entering);
    assert_eq!(events[1].start, 10 * 3600 - 8);
}

#[test]
fn previous_tick_wraps_past_midnight() {
    assert_eq!(prev_tick(5), 86395);
    assert_eq!(prev_tick(10), 0);
    assert_eq!(prev_tick(86399), 86389);
}

#[test]
fn wall_clock_reading_is_plausible() {
    let now = local_now();
    assert!(now.weekday < 7);
    assert!(now.secs < 86400);
}
