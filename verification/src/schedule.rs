//! Weekly schedules: named sets of daily time windows, evaluated against the
//! local wall clock with edge detection tied to the daemon tick period.

use vstd::prelude::*;

use crate::text::{digit_char, digit_str, push_two_digits, two_digits};

verus! {

/// Seconds between two daemon ticks; also the look-back window used to detect
/// entering or leaving a schedule range.
pub const TICK_PERIOD_SECS: u32 = 10;

/// Seconds in one day; times of day stay strictly below this.
pub const SECS_PER_DAY: u32 = 86400;

/// A local wall-clock instant reduced to what schedules read: the weekday
/// (0 is Monday through 6 is Sunday) and the seconds elapsed since local
/// midnight.
#[derive(Clone, Copy, Debug, PartialEq, Eq, Structural)]
pub struct LocalTime {
    pub weekday: u8,
    pub secs: u32,
}

impl LocalTime {
    /// A plausible instant: a real weekday and a time within the day.
    pub open spec fn wf(self) -> bool {
        self.weekday < 7 && self.secs < SECS_PER_DAY
    }
}

/// Relies on chrono's `Local::now` together with `Datelike::weekday`,
/// `Weekday::num_days_from_monday` and `Timelike::num_seconds_from_midnight`:
/// the weekday index lies below seven and the seconds since midnight below
/// one day, whatever instant the wall clock reports.
#[verifier::external_body]
pub fn local_now() -> (r: LocalTime)
    ensures
        r.wf(),
{
    let now = chrono::Local::now();
    let weekday = chrono::Datelike::weekday(&now).num_days_from_monday() as u8;
    let secs = chrono::Timelike::num_seconds_from_midnight(&now);
    LocalTime { weekday, secs }
}

/// The ordered `(start, stop)` time ranges a schedule holds for one weekday,
/// as seconds since midnight. A range is active strictly between its ends, so
/// one with `stop <= start` is never active.
#[derive(Clone, Debug)]
pub struct Bounds(pub Vec<(u32, u32)>);

/// A named weekly pattern of active time windows, one optional range list per
/// weekday.
#[derive(Clone, Debug)]
pub struct Schedule {
    pub name: String,
    pub monday: Option<Bounds>,
    pub tuesday: Option<Bounds>,
    pub wednesday: Option<Bounds>,
    pub thursday: Option<Bounds>,
    pub friday: Option<Bounds>,
    pub saturday: Option<Bounds>,
    pub sunday: Option<Bounds>,
}

/// The mathematical content of a [`Schedule`]: its name and its seven
/// optional range lists, Monday first.
#[verifier::ext_equal]
pub struct ScheduleV {
    pub name: Seq<char>,
    pub days: Seq<Option<Seq<(u32, u32)>>>,
}

/// The range list an optional [`Bounds`] holds.
pub open spec fn bounds_dv(o: Option<Bounds>) -> Option<Seq<(u32, u32)>> {
    match o {
        None => None,
        Some(b) => Some(b.0@),
    }
}

impl DeepView for Bounds {
    type V = Seq<(u32, u32)>;

    open spec fn deep_view(&self) -> Seq<(u32, u32)> {
        self.0@
    }
}

impl DeepView for Schedule {
    type V = ScheduleV;

    open spec fn deep_view(&self) -> ScheduleV {
        ScheduleV {
            name: self.name@,
            days: seq![
                bounds_dv(self.monday),
                bounds_dv(self.tuesday),
                bounds_dv(self.wednesday),
                bounds_dv(self.thursday),
                bounds_dv(self.friday),
                bounds_dv(self.saturday),
                bounds_dv(self.sunday),
            ],
        }
    }
}

/// Rebuilds a range list so that copies of a schedule carry their own
/// storage.
pub fn copy_ranges(v: &Vec<(u32, u32)>) -> (r: Vec<(u32, u32)>)
    ensures
        r@ == v@,
{
    let mut out: Vec<(u32, u32)> = Vec::new();
    let mut i: usize = 0;
    while i < v.len()
        invariant
            0 <= i <= v@.len(),
            out@ == v@.subrange(0, i as int),
        decreases v@.len() - i,
    {
        out.push(v[i]);
        proof {
            assert(out@ =~= v@.subrange(0, i as int + 1));
        }
        i += 1;
    }
    proof {
        assert(out@ =~= v@);
    }
    out
}

/// Rebuilds an optional range list.
pub fn copy_bounds(o: &Option<Bounds>) -> (r: Option<Bounds>)
    ensures
        bounds_dv(r) == bounds_dv(*o),
{
    match o {
        None => None,
        Some(b) => Some(Bounds(copy_ranges(&b.0))),
    }
}

impl Schedule {
    /// A copy whose content equals this schedule's.
    pub fn duplicate(&self) -> (r: Schedule)
        ensures
            r.deep_view() == self.deep_view(),
    {
        let r = Schedule {
            name: self.name.clone(),
            monday: copy_bounds(&self.monday),
            tuesday: copy_bounds(&self.tuesday),
            wednesday: copy_bounds(&self.wednesday),
            thursday: copy_bounds(&self.thursday),
            friday: copy_bounds(&self.friday),
            saturday: copy_bounds(&self.saturday),
            sunday: copy_bounds(&self.sunday),
        };
        proof {
            assert(r.deep_view().days =~= self.deep_view().days);
            assert(r.deep_view() =~= self.deep_view());
        }
        r
    }
}

/// Rebuilds a schedule list, keeping order and content.
pub fn copy_schedules(v: &Vec<Schedule>) -> (r: Vec<Schedule>)
    ensures
        r.deep_view() == v.deep_view(),
{
    let mut out: Vec<Schedule> = Vec::new();
    let mut i: usize = 0;
    while i < v.len()
        invariant
            0 <= i <= v@.len(),
            out@.len() == i,
            forall|j: int| 0 <= j < i ==> (#[trigger] out@[j]).deep_view() == v@[j].deep_view(),
        decreases v@.len() - i,
    {
        out.push(v[i].duplicate());
        i += 1;
    }
    proof {
        assert(out.deep_view() =~= v.deep_view());
    }
    out
}

/// Whether instant `t` lies strictly inside range `r`; exact boundaries do
/// not count.
pub open spec fn in_range(r: (u32, u32), t: u32) -> bool {
    r.0 < t && t < r.1
}

/// Whether some range of `rs` strictly contains `t`.
pub open spec fn ranges_contain(rs: Seq<(u32, u32)>, t: u32) -> bool {
    exists|i: int| 0 <= i < rs.len() && in_range(rs[i], t)
}

/// The time one tick before `t`, wrapping past midnight.
pub open spec fn spec_prev_tick(t: u32) -> u32 {
    (((t + SECS_PER_DAY - TICK_PERIOD_SECS) as int % SECS_PER_DAY as int)) as u32
}

/// Whether a schedule, given by its content, is active at the given instant;
/// agrees with [`Schedule::active_at`] on the underlying schedule.
pub open spec fn active_at_v(s: ScheduleV, now: LocalTime) -> bool {
    let d: int = if now.weekday <= 6 {
        now.weekday as int
    } else {
        6
    };
    match s.days[d] {
        None => false,
        Some(rs) => ranges_contain(rs, now.secs),
    }
}

/// A schedule and its content agree on activity at every instant.
pub proof fn lemma_active_at_dv(s: Schedule, now: LocalTime)
    ensures
        s.active_at(now) == active_at_v(s.deep_view(), now),
{
    if now.weekday == 0 {
        assert(s.deep_view().days[0] == bounds_dv(s.monday));
    } else if now.weekday == 1 {
        assert(s.deep_view().days[1] == bounds_dv(s.tuesday));
    } else if now.weekday == 2 {
        assert(s.deep_view().days[2] == bounds_dv(s.wednesday));
    } else if now.weekday == 3 {
        assert(s.deep_view().days[3] == bounds_dv(s.thursday));
    } else if now.weekday == 4 {
        assert(s.deep_view().days[4] == bounds_dv(s.friday));
    } else if now.weekday == 5 {
        assert(s.deep_view().days[5] == bounds_dv(s.saturday));
    } else {
        assert(s.deep_view().days[6] == bounds_dv(s.sunday));
    }
}

/// Did the schedule cross a range boundary since the previous tick, and in
/// which direction?
#[derive(Clone, Copy, Debug, PartialEq, Eq, Structural)]
pub enum ScheduleEdge {
    Entering,
    Exiting,
}

/// One boundary crossing observed during evaluation, carrying the range it
/// concerns.
#[derive(Clone, Copy, Debug, PartialEq, Eq, Structural)]
pub struct ScheduleEvent {
    pub edge: ScheduleEdge,
    pub start: u32,
    pub stop: u32,
}

/// The boundary crossings that one evaluation pass reports, walking the
/// ranges in order: the walk stops at the first range containing `now`
/// (reporting it as entered when the previous tick lay outside it), and
/// reports every range passed over that contained the previous tick but not
/// `now` as exited.
pub open spec fn edge_events(rs: Seq<(u32, u32)>, now: u32, prev: u32) -> Seq<ScheduleEvent>
    decreases rs.len(),
{
    if rs.len() == 0 {
        Seq::empty()
    } else {
        let r = rs[0];
        if in_range(r, now) {
            if !in_range(r, prev) {
                seq![ScheduleEvent { edge: ScheduleEdge::Entering, start: r.0, stop: r.1 }]
            } else {
                Seq::empty()
            }
        } else if in_range(r, prev) {
            seq![ScheduleEvent { edge: ScheduleEdge::Exiting, start: r.0, stop: r.1 }] + edge_events(
                rs.drop_first(),
                now,
                prev,
            )
        } else {
            edge_events(rs.drop_first(), now, prev)
        }
    }
}

/// With no range containing the instant or the previous tick, an
/// evaluation pass reports no boundary crossing and finds the schedule
/// inactive.
pub proof fn lemma_no_edges(rs: Seq<(u32, u32)>, now: u32, prev: u32)
    requires
        forall|j: int|
            0 <= j < rs.len() ==> !in_range(#[trigger] rs[j], now) && !in_range(rs[j], prev),
    ensures
        edge_events(rs, now, prev) == Seq::<ScheduleEvent>::empty(),
        !ranges_contain(rs, now),
    decreases rs.len(),
{
    if rs.len() > 0 {
        assert(!in_range(rs[0], now) && !in_range(rs[0], prev));
        assert forall|j: int|
            0 <= j < rs.drop_first().len() implies !in_range(#[trigger] rs.drop_first()[j], now)
            && !in_range(rs.drop_first()[j], prev) by {
            assert(rs.drop_first()[j] == rs[j + 1]);
        }
        lemma_no_edges(rs.drop_first(), now, prev);
        assert(edge_events(rs, now, prev) =~= Seq::<ScheduleEvent>::empty());
    }
}

/// Entering a window: when a range contains the instant but not the
/// previous tick, and no earlier range contains either, the evaluation pass
/// finds the schedule active and reports exactly one entering crossing, for
/// that range.
pub proof fn lemma_entering_edge(rs: Seq<(u32, u32)>, now: u32, prev: u32, i: int)
    requires
        0 <= i < rs.len(),
        in_range(rs[i], now),
        !in_range(rs[i], prev),
        forall|j: int|
            0 <= j < i ==> !in_range(#[trigger] rs[j], now) && !in_range(rs[j], prev),
    ensures
        ranges_contain(rs, now),
        edge_events(rs, now, prev) == seq![
            ScheduleEvent { edge: ScheduleEdge::Entering, start: rs[i].0, stop: rs[i].1 },
        ],
    decreases i,
{
    if i == 0 {
        assert(edge_events(rs, now, prev) =~= seq![
            ScheduleEvent { edge: ScheduleEdge::Entering, start: rs[0].0, stop: rs[0].1 },
        ]);
    } else {
        assert(!in_range(rs[0], now) && !in_range(rs[0], prev));
        assert forall|j: int|
            0 <= j < i - 1 implies !in_range(#[trigger] rs.drop_first()[j], now) && !in_range(
            rs.drop_first()[j],
            prev,
        ) by {
            assert(rs.drop_first()[j] == rs[j + 1]);
        }
        assert(rs.drop_first()[i - 1] == rs[i]);
        lemma_entering_edge(rs.drop_first(), now, prev, i - 1);
        assert(edge_events(rs, now, prev) == edge_events(rs.drop_first(), now, prev));
    }
}

/// Leaving a window: when exactly one range contains the previous tick, no
/// range contains the instant, the evaluation pass finds the schedule
/// inactive and reports exactly one exiting crossing, for that range.
pub proof fn lemma_exiting_edge(rs: Seq<(u32, u32)>, now: u32, prev: u32, i: int)
    requires
        0 <= i < rs.len(),
        in_range(rs[i], prev),
        forall|j: int| 0 <= j < rs.len() ==> !in_range(#[trigger] rs[j], now),
        forall|j: int| 0 <= j < rs.len() && j != i ==> !in_range(#[trigger] rs[j], prev),
    ensures
        !ranges_contain(rs, now),
        edge_events(rs, now, prev) == seq![
            ScheduleEvent { edge: ScheduleEdge::Exiting, start: rs[i].0, stop: rs[i].1 },
        ],
    decreases i,
{
    if i == 0 {
        assert forall|j: int|
            0 <= j < rs.drop_first().len() implies !in_range(#[trigger] rs.drop_first()[j], now)
            && !in_range(rs.drop_first()[j], prev) by {
            assert(rs.drop_first()[j] == rs[j + 1]);
        }
        lemma_no_edges(rs.drop_first(), now, prev);
        assert(edge_events(rs, now, prev) =~= seq![
            ScheduleEvent { edge: ScheduleEdge::Exiting, start: rs[0].0, stop: rs[0].1 },
        ]);
    } else {
        assert(!in_range(rs[0], now) && !in_range(rs[0], prev));
        assert forall|j: int|
            0 <= j < rs.drop_first().len() implies !in_range(
            #[trigger] rs.drop_first()[j],
            now,
        ) by {
            assert(rs.drop_first()[j] == rs[j + 1]);
        }
        assert forall|j: int|
            0 <= j < rs.drop_first().len() && j != i - 1 implies !in_range(
            #[trigger] rs.drop_first()[j],
            prev,
        ) by {
            assert(rs.drop_first()[j] == rs[j + 1]);
        }
        assert(rs.drop_first()[i - 1] == rs[i]);
        lemma_exiting_edge(rs.drop_first(), now, prev, i - 1);
        assert(edge_events(rs, now, prev) == edge_events(rs.drop_first(), now, prev));
    }
}

impl Schedule {
    /// The range list this schedule holds for the given weekday.
    pub open spec fn day_bounds(self, weekday: u8) -> Option<Bounds> {
        match weekday {
            0 => self.monday,
            1 => self.tuesday,
            2 => self.wednesday,
            3 => self.thursday,
            4 => self.friday,
            5 => self.saturday,
            _ => self.sunday,
        }
    }

    /// Whether this schedule is active at the given instant: the bounds for
    /// that weekday hold a range strictly containing the time of day.
    pub open spec fn active_at(self, now: LocalTime) -> bool {
        match self.day_bounds(now.weekday) {
            None => false,
            Some(b) => ranges_contain(b.0@, now.secs),
        }
    }

    /// The range list held for the weekday of `now`.
    pub fn bounds_for(&self, weekday: u8) -> (r: &Option<Bounds>)
        ensures
            *r == self.day_bounds(weekday),
    {
        match weekday {
            0 => &self.monday,
            1 => &self.tuesday,
            2 => &self.wednesday,
            3 => &self.thursday,
            4 => &self.friday,
            5 => &self.saturday,
            _ => &self.sunday,
        }
    }

    /// Whether this schedule is active at the given instant.
    pub fn is_active(&self, now: &LocalTime) -> (r: bool)
        ensures
            r == self.active_at(*now),
    {
        match self.bounds_for(now.weekday) {
            None => false,
            Some(b) => ranges_contain_exec(&b.0, now.secs),
        }
    }

    /// Evaluates the schedule at `now`: returns whether it is active together
    /// with the boundary crossings since the previous tick, exactly as
    /// [`edge_events`] describes them.
    pub fn evaluate(&self, now: &LocalTime) -> (r: (bool, Vec<ScheduleEvent>))
        requires
            now.wf(),
        ensures
            r.0 == self.active_at(*now),
            r.1@ == match self.day_bounds(now.weekday) {
                None => Seq::<ScheduleEvent>::empty(),
                Some(b) => edge_events(b.0@, now.secs, spec_prev_tick(now.secs)),
            },
    {
        let prev = prev_tick(now.secs);
        let mut events: Vec<ScheduleEvent> = Vec::new();
        match self.bounds_for(now.weekday) {
            None => (false, events),
            Some(b) => {
                let rs = &b.0;
                let ghost full = rs@;
                proof {
                    assert(self.day_bounds(now.weekday) == Some(*b));
                    assert((self.day_bounds(now.weekday)->0).0@ == full);
                    assert(full.skip(0) =~= full);
                    assert(events@ + edge_events(full, now.secs, spec_prev_tick(now.secs))
                        =~= edge_events(full, now.secs, spec_prev_tick(now.secs)));
                }
                let mut i: usize = 0;
                while i < rs.len()
                    invariant
                        0 <= i <= rs.len(),
                        rs@ == full,
                        self.day_bounds(now.weekday) is Some,
                        ((self.day_bounds(now.weekday))->0).0@ == full,
                        prev == spec_prev_tick(now.secs),
                        !ranges_contain(full.subrange(0, i as int), now.secs),
                        edge_events(full, now.secs, prev) == events@ + edge_events(
                            full.skip(i as int),
                            now.secs,
                            prev,
                        ),
                    decreases rs.len() - i,
                {
                    let (start, stop) = rs[i];
                    let ghost before = events@;
                    let ghost rest = full.skip(i as int);
                    proof {
                        assert(rest[0] == full[i as int]);
                        assert(rest.drop_first() =~= full.skip(i as int + 1));
                        assert(rest[0] == (start, stop));
                    }
                    if start < now.secs && now.secs < stop {
                        if !(start < prev && prev < stop) {
                            events.push(
                                ScheduleEvent {
                                    edge: ScheduleEdge::Entering,
                                    start,
                                    stop,
                                },
                            );
                            proof {
                                assert(edge_events(rest, now.secs, prev) =~= seq![
                                    ScheduleEvent {
                                        edge: ScheduleEdge::Entering,
                                        start,
                                        stop,
                                    },
                                ]);
                                assert(events@ =~= before + edge_events(rest, now.secs, prev));
                            }
                        } else {
                            proof {
                                assert(edge_events(rest, now.secs, prev)
                                    =~= Seq::<ScheduleEvent>::empty());
                                assert(events@ =~= before + edge_events(rest, now.secs, prev));
                            }
                        }
                        proof {
                            assert(in_range(full[i as int], now.secs));
                            assert(edge_events(full, now.secs, prev) =~= events@);
                            let bb = (self.day_bounds(now.weekday))->0;
                            assert(bb.0@ == full);
                            assert(in_range(bb.0@[i as int], now.secs));
                            assert(ranges_contain(bb.0@, now.secs));
                        }
                        return (true, events);
                    } else if start < prev && prev < stop {
                        events.push(
                            ScheduleEvent {
                                edge: ScheduleEdge::Exiting,
                                start,
                                stop,
                            },
                        );
                        proof {
                            assert(edge_events(rest, now.secs, prev) =~= seq![
                                ScheduleEvent {
                                    edge: ScheduleEdge::Exiting,
                                    start,
                                    stop,
                                },
                            ] + edge_events(full.skip(i as int + 1), now.secs, prev));
                            assert(events@ + edge_events(full.skip(i as int + 1), now.secs, prev)
                                =~= before + edge_events(rest, now.secs, prev));
                        }
                    } else {
                        proof {
                            assert(edge_events(rest, now.secs, prev) == edge_events(
                                full.skip(i as int + 1),
                                now.secs,
                                prev,
                            ));
                        }
                    }
                    proof {
                        assert(full.subrange(0, i as int + 1).drop_last() =~= full.subrange(
                            0,
                            i as int,
                        ));
                        assert(forall|j: int|
                            0 <= j < i as int + 1 ==> !in_range(
                                #[trigger] full.subrange(0, i as int + 1)[j],
                                now.secs,
                            ));
                    }
                    i += 1;
                }
                proof {
                    assert(full.skip(rs@.len() as int) =~= Seq::<(u32, u32)>::empty());
                    assert(full.subrange(0, full.len() as int) =~= full);
                    assert(edge_events(full, now.secs, prev) =~= events@);
                }
                (false, events)
            },
        }
    }
}

/// Whether some range of `rs` strictly contains `t`.
pub fn ranges_contain_exec(rs: &Vec<(u32, u32)>, t: u32) -> (r: bool)
    ensures
        r == ranges_contain(rs@, t),
{
    let mut i: usize = 0;
    while i < rs.len()
        invariant
            0 <= i <= rs.len(),
            !ranges_contain(rs@.subrange(0, i as int), t),
        decreases rs.len() - i,
    {
        let (start, stop) = rs[i];
        if start < t && t < stop {
            proof {
                assert(in_range(rs@[i as int], t));
            }
            return true;
        }
        proof {
            assert(forall|j: int|
                0 <= j < i as int + 1 ==> !in_range(#[trigger] rs@.subrange(0, i as int + 1)[j], t));
        }
        i += 1;
    }
    proof {
        assert(rs@.subrange(0, rs@.len() as int) =~= rs@);
    }
    false
}

/// The time one tick before `t`, wrapping past midnight.
pub fn prev_tick(t: u32) -> (r: u32)
    requires
        t < SECS_PER_DAY,
    ensures
        r == spec_prev_tick(t),
{
    (t + SECS_PER_DAY - TICK_PERIOD_SECS) % SECS_PER_DAY
}

/// The byte that separates hours from minutes in the wire format.
pub const COLON: u8 = 58;

/// The byte that separates the two ends of a range in the wire format.
pub const DASH: u8 = 45;

/// An ASCII decimal digit.
pub open spec fn is_digit(b: u8) -> bool {
    48 <= b <= 57
}

/// The numeric value of an ASCII decimal digit.
pub open spec fn digit_val(b: u8) -> u32 {
    (b - 48) as u32
}

/// Whether the eleven bytes starting at `i` have the shape `HH:MM-HH:MM`
/// with decimal digits in each `H` and `M` position.
pub open spec fn pat_at(s: Seq<u8>, i: int) -> bool {
    &&& i + 11 <= s.len()
    &&& is_digit(s[i]) && is_digit(s[i + 1]) && s[i + 2] == COLON
    &&& is_digit(s[i + 3]) && is_digit(s[i + 4]) && s[i + 5] == DASH
    &&& is_digit(s[i + 6]) && is_digit(s[i + 7]) && s[i + 8] == COLON
    &&& is_digit(s[i + 9]) && is_digit(s[i + 10])
}

/// The hour and minute values of the five bytes `HH:MM` starting at `i`.
pub open spec fn time_at(s: Seq<u8>, i: int) -> (u32, u32) {
    (
        (10 * digit_val(s[i]) + digit_val(s[i + 1])) as u32,
        (10 * digit_val(s[i + 3]) + digit_val(s[i + 4])) as u32,
    )
}

/// A time range whose hour or minute fields fall outside the 24-hour clock;
/// carries the four offending field values for reporting.
#[derive(Clone, Copy, Debug, PartialEq, Eq, Structural)]
pub struct BadTimeRange {
    pub start_hour: u32,
    pub start_min: u32,
    pub stop_hour: u32,
    pub stop_min: u32,
}

/// Whether an hour/minute pair names a 24-hour wall-clock time.
pub open spec fn valid_hm(h: u32, m: u32) -> bool {
    h <= 23 && m <= 59
}

/// Seconds since midnight of an hour/minute pair.
pub open spec fn hm_secs(h: u32, m: u32) -> u32 {
    (h * 3600 + m * 60) as u32
}

/// The ranges read from the byte text starting at position `i`: the scan
/// takes each non-overlapping leftmost occurrence of `HH:MM-HH:MM`, fails on
/// the first occurrence whose fields leave the 24-hour clock, and ignores all
/// other bytes.
pub open spec fn parse_from(s: Seq<u8>, i: int) -> Result<Seq<(u32, u32)>, BadTimeRange>
    decreases s.len() - i when 0 <= i <= s.len()
{
    if i + 11 > s.len() {
        Ok(Seq::empty())
    } else if pat_at(s, i) {
        let (h1, m1) = time_at(s, i);
        let (h2, m2) = time_at(s, i + 6);
        if !(valid_hm(h1, m1) && valid_hm(h2, m2)) {
            Err(BadTimeRange { start_hour: h1, start_min: m1, stop_hour: h2, stop_min: m2 })
        } else {
            match parse_from(s, i + 11) {
                Ok(rest) => Ok(seq![(hm_secs(h1, m1), hm_secs(h2, m2))] + rest),
                Err(e) => Err(e),
            }
        }
    } else {
        parse_from(s, i + 1)
    }
}

/// `r` with `a` prepended to its payload when it holds one.
pub open spec fn prepend_parsed(
    a: Seq<(u32, u32)>,
    r: Result<Seq<(u32, u32)>, BadTimeRange>,
) -> Result<Seq<(u32, u32)>, BadTimeRange> {
    match r {
        Ok(v) => Ok(a + v),
        Err(e) => Err(e),
    }
}

impl Bounds {
    /// Every range end is a time within the day.
    pub open spec fn wf(self) -> bool {
        forall|j: int|
            0 <= j < self.0@.len() ==> (#[trigger] self.0@[j]).0 < SECS_PER_DAY && self.0@[j].1
                < SECS_PER_DAY
    }
}

/// Whether `b` is an ASCII decimal digit.
pub fn is_digit_exec(b: u8) -> (r: bool)
    ensures
        r == is_digit(b),
{
    48 <= b && b <= 57
}

/// Whether the eleven bytes starting at `i` have the shape `HH:MM-HH:MM`.
pub fn pat_check(s: &[u8], i: usize) -> (r: bool)
    requires
        i + 11 <= s@.len(),
    ensures
        r == pat_at(s@, i as int),
{
    is_digit_exec(s[i]) && is_digit_exec(s[i + 1]) && s[i + 2] == COLON && is_digit_exec(s[i + 3])
        && is_digit_exec(s[i + 4]) && s[i + 5] == DASH && is_digit_exec(s[i + 6]) && is_digit_exec(
        s[i + 7],
    ) && s[i + 8] == COLON && is_digit_exec(s[i + 9]) && is_digit_exec(s[i + 10])
}

/// Reads a bounds declaration from its byte text, exactly as [`parse_from`]
/// describes the scan from the start of the text.
pub fn parse_bounds(s: &[u8]) -> (r: Result<Bounds, BadTimeRange>)
    ensures
        r matches Ok(b) ==> parse_from(s@, 0) matches Ok(v) && b.0@ == v && b.wf(),
        r matches Err(e) ==> parse_from(s@, 0) == Err::<Seq<(u32, u32)>, BadTimeRange>(e),
{
    let mut acc: Vec<(u32, u32)> = Vec::new();
    let mut i: usize = 0;
    proof {
        assert(prepend_parsed(acc@, parse_from(s@, 0)) == parse_from(s@, 0)) by {
            match parse_from(s@, 0) {
                Ok(v) => {
                    assert(acc@ + v =~= v);
                },
                Err(_) => {},
            }
        }
    }
    while i < s.len() && s.len() - i >= 11
        invariant
            0 <= i <= s@.len(),
            parse_from(s@, 0) == prepend_parsed(acc@, parse_from(s@, i as int)),
            forall|j: int|
                0 <= j < acc@.len() ==> (#[trigger] acc@[j]).0 < SECS_PER_DAY && acc@[j].1
                    < SECS_PER_DAY,
        decreases s@.len() - i,
    {
        if pat_check(s, i) {
            let h1 = 10 * ((s[i] - 48) as u32) + ((s[i + 1] - 48) as u32);
            let m1 = 10 * ((s[i + 3] - 48) as u32) + ((s[i + 4] - 48) as u32);
            let h2 = 10 * ((s[i + 6] - 48) as u32) + ((s[i + 7] - 48) as u32);
            let m2 = 10 * ((s[i + 9] - 48) as u32) + ((s[i + 10] - 48) as u32);
            proof {
                assert(time_at(s@, i as int) == (h1, m1));
                assert(time_at(s@, i as int + 6) == (h2, m2));
            }
            if h1 > 23 || m1 > 59 || h2 > 23 || m2 > 59 {
                return Err(
                    BadTimeRange { start_hour: h1, start_min: m1, stop_hour: h2, stop_min: m2 },
                );
            }
            let ghost acc_before = acc@;
            acc.push((h1 * 3600 + m1 * 60, h2 * 3600 + m2 * 60));
            proof {
                match parse_from(s@, i as int + 11) {
                    Ok(rest) => {
                        assert(acc@ + rest =~= acc_before + (seq![
                            (hm_secs(h1, m1), hm_secs(h2, m2)),
                        ] + rest));
                    },
                    Err(_) => {},
                }
            }
            i += 11;
        } else {
            i += 1;
        }
    }
    proof {
        assert(parse_from(s@, i as int) == Ok::<Seq<(u32, u32)>, BadTimeRange>(Seq::empty()));
        assert(acc@ + Seq::<(u32, u32)>::empty() =~= acc@);
    }
    Ok(Bounds(acc))
}

/// A time of day written as `HH:MM`, dropping the seconds.
pub open spec fn fmt_time_hm(t: u32) -> Seq<char> {
    two_digits(t as int / 3600) + seq![':'] + two_digits((t as int % 3600) / 60)
}

/// A range written as `HH:MM-HH:MM`.
pub open spec fn fmt_range(r: (u32, u32)) -> Seq<char> {
    fmt_time_hm(r.0) + seq!['-'] + fmt_time_hm(r.1)
}

/// The ranges from index `i` on, each preceded by a comma separator.
pub open spec fn fmt_bounds_rest(rs: Seq<(u32, u32)>, i: int) -> Seq<char>
    decreases rs.len() - i when i >= 0
{
    if i >= rs.len() {
        Seq::empty()
    } else {
        seq![',', ' '] + fmt_range(rs[i]) + fmt_bounds_rest(rs, i + 1)
    }
}

/// A bounds list written as comma-separated ranges.
pub open spec fn fmt_bounds(rs: Seq<(u32, u32)>) -> Seq<char> {
    if rs.len() == 0 {
        Seq::empty()
    } else {
        fmt_range(rs[0]) + fmt_bounds_rest(rs, 1)
    }
}

/// Appends a time of day as `HH:MM`.
pub fn push_time_hm(out: &mut String, t: u32)
    requires
        t < SECS_PER_DAY,
    ensures
        final(out)@ == old(out)@ + fmt_time_hm(t),
{
    push_two_digits(out, t / 3600);
    proof {
        reveal_strlit(":");
    }
    out.append(":");
    push_two_digits(out, (t % 3600) / 60);
    proof {
        assert(out@ =~= old(out)@ + fmt_time_hm(t));
    }
}

/// Appends a range as `HH:MM-HH:MM`.
pub fn push_range(out: &mut String, start: u32, stop: u32)
    requires
        start < SECS_PER_DAY,
        stop < SECS_PER_DAY,
    ensures
        final(out)@ == old(out)@ + fmt_range((start, stop)),
{
    push_time_hm(out, start);
    proof {
        reveal_strlit("-");
    }
    out.append("-");
    push_time_hm(out, stop);
    proof {
        assert(out@ =~= old(out)@ + fmt_range((start, stop)));
    }
}

/// Writes a bounds list in its wire form: ranges as `HH:MM-HH:MM`, joined by
/// commas.
pub fn format_bounds(b: &Bounds) -> (r: String)
    requires
        b.wf(),
    ensures
        r@ == fmt_bounds(b.0@),
{
    let mut out = String::new();
    if b.0.len() == 0 {
        return out;
    }
    let (start0, stop0) = b.0[0];
    push_range(&mut out, start0, stop0);
    let mut i: usize = 1;
    while i < b.0.len()
        invariant
            1 <= i <= b.0@.len(),
            b.wf(),
            b.0@.len() > 0,
            out@ + fmt_bounds_rest(b.0@, i as int) == fmt_bounds(b.0@),
        decreases b.0@.len() - i,
    {
        proof {
            reveal_strlit(", ");
            assert(", "@ =~= seq![',', ' ']);
        }
        let ghost before = out@;
        out.append(", ");
        let (start, stop) = b.0[i];
        push_range(&mut out, start, stop);
        proof {
            assert(out@ + fmt_bounds_rest(b.0@, i as int + 1) =~= before + fmt_bounds_rest(
                b.0@,
                i as int,
            ));
        }
        i += 1;
    }
    proof {
        assert(fmt_bounds_rest(b.0@, i as int) =~= Seq::<char>::empty());
        assert(out@ =~= out@ + fmt_bounds_rest(b.0@, i as int));
    }
    out
}

impl ScheduleEvent {
    /// The log line this crossing produces for the named schedule, in the
    /// form `Entering schedule 'name': 'HH:MM-HH:MM'`.
    pub fn format_message(&self, name: &str) -> (r: String)
        requires
            self.start < SECS_PER_DAY,
            self.stop < SECS_PER_DAY,
        ensures
            r@ == (match self.edge {
                ScheduleEdge::Entering => "Entering schedule '"@,
                ScheduleEdge::Exiting => "Exiting schedule '"@,
            }) + name@ + "': '"@ + fmt_range((self.start, self.stop)) + "'"@,
    {
        let mut out = String::new();
        match self.edge {
            ScheduleEdge::Entering => out.append("Entering schedule '"),
            ScheduleEdge::Exiting => out.append("Exiting schedule '"),
        }
        out.append(name);
        out.append("': '");
        push_range(&mut out, self.start, self.stop);
        out.append("'");
        proof {
            assert(out@ =~= (match self.edge {
                ScheduleEdge::Entering => "Entering schedule '"@,
                ScheduleEdge::Exiting => "Exiting schedule '"@,
            }) + name@ + "': '"@ + fmt_range((self.start, self.stop)) + "'"@);
        }
        out
    }
}

} // verus!
