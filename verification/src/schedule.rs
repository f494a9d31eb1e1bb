//! The schedule model: an ordered list of schedule entries (time of day,
//! target theme, fade duration), logically cyclic across a 24-hour day,
//! and the lookup for which entry governs a given moment.
//!
//! A time of day is held in milliseconds since midnight, in
//! `[0, DAY_MS)`; a fade duration in milliseconds.

use vstd::prelude::*;

use crate::theme::InterpolatableTheme;

verus! {

/// Milliseconds in one day.
pub const DAY_MS: u64 = 86400000;

/// One scheduled transition: at `time` (milliseconds since midnight) the
/// `theme` becomes current, after a cross-fade of `fade_duration`
/// milliseconds ending exactly at `time`.
pub struct ScheduleEntry {
    pub time: u64,
    pub theme: InterpolatableTheme,
    pub fade_duration: u64,
}

impl ScheduleEntry {
    pub open spec fn wf(self) -> bool {
        &&& self.time < DAY_MS
        &&& self.theme.wf()
    }
}

impl Clone for ScheduleEntry {
    /// Cloning keeps the time, the theme's mapping and the fade duration.
    fn clone(&self) -> (r: Self)
        ensures
            r.time == self.time,
            r.theme@ == self.theme@,
            r.fade_duration == self.fade_duration,
            self.wf() ==> r.wf(),
    {
        ScheduleEntry {
            time: self.time,
            theme: self.theme.clone(),
            fade_duration: self.fade_duration,
        }
    }
}

/// When the fade to entry `e` begins: `e.time` minus the fade duration,
/// as time-of-day arithmetic — wrapping around midnight, the duration
/// taken modulo one day first.
pub open spec fn fade_start_of(e: ScheduleEntry) -> int {
    (e.time + DAY_MS - (e.fade_duration as int % (DAY_MS as int))) % (DAY_MS as int)
}

/// A well-formed schedule: at least one entry (an empty schedule is a
/// precondition violation, never a runtime case), every entry well-formed,
/// and entries sorted ascending by time of day.
pub open spec fn schedule_wf(s: Seq<ScheduleEntry>) -> bool {
    &&& s.len() > 0
    &&& forall|i: int| 0 <= i < s.len() ==> (#[trigger] s[i]).wf()
    &&& forall|i: int, j: int| 0 <= i <= j < s.len() ==> s[i].time <= s[j].time
}

/// The largest index below `n` whose entry's time is at or before `now`,
/// or `-1` when there is none.
pub open spec fn prev_index_upto(s: Seq<ScheduleEntry>, now: int, n: int) -> int
    decreases n,
{
    if n <= 0 {
        -1
    } else if s[n - 1].time <= now {
        n - 1
    } else {
        prev_index_upto(s, now, n - 1)
    }
}

/// The index of the entry governing `now`: the last entry whose time is at
/// or before `now`; when `now` precedes every entry's time, the final
/// index — before the day's first event the day's last event still
/// governs (the deliberate wraparound rule).
pub open spec fn spec_prev_index(s: Seq<ScheduleEntry>, now: int) -> int {
    let p = prev_index_upto(s, now, s.len() as int);
    if p == -1 {
        s.len() - 1
    } else {
        p
    }
}

proof fn lemma_prev_index_upto(s: Seq<ScheduleEntry>, now: int, n: int)
    requires
        0 <= n <= s.len(),
    ensures
        prev_index_upto(s, now, n) == -1 ==> forall|i: int| 0 <= i < n ==> (#[trigger] s[i]).time
            > now,
        prev_index_upto(s, now, n) != -1 ==> {
            let p = prev_index_upto(s, now, n);
            &&& 0 <= p < n
            &&& s[p].time <= now
            &&& forall|j: int| p < j < n ==> (#[trigger] s[j]).time > now
        },
    decreases n,
{
    if n > 0 {
        lemma_prev_index_upto(s, now, n - 1);
    }
}

/// What the governing index is: either the last entry at or before `now`,
/// with everything after it strictly later than `now`, or — when `now`
/// precedes every entry — the final index.
pub proof fn lemma_prev_index_characterization(s: Seq<ScheduleEntry>, now: int)
    requires
        s.len() > 0,
    ensures
        0 <= spec_prev_index(s, now) < s.len(),
        (exists|i: int| 0 <= i < s.len() && (#[trigger] s[i]).time <= now) ==> {
            let p = spec_prev_index(s, now);
            &&& s[p].time <= now
            &&& forall|j: int| p < j < s.len() ==> (#[trigger] s[j]).time > now
        },
        (forall|i: int| 0 <= i < s.len() ==> (#[trigger] s[i]).time > now) ==> spec_prev_index(
            s,
            now,
        ) == s.len() - 1,
{
    lemma_prev_index_upto(s, now, s.len() as int);
}

/// Find the index of the entry governing `now`: the last entry whose time
/// is at or before `now`, or the final index when `now` precedes every
/// entry's time (wraparound to the previous day's last event).
pub fn find_previous_event_index(now: u64, schedule: &Vec<ScheduleEntry>) -> (idx: usize)
    requires
        schedule@.len() > 0,
    ensures
        idx < schedule@.len(),
        idx == spec_prev_index(schedule@, now as int),
{
    let n = schedule.len();
    let mut k: usize = n;
    while k > 0
        invariant
            0 <= k <= n,
            n == schedule@.len(),
            prev_index_upto(schedule@, now as int, n as int) == prev_index_upto(
                schedule@,
                now as int,
                k as int,
            ),
        decreases k,
    {
        if schedule[k - 1].time <= now {
            return k - 1;
        }
        k = k - 1;
    }
    n - 1
}

} // verus!
