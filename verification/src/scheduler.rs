//! The scheduler state machine: it walks the schedule, computes fade
//! windows, decides when to idle, when to fade and when to finalize, and
//! says which events to emit and how long to pause before the next
//! decision. Reading the clock, pausing and delivering events are the
//! caller's part; every decision is made here, from the current
//! wall-clock time handed in as plain milliseconds since midnight.

use vstd::prelude::*;

use vstd::arithmetic::div_mod::{lemma_div_is_ordered, lemma_div_pos_is_pos};
use vstd::arithmetic::mul::lemma_mul_inequality;

use crate::color::{spec_clamp, Color, UNIT};
use crate::schedule::{
    fade_start_of, find_previous_event_index, schedule_wf, spec_prev_index, ScheduleEntry, DAY_MS,
};
use crate::state::SimulationState;
use crate::theme::{lerp_theme, spec_lerp_theme, InterpolatableTheme};

verus! {

/// How the scheduler runs: walking the schedule forever, or performing a
/// single transition and terminating (used for live previews).
#[derive(Clone, Copy, Debug, PartialEq, Eq, Structural)]
pub enum AppMode {
    Scheduler,
    Interactive,
}

impl Default for AppMode {
    /// The continuous mode is the default.
    fn default() -> (m: AppMode)
        ensures
            m == AppMode::Scheduler,
    {
        AppMode::Scheduler
    }
}

/// What the scheduler emits towards its consumer.
pub enum SchedulerEvent {
    ThemeUpdate(InterpolatableTheme),
    StateChange(SimulationState),
    Finished,
}

/// Where in its cycle the state machine stands: before the next fade
/// window, inside it, or terminated (one-shot mode only).
#[derive(Clone, Copy, Debug, PartialEq, Eq, Structural)]
pub enum SchedulerPhase {
    Waiting,
    Fading,
    Finished,
}

/// How long to pause between wait polls, so the reported remaining time
/// stays approximately current for observers.
pub const POLL_MS: u64 = 100;

/// How long to pause after a catch-up advance, so a degenerate schedule
/// (one whose fade window already elapsed) is paced instead of spinning.
pub const CATCHUP_MS: u64 = 1000;

/// One decision of the state machine: the events to emit, in order; how
/// many milliseconds to pause before asking again; and whether the run is
/// over (one-shot mode only).
pub struct StepResult {
    pub events: Vec<SchedulerEvent>,
    pub sleep_ms: u64,
    pub done: bool,
}

/// The scheduler's whole state: the (read-only) schedule, the mode, the
/// frame rate governing fade update cadence, the index of the governing
/// entry, and the phase.
pub struct SchedulerCore {
    pub schedule: Vec<ScheduleEntry>,
    pub app_mode: AppMode,
    pub target_fps: u32,
    pub current_idx: usize,
    pub phase: SchedulerPhase,
}

/// The pause between fade frames: `1000 / target_fps` milliseconds, at
/// least one.
pub open spec fn spec_frame_sleep(fps: int) -> int {
    let q = 1000int / fps;
    if q < 1 {
        1
    } else {
        q
    }
}

/// Fade progress against entry `e` at time `now`: elapsed time inside the
/// window over the whole fade duration, at scale `UNIT`, clamped to
/// `[0, UNIT]`; a zero fade duration means an instantaneous transition,
/// already complete.
pub open spec fn spec_progress_at(e: ScheduleEntry, now: int) -> int {
    let fs = fade_start_of(e);
    let dur = e.fade_duration as int;
    if dur == 0 {
        UNIT as int
    } else {
        let elapsed = if now <= fs {
            0
        } else {
            now - fs
        };
        spec_clamp(elapsed * UNIT / dur)
    }
}

impl SchedulerCore {
    /// The index after the governing one, cyclically.
    pub open spec fn spec_next_idx(self) -> int {
        (self.current_idx as int + 1) % (self.schedule@.len() as int)
    }

    /// The entry whose transition comes next.
    pub open spec fn next_entry(self) -> ScheduleEntry {
        self.schedule@[self.spec_next_idx()]
    }

    /// The entry governing right now (the fade starts from its theme).
    pub open spec fn prev_entry(self) -> ScheduleEntry {
        self.schedule@[self.current_idx as int]
    }

    /// When the next fade window opens.
    pub open spec fn fade_start(self) -> int {
        fade_start_of(self.next_entry())
    }

    /// When the next fade window closes: the next entry's own time.
    pub open spec fn fade_end(self) -> int {
        self.next_entry().time as int
    }

    /// One-shot mode: terminate after a single fade-and-finalize cycle.
    pub open spec fn one_shot(self) -> bool {
        self.app_mode is Interactive
    }

    /// The schedule, the mode and the frame rate never change over a run.
    pub open spec fn unchanged_config(self, other: Self) -> bool {
        &&& self.schedule == other.schedule
        &&& self.app_mode == other.app_mode
        &&& self.target_fps == other.target_fps
    }

    /// Well-formedness: a well-formed schedule, the governing index in
    /// range, a usable frame rate, and — while fading — an actually open
    /// fade window.
    pub open spec fn wf(self) -> bool {
        &&& schedule_wf(self.schedule@)
        &&& self.current_idx < self.schedule@.len()
        &&& self.target_fps >= 1
        &&& (self.phase is Fading ==> self.fade_start() < self.fade_end())
    }

    /// Build a scheduler over a schedule, starting from the entry
    /// governing `now`.
    pub fn new(schedule: Vec<ScheduleEntry>, app_mode: AppMode, target_fps: u32, now: u64) -> (c:
        SchedulerCore)
        requires
            schedule_wf(schedule@),
            target_fps >= 1,
            now < DAY_MS,
        ensures
            c.wf(),
            c.schedule == schedule,
            c.app_mode == app_mode,
            c.target_fps == target_fps,
            c.current_idx == spec_prev_index(schedule@, now as int),
            c.phase is Waiting,
    {
        let current_idx = find_previous_event_index(now, &schedule);
        SchedulerCore {
            schedule,
            app_mode,
            target_fps,
            current_idx,
            phase: SchedulerPhase::Waiting,
        }
    }

    /// The state after one decision at time `now`: unchanged while
    /// waiting or mid-fade; into the fade phase when the window has
    /// opened; past the transition — index advanced, back to waiting or
    /// terminated — when the window has closed.
    pub open spec fn spec_step_state(self, now: int) -> SchedulerCore {
        let fs = self.fade_start();
        let fe = self.fade_end();
        if self.phase is Waiting {
            if now < fs {
                self
            } else if now < fe {
                SchedulerCore { phase: SchedulerPhase::Fading, ..self }
            } else {
                SchedulerCore {
                    current_idx: self.spec_next_idx() as usize,
                    phase: if self.one_shot() {
                        SchedulerPhase::Finished
                    } else {
                        SchedulerPhase::Waiting
                    },
                    ..self
                }
            }
        } else if self.phase is Fading {
            if now < fe {
                self
            } else {
                SchedulerCore {
                    current_idx: self.spec_next_idx() as usize,
                    phase: if self.one_shot() {
                        SchedulerPhase::Finished
                    } else {
                        SchedulerPhase::Waiting
                    },
                    ..self
                }
            }
        } else {
            self
        }
    }

    /// How long one decision at time `now` asks the caller to pause:
    /// the short poll while waiting, the frame pause while fading, the
    /// catch-up pause after a missed window, nothing otherwise.
    pub open spec fn spec_step_sleep(self, now: int) -> int {
        let fs = self.fade_start();
        let fe = self.fade_end();
        if self.phase is Waiting {
            if now < fs {
                POLL_MS as int
            } else if now < fe {
                0
            } else if self.one_shot() {
                0
            } else {
                CATCHUP_MS as int
            }
        } else if self.phase is Fading {
            if now < fe {
                spec_frame_sleep(self.target_fps as int)
            } else {
                0
            }
        } else {
            0
        }
    }

    /// Whether the run is over after one decision at time `now`: only in
    /// one-shot mode, and exactly when the transition completes (or the
    /// machine had already terminated).
    pub open spec fn spec_step_done(self, now: int) -> bool {
        if self.phase is Waiting {
            now >= self.fade_start() && now >= self.fade_end() && self.one_shot()
        } else if self.phase is Fading {
            now >= self.fade_end() && self.one_shot()
        } else {
            true
        }
    }

    /// One decision of the run loop, from the current time of day.
    ///
    /// Waiting, before the window: report the whole seconds left and poll
    /// again shortly. Waiting, inside the window: begin fading. Waiting,
    /// past the window (catch-up): emit the next theme, advance, and pace
    /// the next round — or finish, in one-shot mode. Fading, inside the
    /// window: emit the interpolated theme and the progress, paced by the
    /// frame rate. Fading, past the window: emit the exact target theme
    /// (no interpolation residue), progress complete, advance — or
    /// finish. Finished: nothing, ever again.
    pub fn step(&mut self, now: u64) -> (r: StepResult)
        requires
            old(self).wf(),
            now < DAY_MS,
        ensures
            final(self).wf(),
            final(self).unchanged_config(*old(self)),
            *final(self) == old(self).spec_step_state(now as int),
            r.sleep_ms == old(self).spec_step_sleep(now as int),
            r.done == old(self).spec_step_done(now as int),
            ({
                let pre = *old(self);
                let fs = pre.fade_start();
                let fe = pre.fade_end();
                if pre.phase is Waiting {
                    if now < fs {
                        &&& r.events@.len() == 1
                        &&& r.events@[0] == SchedulerEvent::StateChange(
                            SimulationState::Sleeping {
                                seconds_remaining: ((fs - now + 999) / 1000) as usize,
                            },
                        )
                    } else if now < fe {
                        r.events@.len() == 0
                    } else {
                        &&& r.events@.len() == if pre.one_shot() {
                            2int
                        } else {
                            1int
                        }
                        &&& r.events@[0] is ThemeUpdate
                        &&& (r.events@[0]->ThemeUpdate_0)@ == pre.next_entry().theme@
                        &&& (r.events@[0]->ThemeUpdate_0).wf()
                        &&& (pre.one_shot() ==> r.events@[1] is Finished)
                    }
                } else if pre.phase is Fading {
                    if now < fe {
                        let t = spec_progress_at(pre.next_entry(), now as int);
                        &&& r.events@.len() == 2
                        &&& r.events@[0] is ThemeUpdate
                        &&& (r.events@[0]->ThemeUpdate_0)@ == spec_lerp_theme(
                            pre.prev_entry().theme@,
                            pre.next_entry().theme@,
                            t,
                        )
                        &&& (r.events@[0]->ThemeUpdate_0).wf()
                        &&& r.events@[1] == SchedulerEvent::StateChange(
                            SimulationState::Fading { progress: t as u32 },
                        )
                    } else {
                        &&& r.events@.len() == if pre.one_shot() {
                            3int
                        } else {
                            2int
                        }
                        &&& r.events@[0] is ThemeUpdate
                        &&& (r.events@[0]->ThemeUpdate_0)@ == pre.next_entry().theme@
                        &&& (r.events@[0]->ThemeUpdate_0).wf()
                        &&& r.events@[1] == SchedulerEvent::StateChange(
                            SimulationState::Fading { progress: UNIT },
                        )
                        &&& (pre.one_shot() ==> r.events@[2] is Finished)
                    }
                } else {
                    r.events@.len() == 0
                }
            }),
    {
        let len = self.schedule.len();
        let nidx = (self.current_idx + 1) % len;
        let next_time = self.schedule[nidx].time;
        let next_fade = self.schedule[nidx].fade_duration;
        let fs: u64 = (next_time + DAY_MS - next_fade % DAY_MS) % DAY_MS;
        match self.phase {
            SchedulerPhase::Waiting => {
                if now < fs {
                    let secs: u64 = (fs - now + 999) / 1000;
                    let mut events: Vec<SchedulerEvent> = Vec::new();
                    events.push(
                        SchedulerEvent::StateChange(
                            SimulationState::Sleeping { seconds_remaining: secs as usize },
                        ),
                    );
                    StepResult { events, sleep_ms: POLL_MS, done: false }
                } else if now < next_time {
                    self.phase = SchedulerPhase::Fading;
                    StepResult { events: Vec::new(), sleep_ms: 0, done: false }
                } else {
                    let mut events: Vec<SchedulerEvent> = Vec::new();
                    events.push(SchedulerEvent::ThemeUpdate(self.schedule[nidx].theme.clone()));
                    self.current_idx = nidx;
                    if self.app_mode == AppMode::Interactive {
                        events.push(SchedulerEvent::Finished);
                        self.phase = SchedulerPhase::Finished;
                        StepResult { events, sleep_ms: 0, done: true }
                    } else {
                        StepResult { events, sleep_ms: CATCHUP_MS, done: false }
                    }
                }
            },
            SchedulerPhase::Fading => {
                if now < next_time {
                    proof {
                        if next_fade % DAY_MS == 0 {
                            assert(fs == next_time);
                        }
                    }
                    let elapsed: u64 = if now <= fs {
                        0
                    } else {
                        now - fs
                    };
                    let q: u64 = elapsed * (UNIT as u64) / next_fade;
                    let t: u32 = if q > UNIT as u64 {
                        UNIT
                    } else {
                        q as u32
                    };
                    let lerped = lerp_theme(
                        &self.schedule[self.current_idx].theme,
                        &self.schedule[nidx].theme,
                        t as i64,
                    );
                    let mut events: Vec<SchedulerEvent> = Vec::new();
                    events.push(SchedulerEvent::ThemeUpdate(lerped));
                    events.push(
                        SchedulerEvent::StateChange(SimulationState::Fading { progress: t }),
                    );
                    let q_fps: u32 = 1000 / self.target_fps;
                    let sleep_ms: u64 = if q_fps < 1 {
                        1
                    } else {
                        q_fps as u64
                    };
                    StepResult { events, sleep_ms, done: false }
                } else {
                    let mut events: Vec<SchedulerEvent> = Vec::new();
                    events.push(SchedulerEvent::ThemeUpdate(self.schedule[nidx].theme.clone()));
                    events.push(
                        SchedulerEvent::StateChange(SimulationState::Fading { progress: UNIT }),
                    );
                    self.current_idx = nidx;
                    if self.app_mode == AppMode::Interactive {
                        events.push(SchedulerEvent::Finished);
                        self.phase = SchedulerPhase::Finished;
                        StepResult { events, sleep_ms: 0, done: true }
                    } else {
                        self.phase = SchedulerPhase::Waiting;
                        StepResult { events, sleep_ms: 0, done: false }
                    }
                }
            },
            SchedulerPhase::Finished => StepResult {
                events: Vec::new(),
                sleep_ms: 0,
                done: true,
            },
        }
    }
}

#[verifier::external_type_specification]
#[verifier::external_body]
#[verifier::reject_recursive_types(T)]
pub struct ExSender<T>(futures::channel::mpsc::Sender<T>);

/// The scheduler service: the verified state machine together with the
/// consumer's bounded event channel. A driving loop reads the clock,
/// calls [`ThemeScheduler::tick`] and pauses as told; every decision and
/// every emitted event comes from here, and the scheduler never calls
/// back into consumer state.
pub struct ThemeScheduler {
    pub core: SchedulerCore,
    pub event_sender: futures::channel::mpsc::Sender<SchedulerEvent>,
}

/// Relies on futures::channel::mpsc::Sender::try_send: a non-blocking
/// attempt to send that returns `Err` — handing the message back — when
/// the channel is full or the receiver is gone; it never waits.
#[verifier::external_body]
fn try_send_event(
    sender: &mut futures::channel::mpsc::Sender<SchedulerEvent>,
    event: SchedulerEvent,
) -> (delivered: bool) {
    sender.try_send(event).is_ok()
}

impl ThemeScheduler {
    /// Pair the state machine, started from the entry governing `now`,
    /// with the consumer's event channel.
    pub fn new(
        event_sender: futures::channel::mpsc::Sender<SchedulerEvent>,
        schedule: Vec<ScheduleEntry>,
        app_mode: AppMode,
        target_fps: u32,
        now: u64,
    ) -> (s: ThemeScheduler)
        requires
            schedule_wf(schedule@),
            target_fps >= 1,
            now < DAY_MS,
        ensures
            s.core.wf(),
            s.core.schedule == schedule,
            s.core.app_mode == app_mode,
            s.core.target_fps == target_fps,
            s.core.current_idx == spec_prev_index(schedule@, now as int),
            s.core.phase is Waiting,
    {
        ThemeScheduler { core: SchedulerCore::new(schedule, app_mode, target_fps, now), event_sender }
    }

    /// Hand one event towards the consumer. A full channel drops the
    /// event rather than stalling the scheduler's timing: correctness of
    /// the wall-clock behavior takes priority over delivering every
    /// intermediate fade frame.
    pub fn dispatch_event(&mut self, event: SchedulerEvent) -> (delivered: bool)
        ensures
            final(self).core == old(self).core,
    {
        try_send_event(&mut self.event_sender, event)
    }

    /// One round of the run loop: decide at time `now`, emit each decided
    /// event in order (dropping any the full channel refuses), and report
    /// how long to pause and whether the run is over.
    pub fn tick(&mut self, now: u64) -> (r: (u64, bool))
        requires
            old(self).core.wf(),
            now < DAY_MS,
        ensures
            final(self).core == old(self).core.spec_step_state(now as int),
            final(self).core.wf(),
            r.0 == old(self).core.spec_step_sleep(now as int),
            r.1 == old(self).core.spec_step_done(now as int),
    {
        let step = self.core.step(now);
        let ghost core_after = self.core;
        let mut events = step.events;
        while events.len() > 0
            invariant
                self.core == core_after,
            decreases events.len(),
        {
            let event = events.remove(0);
            try_send_event(&mut self.event_sender, event);
        }
        (step.sleep_ms, step.done)
    }
}

/// Fade progress lies in `[0, UNIT]` and never decreases as time
/// advances: within one fade window the reported progress values form a
/// monotonically non-decreasing sequence.
pub proof fn lemma_progress_monotone(e: ScheduleEntry, n1: int, n2: int)
    requires
        n1 <= n2,
    ensures
        0 <= spec_progress_at(e, n1) <= UNIT,
        spec_progress_at(e, n1) <= spec_progress_at(e, n2),
{
    let dur = e.fade_duration as int;
    if dur != 0 {
        let fs = fade_start_of(e);
        let e1 = if n1 <= fs {
            0
        } else {
            n1 - fs
        };
        let e2 = if n2 <= fs {
            0
        } else {
            n2 - fs
        };
        lemma_mul_inequality(e1, e2, UNIT as int);
        lemma_div_is_ordered(e1 * UNIT, e2 * UNIT, dur);
        lemma_div_pos_is_pos(e1 * UNIT, dur);
        lemma_div_pos_is_pos(e2 * UNIT, dur);
    }
}

/// In one-shot mode the machine never returns to the waiting phase once a
/// fade has begun: no Sleeping report can follow the first Fading report,
/// and nothing at all follows termination.
pub proof fn lemma_one_shot_phases_advance(c: SchedulerCore, now: int)
    requires
        c.one_shot(),
        !(c.phase is Waiting),
    ensures
        !(c.spec_step_state(now).phase is Waiting),
{
}

/// The continuous mode has no termination: no decision ever reports the
/// run over, and the machine never reaches the terminated phase — ending
/// is expected to coincide with process shutdown alone.
pub proof fn lemma_continuous_never_done(c: SchedulerCore, now: int)
    requires
        !c.one_shot(),
        !(c.phase is Finished),
    ensures
        !c.spec_step_done(now),
        !(c.spec_step_state(now).phase is Finished),
{
}

/// The theme a consumer should start from at time `now`: when `now` falls
/// inside the upcoming fade window, the interpolation of the two bounding
/// themes at the elapsed share of the window — so a late-starting
/// observer is not shown a stale pre-fade theme; otherwise the governing
/// entry's theme unchanged.
pub open spec fn spec_initial_theme(s: Seq<ScheduleEntry>, now: int) -> Map<Seq<char>, Color> {
    let i = spec_prev_index(s, now);
    let next = s[(i + 1) % (s.len() as int)];
    let fs = fade_start_of(next);
    if fs <= now < next.time {
        spec_lerp_theme(s[i].theme@, next.theme@, spec_progress_at(next, now))
    } else {
        s[i].theme@
    }
}

/// Compute the theme to show at time `now`, before any scheduler events
/// have arrived.
pub fn initial_theme(schedule: &Vec<ScheduleEntry>, now: u64) -> (r: InterpolatableTheme)
    requires
        schedule_wf(schedule@),
        now < DAY_MS,
    ensures
        r.wf(),
        r@ == spec_initial_theme(schedule@, now as int),
{
    let idx = find_previous_event_index(now, schedule);
    let len = schedule.len();
    let nidx = (idx + 1) % len;
    let next_time = schedule[nidx].time;
    let next_fade = schedule[nidx].fade_duration;
    let fs: u64 = (next_time + DAY_MS - next_fade % DAY_MS) % DAY_MS;
    if fs <= now && now < next_time {
        proof {
            if next_fade % DAY_MS == 0 {
                assert(fs == next_time);
            }
        }
        let elapsed: u64 = if now <= fs {
            0
        } else {
            now - fs
        };
        let q: u64 = elapsed * (UNIT as u64) / next_fade;
        let t: u32 = if q > UNIT as u64 {
            UNIT
        } else {
            q as u32
        };
        lerp_theme(&schedule[idx].theme, &schedule[nidx].theme, t as i64)
    } else {
        schedule[idx].theme.clone()
    }
}

/// A run resumed inside a fade window starts from the interpolation of
/// the two bounding themes at exactly the elapsed share of the window,
/// never from a stale pre-fade theme.
pub proof fn lemma_initial_theme_mid_fade(s: Seq<ScheduleEntry>, now: int)
    requires
        schedule_wf(s),
        ({
            let i = spec_prev_index(s, now);
            let next = s[(i + 1) % (s.len() as int)];
            fade_start_of(next) <= now < next.time
        }),
    ensures
        ({
            let i = spec_prev_index(s, now);
            let next = s[(i + 1) % (s.len() as int)];
            let t = spec_progress_at(next, now);
            &&& spec_initial_theme(s, now) == spec_lerp_theme(s[i].theme@, next.theme@, t)
            &&& 0 <= t <= UNIT
        }),
{
    let i = spec_prev_index(s, now);
    let next = s[(i + 1) % (s.len() as int)];
    lemma_progress_monotone(next, now, now);
}

/// Build the ad-hoc two-entry preview schedule: a first entry at `now`
/// applying the start theme at once, and a second `sleep_ms + fade_ms`
/// later applying the end theme after a fade of `fade_ms`.
pub fn simulation_schedule(
    now: u64,
    start_theme: &InterpolatableTheme,
    end_theme: &InterpolatableTheme,
    sleep_ms: u64,
    fade_ms: u64,
) -> (s: Vec<ScheduleEntry>)
    requires
        start_theme.wf(),
        end_theme.wf(),
        now + sleep_ms + fade_ms < DAY_MS,
    ensures
        schedule_wf(s@),
        s@.len() == 2,
        s@[0].time == now,
        s@[0].theme@ == start_theme@,
        s@[0].fade_duration == 0,
        s@[1].time == now + sleep_ms + fade_ms,
        s@[1].theme@ == end_theme@,
        s@[1].fade_duration == fade_ms,
{
    let mut s: Vec<ScheduleEntry> = Vec::new();
    s.push(ScheduleEntry { time: now, theme: start_theme.clone(), fade_duration: 0 });
    s.push(
        ScheduleEntry {
            time: now + sleep_ms + fade_ms,
            theme: end_theme.clone(),
            fade_duration: fade_ms,
        },
    );
    s
}

} // verus!
