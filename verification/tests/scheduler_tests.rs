use theme_fader::color::{Color, UNIT};
use theme_fader::schedule::ScheduleEntry;
use theme_fader::scheduler::{
    initial_theme, simulation_schedule, AppMode, SchedulerCore, SchedulerEvent, ThemeScheduler,
    CATCHUP_MS, POLL_MS,
};
use theme_fader::state::SimulationState;
use theme_fader::theme::InterpolatableTheme;

fn color(s: &str) -> Color {
    Color::from_str(s).expect("color should parse")
}

fn theme_of(pairs: &[(&str, &str)]) -> InterpolatableTheme {
    let mut t = InterpolatableTheme::new();
    for (k, v) in pairs {
        t.insert(k.to_string(), color(v));
    }
    t
}

const H: u64 = 3600000;

/// Run a core against a simulated clock that advances exactly as the
/// scheduler asks, collecting every event until the run reports done.
fn run_to_completion(core: &mut SchedulerCore, start: u64) -> (Vec<SchedulerEvent>, u64) {
    let mut clock = start;
    let mut events = Vec::new();
    let mut rounds = 0u32;
    loop {
        rounds += 1;
        assert!(rounds < 100000, "runaway scheduler loop");
        let r = core.step(clock);
        events.extend(r.events);
        clock += r.sleep_ms;
        if r.done {
            return (events, clock);
        }
    }
}

#[test]
fn one_shot_run_emits_the_documented_sequence() {
    let a = theme_of(&[("text", "#ff0000")]);
    let b = theme_of(&[("text", "#0000ff")]);
    let now = 10 * H;
    let schedule = simulation_schedule(now, &a, &b, 2000, 5000);
    let mut core = SchedulerCore::new(schedule, AppMode::Interactive, 60, now);
    let (events, clock) = run_to_completion(&mut core, now);

    // Exactly one terminal Finished, and it comes last.
    assert!(matches!(events.last(), Some(SchedulerEvent::Finished)));
    let finished = events
        .iter()
        .filter(|e| matches!(e, SchedulerEvent::Finished))
        .count();
    assert_eq!(finished, 1);

    // Zero or more Sleeping events first, then a monotonically
    // non-decreasing Fading sequence ending at full progress.
    let mut saw_fading = false;
    let mut last_progress: u32 = 0;
    let mut last_theme: Option<&InterpolatableTheme> = None;
    for e in &events[..events.len() - 1] {
        match e {
            SchedulerEvent::StateChange(SimulationState::Sleeping { .. }) => {
                assert!(!saw_fading, "Sleeping after Fading began");
            }
            SchedulerEvent::StateChange(SimulationState::Fading { progress }) => {
                saw_fading = true;
                assert!(*progress >= last_progress, "progress decreased");
                last_progress = *progress;
            }
            SchedulerEvent::StateChange(SimulationState::Idle) => {
                panic!("Idle is never emitted by the scheduler");
            }
            SchedulerEvent::ThemeUpdate(t) => {
                last_theme = Some(t);
            }
            SchedulerEvent::Finished => panic!("Finished before the end"),
        }
    }
    assert_eq!(last_progress, UNIT, "fade must end at full progress");

    // The first event is a Sleeping report of the whole seconds left.
    assert!(matches!(
        events.first(),
        Some(SchedulerEvent::StateChange(SimulationState::Sleeping { seconds_remaining: 2 }))
    ));

    // The final ThemeUpdate is exactly the target theme.
    let lt = last_theme.expect("a ThemeUpdate must be emitted");
    assert_eq!(lt.get(&"text".to_string()), Some(color("#0000ff")));

    // No further events follow once the run is done.
    let r = core.step(clock % 86400000);
    assert!(r.events.is_empty());
    assert!(r.done);
}

#[test]
fn waiting_reports_poll_pacing() {
    let a = theme_of(&[("text", "#ff0000")]);
    let b = theme_of(&[("text", "#0000ff")]);
    let now = 10 * H;
    let schedule = simulation_schedule(now, &a, &b, 60000, 5000);
    let mut core = SchedulerCore::new(schedule, AppMode::Scheduler, 60, now);
    let r = core.step(now);
    assert_eq!(r.sleep_ms, POLL_MS);
    assert!(!r.done);
    assert_eq!(r.events.len(), 1);
    assert!(matches!(
        r.events[0],
        SchedulerEvent::StateChange(SimulationState::Sleeping { seconds_remaining: 60 })
    ));
}

#[test]
fn catch_up_paces_with_the_fixed_delay() {
    // A single-entry schedule whose fade window has long elapsed must not
    // spin: every catch-up round asks for the fixed pacing delay.
    let a = theme_of(&[("text", "#ff0000")]);
    let schedule = vec![ScheduleEntry { time: 0, theme: a, fade_duration: 0 }];
    let mut core = SchedulerCore::new(schedule, AppMode::Scheduler, 60, 12 * H);
    for _ in 0..3 {
        let r = core.step(12 * H);
        assert_eq!(r.sleep_ms, CATCHUP_MS);
        assert!(!r.done);
        assert_eq!(r.events.len(), 1);
        assert!(matches!(r.events[0], SchedulerEvent::ThemeUpdate(_)));
    }
}

#[test]
fn one_shot_catch_up_terminates() {
    let a = theme_of(&[("text", "#ff0000")]);
    let schedule = vec![ScheduleEntry { time: 0, theme: a, fade_duration: 0 }];
    let mut core = SchedulerCore::new(schedule, AppMode::Interactive, 60, 12 * H);
    let r = core.step(12 * H);
    assert!(r.done);
    assert_eq!(r.events.len(), 2);
    assert!(matches!(r.events[0], SchedulerEvent::ThemeUpdate(_)));
    assert!(matches!(r.events[1], SchedulerEvent::Finished));
}

#[test]
fn initial_theme_outside_a_fade_window_is_the_governing_theme() {
    let a = theme_of(&[("text", "#ff0000")]);
    let b = theme_of(&[("text", "#0000ff")]);
    let schedule = vec![
        ScheduleEntry { time: 0, theme: a, fade_duration: 0 },
        ScheduleEntry { time: 10 * H, theme: b, fade_duration: 10000 },
    ];
    // Before the window opens the governing entry's theme shows unchanged.
    let r = initial_theme(&schedule, 10 * H - 20000);
    assert_eq!(r.get(&"text".to_string()), Some(color("#ff0000")));
    // After the transition the new entry governs.
    let r = initial_theme(&schedule, 10 * H + 1);
    assert_eq!(r.get(&"text".to_string()), Some(color("#0000ff")));
}

#[test]
fn initial_theme_mid_fade_is_proportionally_between() {
    let a = theme_of(&[("text", "#ff0000")]);
    let b = theme_of(&[("text", "#0000ff")]);
    let schedule = vec![
        ScheduleEntry { time: 0, theme: a, fade_duration: 0 },
        ScheduleEntry { time: 10 * H, theme: b, fade_duration: 10000 },
    ];
    // Resume exactly halfway through the ten-second window.
    let r = initial_theme(&schedule, 10 * H - 5000);
    let c = r.get(&"text".to_string()).expect("key must be present");
    // Red's hue is 0, blue's 43690: halfway lands proportionally between,
    // strictly inside the two bounds.
    assert_eq!(c.hsla.h, 21844);
    assert!(0 < c.hsla.h && c.hsla.h < 43690);
    assert_eq!(c.hsla.s, 65535);
    assert_eq!(c.hsla.l, 32767);
}

#[test]
fn tick_delivers_events_over_the_channel() {
    let (sender, mut receiver) = futures::channel::mpsc::channel::<SchedulerEvent>(32);
    let a = theme_of(&[("text", "#ff0000")]);
    let schedule = vec![ScheduleEntry { time: 0, theme: a, fade_duration: 0 }];
    let mut ts = ThemeScheduler::new(sender, schedule, AppMode::Interactive, 60, 12 * H);
    let (sleep_ms, done) = ts.tick(12 * H);
    assert_eq!(sleep_ms, 0);
    assert!(done);
    drop(ts);
    match receiver.try_next() {
        Ok(Some(SchedulerEvent::ThemeUpdate(t))) => {
            assert_eq!(t.get(&"text".to_string()), Some(color("#ff0000")));
        }
        _ => panic!("expected the theme update first"),
    }
    match receiver.try_next() {
        Ok(Some(SchedulerEvent::Finished)) => {}
        _ => panic!("expected the terminal Finished event"),
    }
    match receiver.try_next() {
        Ok(None) => {}
        _ => panic!("expected the channel closed and drained"),
    }
}

#[test]
fn a_full_channel_drops_the_event_instead_of_blocking() {
    let (sender, mut receiver) = futures::channel::mpsc::channel::<SchedulerEvent>(0);
    let a = theme_of(&[("text", "#ff0000")]);
    let schedule = vec![ScheduleEntry { time: 0, theme: a, fade_duration: 0 }];
    let mut ts = ThemeScheduler::new(sender, schedule, AppMode::Scheduler, 60, 12 * H);
    // A zero-buffer channel takes one message per sender, then refuses.
    assert!(ts.dispatch_event(SchedulerEvent::Finished));
    assert!(!ts.dispatch_event(SchedulerEvent::Finished));
    drop(ts);
    assert!(matches!(receiver.try_next(), Ok(Some(SchedulerEvent::Finished))));
    assert!(matches!(receiver.try_next(), Ok(None)));
}
