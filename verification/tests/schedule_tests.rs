use theme_fader::schedule::{find_previous_event_index, ScheduleEntry, DAY_MS};
use theme_fader::state::SimulationState;
use theme_fader::theme::InterpolatableTheme;

fn entry(time: u64, fade_duration: u64) -> ScheduleEntry {
    ScheduleEntry { time, theme: InterpolatableTheme::new(), fade_duration }
}

const H: u64 = 3600000;

#[test]
fn last_entry_at_or_before_now_governs() {
    let schedule = vec![entry(7 * H, 0), entry(17 * H, 0)];
    assert_eq!(find_previous_event_index(8 * H, &schedule), 0);
    assert_eq!(find_previous_event_index(7 * H, &schedule), 0);
    assert_eq!(find_previous_event_index(17 * H, &schedule), 1);
    assert_eq!(find_previous_event_index(23 * H, &schedule), 1);
}

#[test]
fn before_the_first_entry_the_last_governs() {
    // Before the day's first event, yesterday's last event still governs.
    let schedule = vec![entry(7 * H, 0), entry(17 * H, 0)];
    assert_eq!(find_previous_event_index(3 * H, &schedule), 1);
    assert_eq!(find_previous_event_index(0, &schedule), 1);
}

#[test]
fn single_entry_always_governs() {
    let schedule = vec![entry(12 * H, 5000)];
    assert_eq!(find_previous_event_index(0, &schedule), 0);
    assert_eq!(find_previous_event_index(12 * H, &schedule), 0);
    assert_eq!(find_previous_event_index(DAY_MS - 1, &schedule), 0);
}

#[test]
fn display_idle_is_empty() {
    assert_eq!(SimulationState::Idle.display(), "");
}

#[test]
fn display_sleeping_counts_whole_seconds() {
    let s = SimulationState::Sleeping { seconds_remaining: 42 };
    assert_eq!(s.display(), "Status: Sleeping... 42s");
    let s = SimulationState::Sleeping { seconds_remaining: 0 };
    assert_eq!(s.display(), "Status: Sleeping... 0s");
    let s = SimulationState::Sleeping { seconds_remaining: 1000 };
    assert_eq!(s.display(), "Status: Sleeping... 1000s");
}

#[test]
fn display_fading_is_fixed() {
    let s = SimulationState::Fading { progress: 123 };
    assert_eq!(s.display(), "Status: Fading...");
}
