use rpg_raid_shop::dodge::{dodge_may_start, DodgeClock};
use rpg_raid_shop::time_span::TimeSpan;

fn ms(millis: u64) -> TimeSpan {
    TimeSpan::from_millis(millis)
}

#[test]
fn dodge_starts_only_when_idle_ready_and_aimed() {
    assert!(dodge_may_start(false, true, false));
    assert!(!dodge_may_start(true, true, false));
    assert!(!dodge_may_start(false, false, false));
    assert!(!dodge_may_start(false, true, true));
}

#[test]
fn fresh_clock_is_idle_and_ready() {
    let clock = DodgeClock::new(ms(200), ms(1100));
    assert!(!clock.is_active());
    assert!(clock.is_ready());
    assert!(clock.just_ended());
}

#[test]
fn dash_lasts_its_duration_then_cooldown_runs() {
    let mut clock = DodgeClock::new(ms(200), ms(1100));
    clock.tick(ms(16));
    assert!(!clock.just_ended());
    assert!(!clock.request(true));
    assert!(clock.request(false));
    assert!(clock.is_active());
    // A second request during the dash is ignored.
    assert!(!clock.request(false));
    clock.tick(ms(150));
    assert!(clock.is_active());
    assert!(!clock.just_ended());
    clock.tick(ms(60));
    assert!(!clock.is_active());
    assert!(clock.just_ended());
    // The cooldown restarted when the dash ended, and has run 60 ms.
    assert!(!clock.is_ready());
    assert!(!clock.request(false));
    clock.tick(ms(1000));
    assert!(!clock.is_ready());
    assert!(!clock.just_ended());
    clock.tick(ms(40));
    assert!(clock.is_ready());
    assert!(clock.request(false));
    assert!(clock.is_active());
}
