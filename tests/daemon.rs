use std::time::Duration;
use vitamink::daemon::{Action, Config, Daemon, Effect, State};
use vitamink::display::DpmsState;

fn config() -> Config {
    Config::default()
}

#[test]
fn test_state_display() {
    assert_eq!(format!("{}", State::AtDesk.label()), "AtDesk");
    assert_eq!(format!("{}", State::Away.label()), "Away");
}

#[test]
fn test_default_config() {
    let config = Config::default();
    assert_eq!(config.main_display, "DP-2");
    assert_eq!(config.dummy_plug, "HDMI-A-1");
    assert_eq!(Duration::from_millis(config.poll_interval_ms), Duration::from_secs(5));
    assert_eq!(Duration::from_millis(config.grace_period_ms), Duration::from_secs(10));
}

#[test]
fn initial_state_from_reading() {
    assert_eq!(Daemon::new(config(), DpmsState::On).current_state(), State::AtDesk);
    assert_eq!(Daemon::new(config(), DpmsState::Unknown).current_state(), State::AtDesk);
    assert_eq!(Daemon::new(config(), DpmsState::Off).current_state(), State::Away);
    assert_eq!(Daemon::new(config(), DpmsState::Off).pending_since(), None);
}

#[test]
fn scenario_away_after_grace() {
    let mut d = Daemon::new(config(), DpmsState::On);
    assert_eq!(d.current_state(), State::AtDesk);
    assert_eq!(d.poll(DpmsState::Off, 1000), Action::StartedWaiting);
    assert_eq!(d.poll(DpmsState::Off, 6000), Action::Waiting(5000));
    assert_eq!(d.poll(DpmsState::Off, 10999), Action::Waiting(1));
    assert_eq!(d.current_state(), State::AtDesk);
    assert_eq!(d.poll(DpmsState::Off, 11000), Action::Commit(State::Away));
    assert_eq!(d.current_state(), State::Away);
    assert_eq!(d.pending_since(), None);
    assert_eq!(d.apply_state(false), vec![Effect::EnableOutput, Effect::StartService]);
    assert_eq!(d.poll(DpmsState::Off, 20000), Action::Steady);
}

#[test]
fn scenario_back_at_desk() {
    let mut d = Daemon::new(config(), DpmsState::Off);
    assert_eq!(d.poll(DpmsState::On, 0), Action::StartedWaiting);
    assert_eq!(d.poll(DpmsState::On, 10000), Action::Commit(State::AtDesk));
    assert_eq!(d.apply_state(true), vec![Effect::StopService, Effect::DisableOutput]);
    assert_eq!(d.apply_state(false), vec![Effect::DisableOutput]);
}

#[test]
fn scenario_flap_cancels() {
    let mut d = Daemon::new(config(), DpmsState::On);
    assert_eq!(d.poll(DpmsState::Off, 0), Action::StartedWaiting);
    assert_eq!(d.pending_since(), Some(0));
    assert_eq!(d.poll(DpmsState::On, 3000), Action::Steady);
    assert_eq!(d.pending_since(), None);
    assert_eq!(d.current_state(), State::AtDesk);
    assert_eq!(d.poll(DpmsState::Off, 12000), Action::StartedWaiting);
}

#[test]
fn unknown_holds_everything() {
    let mut d = Daemon::new(config(), DpmsState::On);
    d.poll(DpmsState::Off, 500);
    for t in 0..5u64 {
        assert_eq!(d.poll(DpmsState::Unknown, 100_000 + t), Action::Hold);
        assert_eq!(d.pending_since(), Some(500));
        assert_eq!(d.current_state(), State::AtDesk);
    }
}

#[test]
fn clock_going_back_counts_as_no_time() {
    let mut d = Daemon::new(config(), DpmsState::On);
    d.poll(DpmsState::Off, 5000);
    assert_eq!(d.poll(DpmsState::Off, 1000), Action::Waiting(10000));
}
