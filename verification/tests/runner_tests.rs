use ssh_channels_hub::backoff::BackoffPolicy;
use ssh_channels_hub::config::ReconnectionConfig;
use ssh_channels_hub::runner::{
    ChannelRunner, RunnerAction, RunnerEvent, RunnerPhase, CYCLE_PAUSE_SECS,
};

fn exponential(max_retries: u32) -> BackoffPolicy {
    BackoffPolicy {
        use_exponential: true,
        initial_delay_secs: 1,
        max_delay_secs: 30,
        max_retries,
    }
}

#[test]
fn test_backoff_exponential_doubles_and_caps() {
    let p = exponential(0);
    let delays: Vec<u64> = (1..=7).map(|k| p.delay_for_retry(k)).collect();
    assert_eq!(delays, vec![1, 2, 4, 8, 16, 30, 30]);
}

#[test]
fn test_backoff_fixed_interval() {
    let p = BackoffPolicy {
        use_exponential: false,
        initial_delay_secs: 5,
        max_delay_secs: 30,
        max_retries: 0,
    };
    assert_eq!(p.delay_for_retry(1), 5);
    assert_eq!(p.delay_for_retry(10), 5);
}

#[test]
fn test_backoff_ceiling_zero_means_unlimited() {
    let p = exponential(0);
    assert!(!p.attempts_exhausted(0));
    assert!(!p.attempts_exhausted(1_000_000));
    let q = exponential(2);
    assert!(!q.attempts_exhausted(1));
    assert!(!q.attempts_exhausted(2));
    assert!(q.attempts_exhausted(3));
}

#[test]
fn test_backoff_from_config_copies_settings() {
    let rc = ReconnectionConfig {
        max_retries: 4,
        initial_delay_secs: 2,
        max_delay_secs: 60,
        use_exponential_backoff: false,
    };
    let p = BackoffPolicy::from_config(&rc);
    assert_eq!(p.max_retries, 4);
    assert_eq!(p.initial_delay_secs, 2);
    assert_eq!(p.max_delay_secs, 60);
    assert!(!p.use_exponential);
}

#[test]
fn test_runner_happy_path_reaches_active() {
    let mut r = ChannelRunner::new(exponential(0));
    assert_eq!(r.phase, RunnerPhase::Idle);
    assert_eq!(r.step(RunnerEvent::Started), RunnerAction::Connect);
    assert_eq!(r.step(RunnerEvent::ConnectSucceeded), RunnerAction::Authenticate);
    assert_eq!(r.step(RunnerEvent::AuthSucceeded), RunnerAction::OpenChannel);
    assert_eq!(r.step(RunnerEvent::ChannelOpened(None)), RunnerAction::RunDuty);
    assert_eq!(r.phase, RunnerPhase::ChannelActive);
}

#[test]
fn test_exhausted_budget_pauses_then_retries_fresh() {
    // Three connect failures under max_retries = 2, then success:
    // the runner still reaches the active phase, because the pause
    // after an exhausted cycle starts a new cycle with a fresh
    // budget — it never settles in a permanent failure.
    let mut r = ChannelRunner::new(exponential(2));
    assert_eq!(r.step(RunnerEvent::Started), RunnerAction::Connect);
    assert_eq!(
        r.step(RunnerEvent::ConnectFailed("refused".to_string())),
        RunnerAction::SleepBackoff(1)
    );
    assert_eq!(r.step(RunnerEvent::BackoffElapsed), RunnerAction::Connect);
    assert_eq!(
        r.step(RunnerEvent::ConnectFailed("refused".to_string())),
        RunnerAction::SleepBackoff(2)
    );
    assert_eq!(r.step(RunnerEvent::BackoffElapsed), RunnerAction::Connect);
    // Third failure exhausts the budget of this cycle.
    assert_eq!(
        r.step(RunnerEvent::ConnectFailed("refused".to_string())),
        RunnerAction::PauseCycle(CYCLE_PAUSE_SECS)
    );
    assert_eq!(r.phase, RunnerPhase::CyclePause);
    assert_ne!(r.phase, RunnerPhase::Stopped);
    // The pause ends: a fresh cycle begins with a reset budget.
    assert_eq!(r.step(RunnerEvent::PauseElapsed), RunnerAction::Connect);
    assert_eq!(r.failures, 0);
    assert_eq!(r.step(RunnerEvent::ConnectSucceeded), RunnerAction::Authenticate);
    assert_eq!(r.step(RunnerEvent::AuthSucceeded), RunnerAction::OpenChannel);
    assert_eq!(r.step(RunnerEvent::ChannelOpened(None)), RunnerAction::RunDuty);
    assert_eq!(r.phase, RunnerPhase::ChannelActive);
}

#[test]
fn test_remote_forward_reports_granted_port() {
    // The remote grants port 0 (host-chosen) although 8022 was
    // requested: the runner reports the granted value, never the
    // requested one.
    let mut r = ChannelRunner::new(exponential(0));
    r.step(RunnerEvent::Started);
    r.step(RunnerEvent::ConnectSucceeded);
    r.step(RunnerEvent::AuthSucceeded);
    assert_eq!(r.step(RunnerEvent::ChannelOpened(Some(0))), RunnerAction::RunDuty);
    assert_eq!(r.reported_remote_port, Some(0));
}

#[test]
fn test_duty_end_starts_a_new_cycle_after_pause() {
    let mut r = ChannelRunner::new(exponential(0));
    r.step(RunnerEvent::Started);
    r.step(RunnerEvent::ConnectSucceeded);
    r.step(RunnerEvent::AuthSucceeded);
    r.step(RunnerEvent::ChannelOpened(None));
    assert_eq!(
        r.step(RunnerEvent::DutyEnded(Some("connection reset".to_string()))),
        RunnerAction::PauseCycle(CYCLE_PAUSE_SECS)
    );
    assert_eq!(r.phase, RunnerPhase::CyclePause);
    assert_eq!(r.last_error, Some("connection reset".to_string()));
    assert_eq!(r.step(RunnerEvent::PauseElapsed), RunnerAction::Connect);
}

#[test]
fn test_cancellation_stops_from_any_phase() {
    let mut r = ChannelRunner::new(exponential(0));
    r.step(RunnerEvent::Started);
    assert_eq!(r.step(RunnerEvent::Cancelled), RunnerAction::Halt);
    assert_eq!(r.phase, RunnerPhase::Stopped);

    let mut r = ChannelRunner::new(exponential(0));
    r.step(RunnerEvent::Started);
    r.step(RunnerEvent::ConnectFailed("x".to_string()));
    assert_eq!(r.step(RunnerEvent::Cancelled), RunnerAction::Halt);
    assert_eq!(r.phase, RunnerPhase::Stopped);

    // Once stopped, every further event just halts.
    assert_eq!(r.step(RunnerEvent::BackoffElapsed), RunnerAction::Halt);
    assert_eq!(r.phase, RunnerPhase::Stopped);
}

#[test]
fn test_auth_failures_retry_like_connect_failures() {
    let mut r = ChannelRunner::new(exponential(0));
    r.step(RunnerEvent::Started);
    r.step(RunnerEvent::ConnectSucceeded);
    assert_eq!(
        r.step(RunnerEvent::AuthFailed("bad credentials".to_string())),
        RunnerAction::SleepBackoff(1)
    );
    assert_eq!(r.phase, RunnerPhase::BackoffWait);
    assert_eq!(r.step(RunnerEvent::BackoffElapsed), RunnerAction::Connect);
    r.step(RunnerEvent::ConnectSucceeded);
    r.step(RunnerEvent::AuthSucceeded);
    assert_eq!(
        r.step(RunnerEvent::OpenFailed("no channel".to_string())),
        RunnerAction::SleepBackoff(2)
    );
}

#[test]
fn test_event_outside_its_phase_is_ignored() {
    let mut r = ChannelRunner::new(exponential(0));
    assert_eq!(r.step(RunnerEvent::BackoffElapsed), RunnerAction::Ignore);
    assert_eq!(r.phase, RunnerPhase::Idle);
}
