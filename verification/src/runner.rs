//! Per-channel supervision state machine. A runner keeps one channel
//! connected indefinitely: connect, authenticate, open the channel,
//! run its duty loop, and on any failure wait per the backoff policy
//! and retry. When a cycle's retry budget is spent, or a duty loop
//! returns, a short fixed pause follows and a new cycle begins with a
//! fresh budget — exhaustion never stops a channel, only
//! cancellation does. The machine decides; the surrounding process
//! performs the connects, sleeps and copies and reports their
//! outcomes back as events.

use vstd::prelude::*;
use crate::backoff::{BackoffPolicy, spec_delay, spec_exhausted};

verus! {

/// Seconds of the fixed pause between two supervision cycles.
pub const CYCLE_PAUSE_SECS: u64 = 1;

/// The supervision phase of one channel.
#[derive(Debug, Clone, Copy, PartialEq, Eq, Structural)]
pub enum RunnerPhase {
    /// Not started yet.
    Idle,
    /// A connect attempt is in flight.
    Connecting,
    /// Authentication is in flight.
    Authenticating,
    /// The kind-specific channel open is in flight.
    OpeningChannel,
    /// The channel is open and its duty loop runs.
    ChannelActive,
    /// Waiting out a backoff delay before the next attempt.
    BackoffWait,
    /// Waiting out the fixed pause before a fresh cycle.
    CyclePause,
    /// Stopped by cancellation; final.
    Stopped,
}

/// What the runner observed: the outcome of the action it last asked
/// for, or a cancellation.
#[derive(Debug)]
pub enum RunnerEvent {
    /// The runner was told to begin.
    Started,
    /// The connect attempt succeeded.
    ConnectSucceeded,
    /// The connect attempt failed.
    ConnectFailed(String),
    /// Authentication succeeded.
    AuthSucceeded,
    /// Authentication failed.
    AuthFailed(String),
    /// The channel is open; a remote forward also reports the port
    /// the host granted, which may differ from the one requested.
    ChannelOpened(Option<u32>),
    /// Opening the channel failed.
    OpenFailed(String),
    /// The duty loop returned: the channel closed, or failed with a
    /// message.
    DutyEnded(Option<String>),
    /// The backoff delay has elapsed.
    BackoffElapsed,
    /// The pause between cycles has elapsed.
    PauseElapsed,
    /// The channel was cancelled.
    Cancelled,
}

/// Mathematical model of a `RunnerEvent`.
pub enum EventView {
    Started,
    ConnectSucceeded,
    ConnectFailed(Seq<char>),
    AuthSucceeded,
    AuthFailed(Seq<char>),
    ChannelOpened(Option<u32>),
    OpenFailed(Seq<char>),
    DutyEnded(Option<Seq<char>>),
    BackoffElapsed,
    PauseElapsed,
    Cancelled,
}

impl View for RunnerEvent {
    type V = EventView;

    open spec fn view(&self) -> EventView {
        match self {
            RunnerEvent::Started => EventView::Started,
            RunnerEvent::ConnectSucceeded => EventView::ConnectSucceeded,
            RunnerEvent::ConnectFailed(m) => EventView::ConnectFailed(m@),
            RunnerEvent::AuthSucceeded => EventView::AuthSucceeded,
            RunnerEvent::AuthFailed(m) => EventView::AuthFailed(m@),
            RunnerEvent::ChannelOpened(g) => EventView::ChannelOpened(*g),
            RunnerEvent::OpenFailed(m) => EventView::OpenFailed(m@),
            RunnerEvent::DutyEnded(m) => EventView::DutyEnded(
                match m {
                    Some(s) => Some(s@),
                    None => None,
                },
            ),
            RunnerEvent::BackoffElapsed => EventView::BackoffElapsed,
            RunnerEvent::PauseElapsed => EventView::PauseElapsed,
            RunnerEvent::Cancelled => EventView::Cancelled,
        }
    }
}

/// What the runner asks its surroundings to do next.
#[derive(Debug, Clone, Copy, PartialEq, Eq, Structural)]
pub enum RunnerAction {
    /// Attempt to connect.
    Connect,
    /// Authenticate on the open connection.
    Authenticate,
    /// Open the kind-specific channel.
    OpenChannel,
    /// Run the channel's duty loop.
    RunDuty,
    /// Sleep the given number of seconds, then report
    /// `BackoffElapsed`.
    SleepBackoff(u64),
    /// Sleep the given number of seconds, then report
    /// `PauseElapsed`.
    PauseCycle(u64),
    /// Stop: release the channel's resources and report nothing
    /// more.
    Halt,
    /// The event did not belong to the current phase; nothing to do.
    Ignore,
}

/// Mathematical model of a `ChannelRunner`.
#[verifier::ext_equal]
pub struct RunnerView {
    pub phase: RunnerPhase,
    pub failures: u32,
    pub policy: BackoffPolicy,
    pub reported_remote_port: Option<u32>,
    pub last_error: Option<Seq<char>>,
}

/// A step's result: the state after the event and the action asked
/// of the surroundings.
#[verifier::ext_equal]
pub struct StepView {
    pub next: RunnerView,
    pub action: RunnerAction,
}

/// One failed attempt: the failure count rises (saturating), and the
/// cycle either continues after a backoff delay or — when the budget
/// is spent — ends in the fixed pause before a fresh cycle.
pub open spec fn spec_fail_step(s: RunnerView, msg: Seq<char>) -> StepView {
    let f = if s.failures < u32::MAX {
        (s.failures + 1) as u32
    } else {
        s.failures
    };
    if spec_exhausted(s.policy, f) {
        StepView {
            next: RunnerView {
                phase: RunnerPhase::CyclePause,
                failures: f,
                policy: s.policy,
                reported_remote_port: s.reported_remote_port,
                last_error: Some(msg),
            },
            action: RunnerAction::PauseCycle(CYCLE_PAUSE_SECS),
        }
    } else {
        StepView {
            next: RunnerView {
                phase: RunnerPhase::BackoffWait,
                failures: f,
                policy: s.policy,
                reported_remote_port: s.reported_remote_port,
                last_error: Some(msg),
            },
            action: RunnerAction::SleepBackoff(spec_delay(s.policy, f as int) as u64),
        }
    }
}

/// The full transition table of the runner. Cancellation stops the
/// runner from every phase; every other event acts only in the phase
/// that awaits it and is ignored elsewhere.
pub open spec fn spec_step(s: RunnerView, e: EventView) -> StepView {
    if e is Cancelled {
        StepView {
            next: RunnerView {
                phase: RunnerPhase::Stopped,
                failures: s.failures,
                policy: s.policy,
                reported_remote_port: s.reported_remote_port,
                last_error: s.last_error,
            },
            action: RunnerAction::Halt,
        }
    } else {
        match (s.phase, e) {
            (RunnerPhase::Idle, EventView::Started) => StepView {
                next: RunnerView { phase: RunnerPhase::Connecting, ..s },
                action: RunnerAction::Connect,
            },
            (RunnerPhase::Connecting, EventView::ConnectSucceeded) => StepView {
                next: RunnerView { phase: RunnerPhase::Authenticating, ..s },
                action: RunnerAction::Authenticate,
            },
            (RunnerPhase::Connecting, EventView::ConnectFailed(m)) => spec_fail_step(s, m),
            (RunnerPhase::Authenticating, EventView::AuthSucceeded) => StepView {
                next: RunnerView { phase: RunnerPhase::OpeningChannel, ..s },
                action: RunnerAction::OpenChannel,
            },
            (RunnerPhase::Authenticating, EventView::AuthFailed(m)) => spec_fail_step(s, m),
            (RunnerPhase::OpeningChannel, EventView::ChannelOpened(g)) => StepView {
                next: RunnerView {
                    phase: RunnerPhase::ChannelActive,
                    reported_remote_port: match g {
                        Some(p) => Some(p),
                        None => s.reported_remote_port,
                    },
                    ..s
                },
                action: RunnerAction::RunDuty,
            },
            (RunnerPhase::OpeningChannel, EventView::OpenFailed(m)) => spec_fail_step(s, m),
            (RunnerPhase::ChannelActive, EventView::DutyEnded(m)) => StepView {
                next: RunnerView {
                    phase: RunnerPhase::CyclePause,
                    last_error: match m {
                        Some(t) => Some(t),
                        None => s.last_error,
                    },
                    ..s
                },
                action: RunnerAction::PauseCycle(CYCLE_PAUSE_SECS),
            },
            (RunnerPhase::BackoffWait, EventView::BackoffElapsed) => StepView {
                next: RunnerView { phase: RunnerPhase::Connecting, ..s },
                action: RunnerAction::Connect,
            },
            (RunnerPhase::CyclePause, EventView::PauseElapsed) => StepView {
                next: RunnerView { phase: RunnerPhase::Connecting, failures: 0, ..s },
                action: RunnerAction::Connect,
            },
            (RunnerPhase::Stopped, _) => StepView {
                next: RunnerView { phase: RunnerPhase::Stopped, ..s },
                action: RunnerAction::Halt,
            },
            _ => StepView { next: s, action: RunnerAction::Ignore },
        }
    }
}

/// The supervision state of one channel.
#[derive(Debug)]
pub struct ChannelRunner {
    /// Current phase.
    pub phase: RunnerPhase,
    /// Failed attempts in the current cycle.
    pub failures: u32,
    /// The cycle's backoff policy.
    pub policy: BackoffPolicy,
    /// For a remote forward: the port the host granted, which is
    /// reported instead of the requested one.
    pub reported_remote_port: Option<u32>,
    /// Message of the last failure, if any.
    pub last_error: Option<String>,
}

impl View for ChannelRunner {
    type V = RunnerView;

    open spec fn view(&self) -> RunnerView {
        RunnerView {
            phase: self.phase,
            failures: self.failures,
            policy: self.policy,
            reported_remote_port: self.reported_remote_port,
            last_error: match &self.last_error {
                Some(m) => Some(m@),
                None => None,
            },
        }
    }
}

impl ChannelRunner {
    /// A fresh runner under the given policy, not yet started.
    pub fn new(policy: BackoffPolicy) -> (r: Self)
        ensures
            r@ == (RunnerView {
                phase: RunnerPhase::Idle,
                failures: 0,
                policy,
                reported_remote_port: None,
                last_error: None,
            }),
    {
        ChannelRunner {
            phase: RunnerPhase::Idle,
            failures: 0,
            policy,
            reported_remote_port: None,
            last_error: None,
        }
    }

    /// Feeds one observed event to the runner and returns what to do
    /// next, exactly as the transition table says.
    pub fn step(&mut self, event: RunnerEvent) -> (a: RunnerAction)
        ensures
            final(self)@ == spec_step(old(self)@, event@).next,
            a == spec_step(old(self)@, event@).action,
    {
        match event {
            RunnerEvent::Cancelled => {
                self.phase = RunnerPhase::Stopped;
                RunnerAction::Halt
            },
            _ => {
                if matches!(self.phase, RunnerPhase::Stopped) {
                    return RunnerAction::Halt;
                }
                match (self.phase, event) {
                    (RunnerPhase::Idle, RunnerEvent::Started) => {
                        self.phase = RunnerPhase::Connecting;
                        RunnerAction::Connect
                    },
                    (RunnerPhase::Connecting, RunnerEvent::ConnectSucceeded) => {
                        self.phase = RunnerPhase::Authenticating;
                        RunnerAction::Authenticate
                    },
                    (RunnerPhase::Connecting, RunnerEvent::ConnectFailed(m)) => self.fail_step(m),
                    (RunnerPhase::Authenticating, RunnerEvent::AuthSucceeded) => {
                        self.phase = RunnerPhase::OpeningChannel;
                        RunnerAction::OpenChannel
                    },
                    (RunnerPhase::Authenticating, RunnerEvent::AuthFailed(m)) => self.fail_step(m),
                    (RunnerPhase::OpeningChannel, RunnerEvent::ChannelOpened(g)) => {
                        self.phase = RunnerPhase::ChannelActive;
                        match g {
                            Some(p) => {
                                self.reported_remote_port = Some(p);
                            },
                            None => {},
                        }
                        RunnerAction::RunDuty
                    },
                    (RunnerPhase::OpeningChannel, RunnerEvent::OpenFailed(m)) => self.fail_step(m),
                    (RunnerPhase::ChannelActive, RunnerEvent::DutyEnded(m)) => {
                        self.phase = RunnerPhase::CyclePause;
                        match m {
                            Some(t) => {
                                self.last_error = Some(t);
                            },
                            None => {},
                        }
                        RunnerAction::PauseCycle(CYCLE_PAUSE_SECS)
                    },
                    (RunnerPhase::BackoffWait, RunnerEvent::BackoffElapsed) => {
                        self.phase = RunnerPhase::Connecting;
                        RunnerAction::Connect
                    },
                    (RunnerPhase::CyclePause, RunnerEvent::PauseElapsed) => {
                        self.phase = RunnerPhase::Connecting;
                        self.failures = 0;
                        RunnerAction::Connect
                    },
                    _ => RunnerAction::Ignore,
                }
            },
        }
    }

    /// Registers one failed attempt, per the backoff policy.
    fn fail_step(&mut self, msg: String) -> (a: RunnerAction)
        ensures
            final(self)@ == spec_fail_step(old(self)@, msg@).next,
            a == spec_fail_step(old(self)@, msg@).action,
    {
        let f: u32 = if self.failures < u32::MAX {
            self.failures + 1
        } else {
            self.failures
        };
        self.failures = f;
        self.last_error = Some(msg);
        if self.policy.attempts_exhausted(f) {
            self.phase = RunnerPhase::CyclePause;
            RunnerAction::PauseCycle(CYCLE_PAUSE_SECS)
        } else {
            self.phase = RunnerPhase::BackoffWait;
            let d = self.policy.delay_for_retry(f);
            RunnerAction::SleepBackoff(d)
        }
    }
}

/// A failure event never stops a runner: whatever the phase and the
/// failure, only cancellation reaches `Stopped`. Exhausting the
/// retry budget only inserts the pause before a fresh cycle.
pub proof fn lemma_failure_never_stops(s: RunnerView, e: EventView)
    requires
        !(s.phase is Stopped),
        !(e is Cancelled),
    ensures
        !(spec_step(s, e).next.phase is Stopped),
{
}

/// After the pause that follows an exhausted cycle, the runner
/// reconnects with a completely fresh retry budget.
pub proof fn lemma_pause_resets_budget(s: RunnerView)
    requires
        s.phase is CyclePause,
    ensures
        spec_step(s, EventView::PauseElapsed).next.failures == 0,
        spec_step(s, EventView::PauseElapsed).next.phase is Connecting,
        spec_step(s, EventView::PauseElapsed).action == RunnerAction::Connect,
{
}

/// Cancellation stops the runner from every phase.
pub proof fn lemma_cancel_stops(s: RunnerView)
    ensures
        spec_step(s, EventView::Cancelled).next.phase is Stopped,
        spec_step(s, EventView::Cancelled).action == RunnerAction::Halt,
{
}

} // verus!
