//! The Event Scheduler: turns the events of one channel into the actions
//! that the single consumer loop carries out, one at a time.
use crate::sync::Settings;
use vstd::prelude::*;

verus! {

/// Marks a synchronisation that was requested by hand.
#[derive(Debug, Clone, Copy, PartialEq, Eq, Structural)]
pub struct ManualSync;

/// Who asks for a poll: the periodic timer with the given identity, or a
/// manual request.
#[derive(Debug, Clone, Copy, PartialEq, Eq, Structural)]
pub enum PollRequest {
    Timer(u64),
    Manual(ManualSync),
}

/// An event on the scheduler's channel.
#[derive(Debug, Clone, Copy, PartialEq, Eq, Structural)]
pub enum MessageType {
    /// The package manager reported a change in a scope.
    FlatpakInstallationChanged,
    /// A poll is due.
    TimeToPoll(PollRequest),
    /// The synchronisation interval was changed.
    TimerChanged,
}

/// What the consumer loop does for one event.
#[derive(Debug, Clone, Copy, PartialEq, Eq, Structural)]
pub enum SchedulerAction {
    /// Capture the local state again and persist the cache.
    RefreshLocal,
    /// Abort the timer task `stop`, then start timer task `start` that asks
    /// for a poll every `period_secs` seconds.
    ReplaceTimer { stop: u64, start: u64, period_secs: u64 },
    /// Poll the remote snapshot.
    Poll { manual: bool },
    /// Nothing to do.
    Ignore,
}

/// The identity given to the timer task that replaces task `active`.
pub open spec fn successor(active: u64) -> u64 {
    if active == u64::MAX {
        0
    } else {
        (active + 1) as u64
    }
}

/// The action for `msg`, with `active` the identity of the running timer task.
pub open spec fn action_for(active: u64, msg: MessageType, autosync: bool, minutes: u32) -> SchedulerAction {
    match msg {
        MessageType::FlatpakInstallationChanged => SchedulerAction::RefreshLocal,
        MessageType::TimerChanged => SchedulerAction::ReplaceTimer {
            stop: active,
            start: successor(active),
            period_secs: (minutes * 60) as u64,
        },
        MessageType::TimeToPoll(PollRequest::Manual(_)) => SchedulerAction::Poll { manual: true },
        MessageType::TimeToPoll(PollRequest::Timer(id)) => if id == active && autosync {
            SchedulerAction::Poll { manual: false }
        } else {
            SchedulerAction::Ignore
        },
    }
}

/// After an interval change, ticks of the replaced timer task poll nothing,
/// while the new task's ticks poll as before, and the change itself polls
/// nothing.
pub proof fn lemma_replaced_timer_is_silent(active: u64, autosync: bool, minutes: u32)
    ensures
        action_for(active, MessageType::TimerChanged, autosync, minutes) matches SchedulerAction::ReplaceTimer { stop, start, .. }
            && stop == active && start == successor(active) && start != active,
        action_for(successor(active), MessageType::TimeToPoll(PollRequest::Timer(active)), autosync, minutes)
            == SchedulerAction::Ignore,
        autosync ==> action_for(
            successor(active),
            MessageType::TimeToPoll(PollRequest::Timer(successor(active))),
            autosync,
            minutes,
        ) == (SchedulerAction::Poll { manual: false }),
{
}

/// State of the scheduler: the identity of the one timer task that runs.
pub struct Scheduler {
    active_timer: u64,
}

impl View for Scheduler {
    type V = u64;

    closed spec fn view(&self) -> u64 {
        self.active_timer
    }
}

impl Scheduler {
    /// A scheduler whose first timer task has identity 0.
    pub fn new() -> (r: Scheduler)
        ensures
            r@ == 0,
    {
        Scheduler { active_timer: 0 }
    }

    /// The identity of the running timer task.
    pub fn active_timer(&self) -> (r: u64)
        ensures
            r == self@,
    {
        self.active_timer
    }

    /// The seconds between two polls for an interval of `minutes`.
    pub fn period_secs(minutes: u32) -> (r: u64)
        ensures
            r == minutes * 60,
    {
        minutes as u64 * 60
    }

    /// Handles one event: a local change refreshes the cache; an interval
    /// change replaces the timer task and polls nothing; a manual request
    /// polls; a tick of the running timer polls when autosync is on, and a
    /// tick of a replaced timer is ignored.
    pub fn handle(&mut self, msg: &MessageType, settings: &Settings) -> (r: SchedulerAction)
        ensures
            r == action_for(old(self)@, *msg, settings@.autosync, settings@.autosync_timer),
            final(self)@ == if *msg == MessageType::TimerChanged {
                successor(old(self)@)
            } else {
                old(self)@
            },
    {
        match msg {
            MessageType::FlatpakInstallationChanged => SchedulerAction::RefreshLocal,
            MessageType::TimerChanged => {
                let stop = self.active_timer;
                let start = if stop == u64::MAX {
                    0
                } else {
                    stop + 1
                };
                self.active_timer = start;
                SchedulerAction::ReplaceTimer {
                    stop,
                    start,
                    period_secs: Scheduler::period_secs(settings.autosync_timer()),
                }
            },
            MessageType::TimeToPoll(PollRequest::Manual(_)) => SchedulerAction::Poll { manual: true },
            MessageType::TimeToPoll(PollRequest::Timer(id)) => {
                if *id == self.active_timer && settings.autosync() {
                    SchedulerAction::Poll { manual: false }
                } else {
                    SchedulerAction::Ignore
                }
            },
        }
    }
}

} // verus!
