//! Reminder configuration and the decisions of the reminder loop.
//!
//! The loop itself sleeps and delivers notifications, which is the caller's
//! part. What it does next is decided here: [`NotificationManager::loop_step`]
//! maps the configuration and the loop's phase to the next phase and the
//! action to perform.

use vstd::prelude::*;
use crate::models::DEFAULT_REMINDER_INTERVAL;

verus! {

/// Seconds between two looks at the configuration while no reminder is due.
pub const POLL_SECONDS: u64 = 1;

/// What a notification is about.
#[derive(Debug, Clone, Copy, PartialEq, Eq, Structural)]
pub enum Notice {
    /// It is time to drink.
    WaterReminder,
    /// Today's goal has been reached.
    GoalAchieved,
}

/// Where the reminder loop stands.
#[derive(Debug, Clone, Copy, PartialEq, Eq, Structural)]
pub enum LoopPhase {
    /// About to look at the configuration.
    Check,
    /// A full interval has been waited; the reminder is due.
    Fire,
}

/// What the reminder loop does next.
#[derive(Debug, Clone, Copy, PartialEq, Eq, Structural)]
pub enum LoopAction {
    /// Sleep for so many seconds.
    Sleep { seconds: u64 },
    /// Deliver the notification.
    Deliver { notice: Notice },
    /// Nothing: the reminder that was due is suppressed.
    Skip,
}

/// The live reminder configuration.
#[derive(Debug, Clone, Copy, PartialEq, Eq, Structural)]
pub struct NotificationManager {
    enabled: bool,
    interval: u32,
}

impl NotificationManager {
    /// Whether reminders are switched on.
    pub closed spec fn enabled(&self) -> bool {
        self.enabled
    }

    /// Minutes between two reminders.
    pub closed spec fn interval(&self) -> u32 {
        self.interval
    }

    /// Reminders will fire: they are switched on and the interval is not
    /// zero.
    pub open spec fn armed(&self) -> bool {
        self.enabled() && self.interval() != 0
    }

    /// What the loop does in `phase`, and the phase it is in afterwards.
    ///
    /// Checking while disarmed, it sleeps the poll period and checks again.
    /// Checking while armed, it sleeps the whole interval and then fires.
    /// Firing, it delivers the reminder if reminders are still switched on,
    /// and checks again either way.
    pub open spec fn step(&self, phase: LoopPhase) -> (LoopPhase, LoopAction) {
        match phase {
            LoopPhase::Check => if self.armed() {
                (LoopPhase::Fire, LoopAction::Sleep { seconds: (self.interval() * 60) as u64 })
            } else {
                (LoopPhase::Check, LoopAction::Sleep { seconds: 1 })
            },
            LoopPhase::Fire => if self.enabled() {
                (LoopPhase::Check, LoopAction::Deliver { notice: Notice::WaterReminder })
            } else {
                (LoopPhase::Check, LoopAction::Skip)
            },
        }
    }

    /// A configuration with the given switch and an interval of 15 minutes.
    pub fn new(enabled: bool) -> (manager: Self)
        ensures
            manager.enabled() == enabled,
            manager.interval() == 15,
    {
        NotificationManager { enabled, interval: DEFAULT_REMINDER_INTERVAL }
    }

    /// Overwrites switch and interval.
    pub fn update_settings(&mut self, enabled: bool, interval: u32)
        ensures
            final(self).enabled() == enabled,
            final(self).interval() == interval,
    {
        self.enabled = enabled;
        self.interval = interval;
    }

    /// Whether reminders are switched on.
    pub fn is_enabled(&self) -> (enabled: bool)
        ensures
            enabled == self.enabled(),
    {
        self.enabled
    }

    /// Minutes between two reminders.
    pub fn interval_minutes(&self) -> (minutes: u32)
        ensures
            minutes == self.interval(),
    {
        self.interval
    }

    /// The reminder to deliver now: none while reminders are switched off.
    pub fn show_water_reminder(&self) -> (notice: Option<Notice>)
        ensures
            notice == if self.enabled() {
                Some(Notice::WaterReminder)
            } else {
                None
            },
    {
        if self.enabled {
            Some(Notice::WaterReminder)
        } else {
            None
        }
    }

    /// The congratulation to deliver now: none while reminders are switched
    /// off.
    pub fn show_goal_achieved(&self) -> (notice: Option<Notice>)
        ensures
            notice == if self.enabled() {
                Some(Notice::GoalAchieved)
            } else {
                None
            },
    {
        if self.enabled {
            Some(Notice::GoalAchieved)
        } else {
            None
        }
    }

    /// One decision of the reminder loop: the phase it enters and the action
    /// it performs on the way.
    pub fn loop_step(&self, phase: LoopPhase) -> (next: (LoopPhase, LoopAction))
        ensures
            next == self.step(phase),
            next.1 is Deliver ==> self.enabled(),
            !self.armed() && phase is Check ==> next == (
                LoopPhase::Check,
                LoopAction::Sleep { seconds: 1 },
            ),
    {
        match phase {
            LoopPhase::Check => {
                if self.enabled && self.interval != 0 {
                    let seconds: u64 = self.interval as u64 * 60;
                    (LoopPhase::Fire, LoopAction::Sleep { seconds })
                } else {
                    (LoopPhase::Check, LoopAction::Sleep { seconds: POLL_SECONDS })
                }
            },
            LoopPhase::Fire => {
                match self.show_water_reminder() {
                    Some(notice) => (LoopPhase::Check, LoopAction::Deliver { notice }),
                    None => (LoopPhase::Check, LoopAction::Skip),
                }
            },
        }
    }
}

/// While reminders stay switched off, the loop never delivers anything, from
/// whichever phase it starts and however long it runs: every step is a
/// one-second sleep or a suppressed reminder.
pub proof fn lemma_disabled_never_delivers(manager: NotificationManager, phase: LoopPhase)
    requires
        !manager.enabled(),
    ensures
        !(manager.step(phase).1 is Deliver),
        manager.step(phase).0 == LoopPhase::Check,
        manager.step(manager.step(phase).0) == (
            LoopPhase::Check,
            LoopAction::Sleep { seconds: 1 },
        ),
{
}

} // verus!
