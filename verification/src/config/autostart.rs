//! Starting the application with the system.

use vstd::prelude::*;
use vstd::string::StringExecFns;

verus! {

/// A failure to arrange the start with the system.
#[derive(Debug)]
pub enum AutoStartError {
    /// Failed to get executable path
    ExecutablePath(String),
    /// Failed to initialize auto-launch
    Initialization(String),
    /// Failed to enable auto-start
    Enable(String),
    /// Failed to disable auto-start
    Disable(String),
    /// Failed to check auto-start status
    StatusCheck(String),
}

impl AutoStartError {
    /// The words that introduce this kind of failure.
    pub open spec fn heading(self) -> Seq<char> {
        match self {
            AutoStartError::ExecutablePath(_) => "Failed to get executable path: "@,
            AutoStartError::Initialization(_) => "Failed to initialize auto-launch: "@,
            AutoStartError::Enable(_) => "Failed to enable auto-start: "@,
            AutoStartError::Disable(_) => "Failed to disable auto-start: "@,
            AutoStartError::StatusCheck(_) => "Failed to check auto-start status: "@,
        }
    }

    /// The words of the failure underneath.
    pub open spec fn detail(self) -> Seq<char> {
        match self {
            AutoStartError::ExecutablePath(e) => e@,
            AutoStartError::Initialization(e) => e@,
            AutoStartError::Enable(e) => e@,
            AutoStartError::Disable(e) => e@,
            AutoStartError::StatusCheck(e) => e@,
        }
    }

    /// The failure in words: its heading, then its detail.
    pub fn message(&self) -> (text: String)
        ensures
            text@ == self.heading() + self.detail(),
    {
        match self {
            AutoStartError::ExecutablePath(e) => String::from_str(
                "Failed to get executable path: ",
            ).concat(e.as_str()),
            AutoStartError::Initialization(e) => String::from_str(
                "Failed to initialize auto-launch: ",
            ).concat(e.as_str()),
            AutoStartError::Enable(e) => String::from_str("Failed to enable auto-start: ").concat(
                e.as_str(),
            ),
            AutoStartError::Disable(e) => String::from_str(
                "Failed to disable auto-start: ",
            ).concat(e.as_str()),
            AutoStartError::StatusCheck(e) => String::from_str(
                "Failed to check auto-start status: ",
            ).concat(e.as_str()),
        }
    }
}

/// What is to be done so that the start with the system is as wanted.
#[derive(Debug, Clone, Copy, PartialEq, Eq, Structural)]
pub enum SyncStep {
    /// Arrange the start with the system.
    Enable,
    /// Take the start with the system back.
    Disable,
    /// Leave things as they are.
    Keep,
}

/// Decides how to bring the start with the system in line with the setting.
/// `current` is what the system says of it now; where the system could not
/// say, the start counts as not arranged.
pub fn sync_step(current: Option<bool>, enabled: bool) -> (step: SyncStep)
    ensures
        step == (if current.unwrap_or(false) == enabled {
            SyncStep::Keep
        } else if enabled {
            SyncStep::Enable
        } else {
            SyncStep::Disable
        }),
{
    let current_enabled = match current {
        Some(state) => state,
        None => false,
    };
    if current_enabled != enabled {
        if enabled {
            SyncStep::Enable
        } else {
            SyncStep::Disable
        }
    } else {
        SyncStep::Keep
    }
}

} // verus!
