//! Updates: what follows from a look at the released versions.

use vstd::prelude::*;

use crate::text::same_text;

verus! {

/// What a look at the released versions found.
pub enum UpdateCheck {
    /// There is a newer version.
    Available,
    /// This is the newest version.
    UpToDate,
    /// The versions could not be read, for the reason given.
    Failed(String),
}

/// What comes next.
pub enum UpdateStep {
    /// Download and install the newer version.
    Install,
    /// Tell whoever asked.
    Reply(Result<String, String>),
}

/// What comes after an attempt to install the newer version.
pub enum InstallStep {
    /// Start anew, in the newer version.
    Restart,
    /// Tell whoever asked why there is no new version.
    Reply(String),
}

/// Decides what follows from `check`.
pub fn after_check(check: UpdateCheck) -> (step: UpdateStep)
    ensures
        match check {
            UpdateCheck::Available => step is Install,
            UpdateCheck::UpToDate => step matches UpdateStep::Reply(Ok(reply)) && reply@
                == "up-to-date"@,
            UpdateCheck::Failed(reason) => step == UpdateStep::Reply(Err(reason)),
        },
{
    match check {
        UpdateCheck::Available => UpdateStep::Install,
        UpdateCheck::UpToDate => UpdateStep::Reply(Ok("up-to-date".to_string())),
        UpdateCheck::Failed(reason) => UpdateStep::Reply(Err(reason)),
    }
}

/// Decides what follows an installation: only one that succeeded is followed by
/// a restart.
pub fn after_install(installed: Result<(), String>) -> (step: InstallStep)
    ensures
        match installed {
            Ok(_) => step is Restart,
            Err(reason) => step == InstallStep::Reply(reason),
        },
{
    match installed {
        Ok(_) => InstallStep::Restart,
        Err(reason) => InstallStep::Reply(reason),
    }
}

/// Whether a reply to a check that the user started is announced: only the good
/// news that nothing is to be done.
pub fn is_announced(reply: &Result<String, String>) -> (yes: bool)
    ensures
        yes == (reply matches Ok(text) && text@ == "up-to-date"@),
{
    match reply {
        Ok(text) => same_text(text.as_str(), "up-to-date"),
        Err(_) => false,
    }
}

} // verus!
