//! Permission probing: interpreting the outcome of an empirical symlink
//! creation attempt, and of the best-effort read of the platform's
//! unrestricted-link policy, as a capability report.

use vstd::prelude::*;

use crate::models::PermissionStatus;
use crate::toggle::{format_symlink_error, formatted_error};

verus! {

/// What the empirical probe (creating and removing a transient link in a
/// scratch location) observed.
#[derive(Clone, Debug, PartialEq)]
pub enum ProbeOutcome {
    /// The transient link was created: the process can create symlinks.
    Success,
    /// Creation failed, with the platform's error code and message.
    Failure { raw_code: Option<i32>, message: String },
}

/// Turns a probe outcome and the policy reading into the capability report:
/// success means capable with no elevation needed; failure means incapable,
/// elevation-required exactly on the privilege-denied code, with the
/// translated explanation attached. The policy reading passes through
/// untouched (an unreadable policy is reported as `false` by the prober,
/// never as an error).
pub fn interpret_probe(outcome: ProbeOutcome, developer_mode: bool) -> (r: PermissionStatus)
    ensures
        r.is_developer_mode == developer_mode,
        outcome is Success ==> r.can_create_symlinks && !r.requires_elevation
            && r.error_message is None,
        outcome is Failure ==> {
            &&& !r.can_create_symlinks
            &&& r.requires_elevation == (outcome->Failure_raw_code == Some(1314i32))
            &&& r.error_message is Some
            &&& r.error_message->0@ == formatted_error(
                outcome->Failure_raw_code,
                outcome->Failure_message@,
            )
        },
{
    match outcome {
        ProbeOutcome::Success => PermissionStatus {
            can_create_symlinks: true,
            requires_elevation: false,
            is_developer_mode: developer_mode,
            error_message: None,
        },
        ProbeOutcome::Failure { raw_code, message } => {
            let requires_elevation = match raw_code {
                Some(c) => c == 1314,
                None => false,
            };
            PermissionStatus {
                can_create_symlinks: false,
                requires_elevation,
                is_developer_mode: developer_mode,
                error_message: Some(format_symlink_error(raw_code, message)),
            }
        },
    }
}

} // verus!
