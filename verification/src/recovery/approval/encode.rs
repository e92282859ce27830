//! How approval states are written.
use super::ApprovalState;
use crate::json::group_json;
use vstd::prelude::*;

verus! {

broadcast use group_json;

/// How a state is written.
pub open spec fn state_text(state: ApprovalState) -> Seq<char> {
    match state {
        ApprovalState::Pending => "pending"@,
        ApprovalState::WaitingHuman => "waiting_human"@,
        ApprovalState::Approved => "approved"@,
        ApprovalState::Denied => "denied"@,
        ApprovalState::Revoked => "revoked"@,
        ApprovalState::Canceled => "canceled"@,
        ApprovalState::Expired => "expired"@,
        ApprovalState::Executing => "executing"@,
        ApprovalState::Executed => "executed"@,
        ApprovalState::Failed => "failed"@,
        ApprovalState::Unknown => "unknown"@,
    }
}

impl ApprovalState {
    /// How this state is written.
    pub fn name(self) -> (r: &'static str)
        ensures
            r@ == state_text(self),
    {
        match self {
            ApprovalState::Pending => "pending",
            ApprovalState::WaitingHuman => "waiting_human",
            ApprovalState::Approved => "approved",
            ApprovalState::Denied => "denied",
            ApprovalState::Revoked => "revoked",
            ApprovalState::Canceled => "canceled",
            ApprovalState::Expired => "expired",
            ApprovalState::Executing => "executing",
            ApprovalState::Executed => "executed",
            ApprovalState::Failed => "failed",
            ApprovalState::Unknown => "unknown",
        }
    }
}

} // verus!
