//! Caller-owned TCB acceptance policy. [`TcbPolicy`] is plain data the caller
//! constructs and passes explicitly — the crate holds no policy state and
//! ships no default. See [`crate::verify_remote_attestation_with_policy`] for
//! the one-call form.

use vstd::prelude::*;
use vstd::string::StringExecFns;

use crate::error::{self, ErrorCategory, Rejection, VerifyError};
use crate::standing::{StandingView, TcbStanding};
use crate::text;

verus! {

/// How `Debug` writes a list of texts.
pub uninterp spec fn debug_texts(items: Seq<Seq<char>>) -> Seq<char>;

/// `std::fmt::Debug` of a slice of `String`. Its text is determined by the items.
#[verifier::external_body]
fn debug_list(items: &Vec<String>) -> (text: String)
    ensures
        text@ == debug_texts(text::texts(items@)),
{
    format!("{items:?}")
}

/// A caller-owned acceptance policy over the degraded-but-accepted TCB
/// standings, plus the evaluation-round floor forwarded to verification.
///
/// [`crate::verify_remote_attestation`] itself rejects the never-acceptable
/// statuses (`OutOfDate`, `Revoked`, no matching level, …) outright; the three
/// [`TcbStanding`] variants are the statuses Intel defines as acceptable, and
/// this policy decides which of the degraded two the caller tolerates.
/// `UpToDate` is always accepted.
///
/// Deliberately has no `Default` — every field is a security decision the
/// caller must make explicitly.
#[derive(Debug, Clone, Copy, PartialEq, Eq, Structural)]
pub struct TcbPolicy {
    /// Freshness floor against TCB-recovery round downgrades: collateral from
    /// an Intel evaluation round below this rejects even inside its
    /// `nextUpdate` window. `0` accepts any round.
    pub min_tcb_evaluation_data_number: u32,
    /// Accept `TcbStanding::SWHardeningNeeded`.
    pub accept_sw_hardening_needed: bool,
    /// Accept `TcbStanding::ConfigurationAndSWHardeningNeeded`.
    pub accept_configuration_and_sw_hardening_needed: bool,
}

/// The rejection of a standing under its tag, with its advisories.
pub open spec fn refused(standing_tag: Seq<char>, advisory_ids: Seq<Seq<char>>) -> Rejection {
    error::rejection(
        ErrorCategory::TcbStandingRejected,
        "caller policy rejects TCB standing "@ + standing_tag + " (advisories: "@ + debug_texts(
            advisory_ids,
        ) + ")"@,
    )
}

/// The fault of a standing that a policy does not tolerate.
pub open spec fn policy_fault(policy: TcbPolicy, standing: StandingView) -> Option<Rejection> {
    match standing {
        StandingView::UpToDate => None,
        StandingView::SWHardeningNeeded { advisory_ids } => if policy.accept_sw_hardening_needed {
            None
        } else {
            Some(refused("sw-hardening-needed"@, advisory_ids))
        },
        StandingView::ConfigurationAndSWHardeningNeeded {
            advisory_ids,
        } => if policy.accept_configuration_and_sw_hardening_needed {
            None
        } else {
            Some(refused("configuration-and-sw-hardening-needed"@, advisory_ids))
        },
    }
}

impl TcbPolicy {
    /// Judge an already-verified standing against this policy. Pure and
    /// stateless: rejection is a [`VerifyError`] with the
    /// `tcb-standing-rejected` category naming the standing and its advisory
    /// IDs.
    pub fn check(&self, standing: &TcbStanding) -> (checked: Result<(), VerifyError>)
        ensures
            error::verdict(checked) == policy_fault(*self, standing@),
    {
        match standing {
            TcbStanding::UpToDate => Ok(()),
            TcbStanding::SWHardeningNeeded { advisory_ids } => {
                if self.accept_sw_hardening_needed {
                    Ok(())
                } else {
                    Err(rejection("sw-hardening-needed", advisory_ids))
                }
            },
            TcbStanding::ConfigurationAndSWHardeningNeeded { advisory_ids } => {
                if self.accept_configuration_and_sw_hardening_needed {
                    Ok(())
                } else {
                    Err(rejection("configuration-and-sw-hardening-needed", advisory_ids))
                }
            },
        }
    }
}

fn rejection(standing_tag: &str, advisory_ids: &Vec<String>) -> (error: VerifyError)
    ensures
        error@ == refused(standing_tag@, text::texts(advisory_ids@)),
{
    VerifyError::new(
        ErrorCategory::TcbStandingRejected,
        "caller policy rejects TCB standing ".to_owned().concat(standing_tag).concat(
            " (advisories: ",
        ).concat(debug_list(advisory_ids).as_str()).concat(")"),
    )
}

/// An up-to-date platform is accepted under every policy.
pub proof fn up_to_date_is_always_accepted(policy: TcbPolicy)
    ensures
        policy_fault(policy, StandingView::UpToDate) is None,
{
}

/// Each degraded standing follows its own flag, whatever the other flag and the floor are.
pub proof fn degraded_standings_follow_their_own_flag(
    policy: TcbPolicy,
    other: TcbPolicy,
    advisory_ids: Seq<Seq<char>>,
)
    ensures
        policy.accept_sw_hardening_needed == other.accept_sw_hardening_needed ==> policy_fault(
            policy,
            StandingView::SWHardeningNeeded { advisory_ids },
        ) == policy_fault(other, StandingView::SWHardeningNeeded { advisory_ids }),
        policy_fault(policy, StandingView::SWHardeningNeeded { advisory_ids }) is None
            <==> policy.accept_sw_hardening_needed,
        policy.accept_configuration_and_sw_hardening_needed
            == other.accept_configuration_and_sw_hardening_needed ==> policy_fault(
            policy,
            StandingView::ConfigurationAndSWHardeningNeeded { advisory_ids },
        ) == policy_fault(
            other,
            StandingView::ConfigurationAndSWHardeningNeeded { advisory_ids },
        ),
        policy_fault(policy, StandingView::ConfigurationAndSWHardeningNeeded { advisory_ids })
            is None <==> policy.accept_configuration_and_sw_hardening_needed,
{
}

/// Whatever a policy rejects, it rejects as a rejected standing.
pub proof fn policy_rejections_have_their_own_category(policy: TcbPolicy, standing: StandingView)
    ensures
        policy_fault(policy, standing) matches Some(fault) ==> fault.category
            == ErrorCategory::TcbStandingRejected,
{
}

} // verus!
