//! The TCB standing of an accepted platform.

use vstd::prelude::*;

use crate::text;

verus! {

/// The platform's true TCB status, as read from the selected TCB level — not a
/// policy verdict. The library returns this only for statuses it accepts; the
/// caller decides how to react to an accepted-but-degraded status. The distinct
/// `SWHardeningNeeded` and `ConfigurationAndSWHardeningNeeded` statuses are kept
/// as separate variants so a caller can tell them apart.
#[derive(Debug, Clone, PartialEq, Eq)]
pub enum TcbStanding {
    UpToDate,
    SWHardeningNeeded { advisory_ids: Vec<String> },
    ConfigurationAndSWHardeningNeeded { advisory_ids: Vec<String> },
}

/// What a [`TcbStanding`] says.
#[verifier::ext_equal]
pub ghost enum StandingView {
    UpToDate,
    SWHardeningNeeded { advisory_ids: Seq<Seq<char>> },
    ConfigurationAndSWHardeningNeeded { advisory_ids: Seq<Seq<char>> },
}

impl View for TcbStanding {
    type V = StandingView;

    open spec fn view(&self) -> StandingView {
        match self {
            TcbStanding::UpToDate => StandingView::UpToDate,
            TcbStanding::SWHardeningNeeded { advisory_ids } => StandingView::SWHardeningNeeded {
                advisory_ids: text::texts(advisory_ids@),
            },
            TcbStanding::ConfigurationAndSWHardeningNeeded {
                advisory_ids,
            } => StandingView::ConfigurationAndSWHardeningNeeded {
                advisory_ids: text::texts(advisory_ids@),
            },
        }
    }
}

/// What a standing is taken to say is the variant that it is, with its advisories in order.
pub proof fn standings_show_their_variant(standing: TcbStanding)
    ensures
        match standing {
            TcbStanding::UpToDate => standing@ is UpToDate,
            TcbStanding::SWHardeningNeeded { advisory_ids } => standing@
                == (StandingView::SWHardeningNeeded { advisory_ids: text::texts(advisory_ids@) }),
            TcbStanding::ConfigurationAndSWHardeningNeeded { advisory_ids } => standing@ == (
            StandingView::ConfigurationAndSWHardeningNeeded {
                advisory_ids: text::texts(advisory_ids@),
            }),
        },
{
}

} // verus!
