use vstd::prelude::*;

use crate::types::visible_to;
use crate::types::tier_allows;
use crate::types::TrustType;

verus! {

/// Identifier of a tier-scoped projection view over user rows, used for the
/// invited user (the subject) of an invitation listing.
#[derive(Clone, Copy, Debug, PartialEq, Eq, Structural)]
pub enum SubjectView {
    UsersStaff,
    UsersNdaed,
    UsersVouched,
    UsersAuthenticated,
    UsersPublic,
}

/// Identifier of a tier-scoped projection view over user rows, used for the
/// host (the inviter) of an invitation listing.
#[derive(Clone, Copy, Debug, PartialEq, Eq, Structural)]
pub enum HostView {
    HostsStaff,
    HostsNdaed,
    HostsVouched,
    HostsAuthenticated,
    HostsPublic,
}

impl SubjectView {
    /// The trust tier whose visibility rule this view applies.
    pub open spec fn tier(self) -> TrustType {
        match self {
            SubjectView::UsersStaff => TrustType::Staff,
            SubjectView::UsersNdaed => TrustType::Ndaed,
            SubjectView::UsersVouched => TrustType::Vouched,
            SubjectView::UsersAuthenticated => TrustType::Authenticated,
            SubjectView::UsersPublic => TrustType::Public,
        }
    }
}

impl HostView {
    /// The trust tier whose visibility rule this view applies.
    pub open spec fn tier(self) -> TrustType {
        match self {
            HostView::HostsStaff => TrustType::Staff,
            HostView::HostsNdaed => TrustType::Ndaed,
            HostView::HostsVouched => TrustType::Vouched,
            HostView::HostsAuthenticated => TrustType::Authenticated,
            HostView::HostsPublic => TrustType::Public,
        }
    }
}

/// A user of trust `trust` has a row in the subject view `v`.
pub open spec fn subject_visible(v: SubjectView, trust: TrustType) -> bool {
    visible_to(v.tier(), trust)
}

/// A user of trust `trust` has a row in the host view `v`.
pub open spec fn host_visible(v: HostView, trust: TrustType) -> bool {
    visible_to(v.tier(), trust)
}

/// The trust tier catalog: the pair of projection views (subject view,
/// host view) through which a listing for the given tier reads user rows.
pub open spec fn spec_scoped_views(tier: TrustType) -> (SubjectView, HostView) {
    match tier {
        TrustType::Staff => (SubjectView::UsersStaff, HostView::HostsStaff),
        TrustType::Ndaed => (SubjectView::UsersNdaed, HostView::HostsNdaed),
        TrustType::Vouched => (SubjectView::UsersVouched, HostView::HostsVouched),
        TrustType::Authenticated => (
            SubjectView::UsersAuthenticated,
            HostView::HostsAuthenticated,
        ),
        TrustType::Public => (SubjectView::UsersPublic, HostView::HostsPublic),
    }
}

/// Returns the pair of projection views for a trust tier.
pub fn scoped_views(tier: TrustType) -> (r: (SubjectView, HostView))
    ensures
        r == spec_scoped_views(tier),
{
    match tier {
        TrustType::Staff => (SubjectView::UsersStaff, HostView::HostsStaff),
        TrustType::Ndaed => (SubjectView::UsersNdaed, HostView::HostsNdaed),
        TrustType::Vouched => (SubjectView::UsersVouched, HostView::HostsVouched),
        TrustType::Authenticated => (
            SubjectView::UsersAuthenticated,
            HostView::HostsAuthenticated,
        ),
        TrustType::Public => (SubjectView::UsersPublic, HostView::HostsPublic),
    }
}

/// Decides whether a user of trust `trust` has a row in the subject view `v`.
pub fn subject_view_allows(v: SubjectView, trust: TrustType) -> (b: bool)
    ensures
        b == subject_visible(v, trust),
{
    let viewer = match v {
        SubjectView::UsersStaff => TrustType::Staff,
        SubjectView::UsersNdaed => TrustType::Ndaed,
        SubjectView::UsersVouched => TrustType::Vouched,
        SubjectView::UsersAuthenticated => TrustType::Authenticated,
        SubjectView::UsersPublic => TrustType::Public,
    };
    tier_allows(viewer, trust)
}

/// Decides whether a user of trust `trust` has a row in the host view `v`.
pub fn host_view_allows(v: HostView, trust: TrustType) -> (b: bool)
    ensures
        b == host_visible(v, trust),
{
    let viewer = match v {
        HostView::HostsStaff => TrustType::Staff,
        HostView::HostsNdaed => TrustType::Ndaed,
        HostView::HostsVouched => TrustType::Vouched,
        HostView::HostsAuthenticated => TrustType::Authenticated,
        HostView::HostsPublic => TrustType::Public,
    };
    tier_allows(viewer, trust)
}

} // verus!
