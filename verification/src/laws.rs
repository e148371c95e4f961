use vstd::prelude::*;

use crate::invitation::accept_error;
use crate::invitation::accept_ok_post;
use crate::invitation::accepted_membership;
use crate::invitation::delete_error;
use crate::invitation::delete_ok_post;
use crate::invitation::effective_days;
use crate::invitation::invite_error;
use crate::invitation::invite_ok_post;
use crate::invitation::new_invitation;
use crate::listing::all_listed_rows;
use crate::listing::display_row;
use crate::listing::invitation_listed;
use crate::listing::listed_rows;
use crate::listing::DisplayInvitation;
use crate::listing::ListScope;
use crate::store::active_group_index;
use crate::store::active_group_of;
use crate::store::group_index_by_id;
use crate::store::group_with_id;
use crate::store::has_active_group;
use crate::store::has_invitation;
use crate::store::has_membership;
use crate::store::has_user;
use crate::store::invitation_matches;
use crate::store::is_active_named;
use crate::store::lemma_membership_unique;
use crate::store::membership_index;
use crate::store::membership_matches;
use crate::store::membership_with;
use crate::store::user_with;
use crate::store::Store;
use crate::time::expiration_ts;
use crate::time::membership_expiration;
use crate::types::StoreError;
use crate::types::TrustType;
use crate::views::host_visible;
use crate::views::spec_scoped_views;
use crate::views::subject_visible;
use crate::views::HostView;
use crate::views::SubjectView;

verus! {

/// Uniqueness law: after a successful `invite` for a group and member, a
/// second `invite` for the same pair fails with `Conflict`.
pub proof fn lemma_invite_uniqueness(
    pre: Store,
    post: Store,
    name: Seq<char>,
    host: u64,
    member: u64,
    invitation_expiration: Option<i64>,
    group_expiration: Option<i32>,
)
    requires
        pre.wf(),
        invite_error(pre, name, member) is None,
        invite_ok_post(pre, post, name, host, member, invitation_expiration, group_expiration),
    ensures
        invite_error(post, name, member) == Some(StoreError::Conflict),
{
    let g = active_group_of(pre.groups@, name);
    let inv = new_invitation(pre, name, host, member, invitation_expiration, group_expiration);
    assert(post.invitations@[post.invitations@.len() - 1] == inv);
    assert(invitation_matches(post.invitations@[post.invitations@.len() - 1], g.id, member));
    assert(has_invitation(post.invitations@, g.id, member));
}

/// Uniqueness law, second half: a successful `delete` for the pair opens the
/// pair to `invite` again.
pub proof fn lemma_delete_reopens(pre: Store, post: Store, name: Seq<char>, host: u64, member: u64)
    requires
        pre.wf(),
        delete_error(pre, name) is None,
        delete_ok_post(pre, post, name, host, member),
    ensures
        invite_error(post, name, member) is None,
{
}

/// Uniqueness law, second half: a successful `accept` for the pair opens the
/// pair to `invite` again.
pub proof fn lemma_accept_reopens(pre: Store, post: Store, name: Seq<char>, member: u64, now: i64)
    requires
        pre.wf(),
        accept_error(pre, name, member) is None,
        accept_ok_post(pre, post, name, member, now),
    ensures
        invite_error(post, name, member) is None,
{
}

/// Atomic accept law: a successful `accept` leaves the invitation for the
/// pair gone and exactly one membership for it present, carrying the resolved
/// role, expiration and original inviter. (That a failed `accept` changes
/// nothing is stated by `accept`'s own contract.)
pub proof fn lemma_accept_atomic(pre: Store, post: Store, name: Seq<char>, member: u64, now: i64)
    requires
        pre.wf(),
        post.wf(),
        accept_error(pre, name, member) is None,
        accept_ok_post(pre, post, name, member, now),
    ensures
        ({
            let g = active_group_of(pre.groups@, name);
            &&& !has_invitation(post.invitations@, g.id, member)
            &&& has_membership(post.memberships@, g.id, member)
            &&& membership_with(post.memberships@, g.id, member) == accepted_membership(
                pre,
                name,
                member,
                now,
            )
        }),
{
    let g = active_group_of(pre.groups@, name);
    let m = accepted_membership(pre, name, member, now);
    if has_membership(pre.memberships@, g.id, member) {
        let k = membership_index(pre.memberships@, g.id, member);
        assert(0 <= k < pre.memberships@.len() && membership_matches(
            pre.memberships@[k],
            g.id,
            member,
        ));
        assert(post.memberships@[k] == m);
        lemma_membership_unique(post.memberships@, g.id, member, k);
    } else {
        let k = post.memberships@.len() - 1;
        assert(post.memberships@[k] == m);
        lemma_membership_unique(post.memberships@, g.id, member, k);
    }
}

/// Expiration resolution law: the accepted membership expires `d` days after
/// the acceptance time, where `d` is the invitation's own override when
/// present and otherwise the group's default; when both are absent the
/// membership is permanent.
pub proof fn lemma_expiration_resolution(
    invitation_override: Option<i32>,
    group_default: Option<i32>,
    now: i64,
)
    ensures
        invitation_override matches Some(d) ==> membership_expiration(
            now,
            effective_days(invitation_override, group_default),
        ) == Some(expiration_ts(now, d)),
        invitation_override is None ==> (group_default matches Some(d) ==> membership_expiration(
            now,
            effective_days(invitation_override, group_default),
        ) == Some(expiration_ts(now, d))),
        invitation_override is None && group_default is None ==> membership_expiration(
            now,
            effective_days(invitation_override, group_default),
        ) is None,
{
}

/// The invitee and the host of a display row both have rows in the given
/// projection views.
pub open spec fn row_pair_visible(
    s: Store,
    sv: SubjectView,
    hv: HostView,
    r: DisplayInvitation,
) -> bool {
    &&& has_user(s.users@, r.user_uuid)
    &&& subject_visible(sv, user_with(s.users@, r.user_uuid).trust)
    &&& has_user(s.users@, r.host_uuid)
    &&& host_visible(hv, user_with(s.users@, r.host_uuid).trust)
}

/// The subsequence of `rows` whose invitee and host are both visible through
/// the views `sv` and `hv`, in unchanged order.
pub open spec fn visible_rows(
    s: Store,
    sv: SubjectView,
    hv: HostView,
    rows: Seq<DisplayInvitation>,
) -> Seq<DisplayInvitation>
    decreases rows.len(),
{
    if rows.len() == 0 {
        rows
    } else {
        let prev = visible_rows(s, sv, hv, rows.drop_last());
        if row_pair_visible(s, sv, hv, rows.last()) {
            prev.push(rows.last())
        } else {
            prev
        }
    }
}

/// The staff views hold a row for every trust tier.
proof fn lemma_staff_sees_all(t: TrustType)
    ensures
        subject_visible(SubjectView::UsersStaff, t),
        host_visible(HostView::HostsStaff, t),
{
    match t {
        TrustType::Staff => {
            assert(t.privilege() <= 4);
        },
        TrustType::Ndaed => {
            assert(t.privilege() <= 4);
        },
        TrustType::Vouched => {
            assert(t.privilege() <= 4);
        },
        TrustType::Authenticated => {
            assert(t.privilege() <= 4);
        },
        TrustType::Public => {
            assert(t.privilege() <= 4);
        },
    }
}

proof fn lemma_tier_rows_filter(s: Store, sv: SubjectView, hv: HostView, scope: ListScope, n: int)
    requires
        s.wf(),
        0 <= n <= s.invitations@.len(),
    ensures
        listed_rows(s, sv, hv, scope, n) == visible_rows(
            s,
            sv,
            hv,
            listed_rows(s, SubjectView::UsersStaff, HostView::HostsStaff, scope, n),
        ),
    decreases n,
{
    if n <= 0 {
    } else {
        lemma_tier_rows_filter(s, sv, hv, scope, n - 1);
        let inv = s.invitations@[n - 1];
        let tier_prev = listed_rows(s, sv, hv, scope, n - 1);
        let staff_prev = listed_rows(s, SubjectView::UsersStaff, HostView::HostsStaff, scope, n - 1);
        let staff_cur = listed_rows(s, SubjectView::UsersStaff, HostView::HostsStaff, scope, n);
        lemma_staff_sees_all(user_with(s.users@, inv.user_uuid).trust);
        lemma_staff_sees_all(user_with(s.users@, inv.added_by).trust);
        if invitation_listed(s, SubjectView::UsersStaff, HostView::HostsStaff, scope, inv) {
            let row = display_row(s, inv);
            assert(staff_cur == staff_prev.push(row));
            assert(staff_cur.drop_last() =~= staff_prev);
            assert(staff_cur.last() == row);
            assert(user_with(s.users@, inv.user_uuid).user_uuid == inv.user_uuid);
            assert(user_with(s.users@, inv.added_by).user_uuid == inv.added_by);
            assert(row_pair_visible(s, sv, hv, row) == (subject_visible(
                sv,
                user_with(s.users@, inv.user_uuid).trust,
            ) && host_visible(hv, user_with(s.users@, inv.added_by).trust)));
            if row_pair_visible(s, sv, hv, row) {
                assert(invitation_listed(s, sv, hv, scope, inv));
                assert(visible_rows(s, sv, hv, staff_cur) == visible_rows(
                    s,
                    sv,
                    hv,
                    staff_prev,
                ).push(row));
                assert(listed_rows(s, sv, hv, scope, n) == tier_prev.push(row));
            } else {
                assert(!invitation_listed(s, sv, hv, scope, inv));
                assert(visible_rows(s, sv, hv, staff_cur) == visible_rows(s, sv, hv, staff_prev));
                assert(listed_rows(s, sv, hv, scope, n) == tier_prev);
            }
        } else {
            assert(!invitation_listed(s, sv, hv, scope, inv));
            assert(staff_cur == staff_prev);
            assert(listed_rows(s, sv, hv, scope, n) == tier_prev);
        }
    }
}

/// Tier isolation law: over the same store and scope, the listing of any tier
/// holds exactly those rows of the staff listing whose invitee and host are
/// visible through the tier's views, in the same order — tiers differ only in
/// which users are visible, never in which invitations exist. (That no tier
/// choice makes a listing fail is stated by the listing contracts, which
/// always return `Ok`.)
pub proof fn lemma_tier_isolation(s: Store, tier: TrustType, scope: ListScope)
    requires
        s.wf(),
    ensures
        ({
            let views = spec_scoped_views(tier);
            all_listed_rows(s, views.0, views.1, scope) == visible_rows(
                s,
                views.0,
                views.1,
                all_listed_rows(s, SubjectView::UsersStaff, HostView::HostsStaff, scope),
            )
        }),
{
    lemma_tier_rows_filter(
        s,
        spec_scoped_views(tier).0,
        spec_scoped_views(tier).1,
        scope,
        s.invitations@.len() as int,
    );
}

/// No group both carries the name of an inactive group and is active.
proof fn lemma_inactive_name_not_active(s: Store, name: Seq<char>, gi: int)
    requires
        s.wf(),
        0 <= gi < s.groups@.len(),
        s.groups@[gi].name@ == name,
        !s.groups@[gi].active,
    ensures
        !has_active_group(s.groups@, name),
{
    if has_active_group(s.groups@, name) {
        let j = active_group_index(s.groups@, name);
        assert(is_active_named(s.groups@[j], name));
        if j < gi {
            assert(s.groups@[j].name@ != s.groups@[gi].name@);
        } else if gi < j {
            assert(s.groups@[gi].name@ != s.groups@[j].name@);
        }
    }
}

proof fn lemma_user_rows_skip_inactive(
    s: Store,
    sv: SubjectView,
    hv: HostView,
    uuid: u64,
    name: Seq<char>,
    gi: int,
    n: int,
)
    requires
        s.wf(),
        0 <= gi < s.groups@.len(),
        s.groups@[gi].name@ == name,
        !s.groups@[gi].active,
        0 <= n <= s.invitations@.len(),
    ensures
        forall|k: int|
            0 <= k < listed_rows(s, sv, hv, ListScope::User(uuid), n).len() ==> (
            #[trigger] listed_rows(s, sv, hv, ListScope::User(uuid), n)[k]).group_name@ != name,
    decreases n,
{
    if n > 0 {
        lemma_user_rows_skip_inactive(s, sv, hv, uuid, name, gi, n - 1);
        let inv = s.invitations@[n - 1];
        let prev = listed_rows(s, sv, hv, ListScope::User(uuid), n - 1);
        let cur = listed_rows(s, sv, hv, ListScope::User(uuid), n);
        if invitation_listed(s, sv, hv, ListScope::User(uuid), inv) {
            let j = group_index_by_id(s.groups@, inv.group_id);
            assert(0 <= j < s.groups@.len() && s.groups@[j].id == inv.group_id);
            assert(group_with_id(s.groups@, inv.group_id) == s.groups@[j]);
            assert(s.groups@[j].active);
            if s.groups@[j].name@ == name {
                if j < gi {
                    assert(s.groups@[j].name@ != s.groups@[gi].name@);
                } else if gi < j {
                    assert(s.groups@[gi].name@ != s.groups@[j].name@);
                }
                assert(false);
            }
            let row = display_row(s, inv);
            assert(cur == prev.push(row));
            assert(row.group_name@ != name);
            assert(forall|k: int|
                0 <= k < prev.len() ==> cur[k] == #[trigger] prev[k]);
        } else {
            assert(cur == prev);
        }
    }
}

/// Inactive-group exclusion law: an invitation that belongs to a group whose
/// `active` flag is false appears in no group listing under the group's name,
/// appears in no user listing, and cannot be accepted — `accept` fails with
/// `NotFound` for it.
pub proof fn lemma_inactive_group_excluded(
    s: Store,
    name: &str,
    gi: int,
    tier: TrustType,
    uuid: u64,
    member: u64,
)
    requires
        s.wf(),
        0 <= gi < s.groups@.len(),
        s.groups@[gi].name@ == name@,
        !s.groups@[gi].active,
    ensures
        all_listed_rows(s, spec_scoped_views(tier).0, spec_scoped_views(tier).1, ListScope::Group(name))
            =~= Seq::<DisplayInvitation>::empty(),
        forall|k: int|
            0 <= k < all_listed_rows(
                s,
                spec_scoped_views(tier).0,
                spec_scoped_views(tier).1,
                ListScope::User(uuid),
            ).len() ==> (#[trigger] all_listed_rows(
                s,
                spec_scoped_views(tier).0,
                spec_scoped_views(tier).1,
                ListScope::User(uuid),
            )[k]).group_name@ != name@,
        accept_error(s, name@, member) == Some(StoreError::NotFound),
{
    lemma_inactive_name_not_active(s, name@, gi);
    crate::listing::lemma_rows_empty_when_no_group(
        s,
        spec_scoped_views(tier).0,
        spec_scoped_views(tier).1,
        name,
        s.invitations@.len() as int,
    );
    lemma_user_rows_skip_inactive(
        s,
        spec_scoped_views(tier).0,
        spec_scoped_views(tier).1,
        uuid,
        name@,
        gi,
        s.invitations@.len() as int,
    );
}

} // verus!
