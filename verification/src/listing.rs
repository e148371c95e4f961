use vstd::prelude::*;

use crate::store::active_group_of;
use crate::store::clone_opt_string;
use crate::store::find_active_group;
use crate::store::find_group_by_id;
use crate::store::find_terms;
use crate::store::find_user;
use crate::store::group_with_id;
use crate::store::has_active_group;
use crate::store::has_group_with_id;
use crate::store::has_user;
use crate::store::user_with;
use crate::store::Invitation;
use crate::store::Store;
use crate::store::User;
use crate::types::StoreError;
use crate::types::TrustType;
use crate::views::host_visible;
use crate::views::host_view_allows;
use crate::views::scoped_views;
use crate::views::spec_scoped_views;
use crate::views::subject_visible;
use crate::views::subject_view_allows;
use crate::views::HostView;
use crate::views::SubjectView;

verus! {

/// The display-ready read model of one invitation: the invitee as the subject
/// view projects them, the invitation's own fields, the group's name, whether
/// the group publishes terms-of-service text, and the host as the host view
/// projects them. Never persisted; computed on read.
#[derive(Clone, Debug, PartialEq)]
pub struct DisplayInvitation {
    pub user_uuid: u64,
    pub picture: Option<String>,
    pub first_name: Option<String>,
    pub last_name: Option<String>,
    pub username: String,
    pub email: Option<String>,
    /// Computed per row as `trust == Staff`; never stored.
    pub is_staff: bool,
    pub invitation_expiration: Option<i64>,
    pub group_expiration: Option<i32>,
    pub group_name: String,
    pub has_terms: bool,
    pub host_uuid: u64,
    pub host_first_name: Option<String>,
    pub host_last_name: Option<String>,
    pub host_username: String,
    pub host_email: Option<String>,
}

/// What a listing ranges over: all invitations of one active group, or all
/// invitations a user holds in active groups.
#[derive(Clone, Copy, Debug)]
pub enum ListScope<'a> {
    Group(&'a str),
    User(u64),
}

/// The scope's own selection rule: for a group scope the invitation belongs
/// to the active group of that name; for a user scope it is the user's and
/// its group is active.
pub open spec fn scope_matches(s: Store, scope: ListScope, inv: Invitation) -> bool {
    match scope {
        ListScope::Group(name) => has_active_group(s.groups@, name@) && inv.group_id
            == active_group_of(s.groups@, name@).id,
        ListScope::User(uuid) => inv.user_uuid == uuid && has_group_with_id(
            s.groups@,
            inv.group_id,
        ) && group_with_id(s.groups@, inv.group_id).active,
    }
}

/// An invitation yields a row when the scope selects it and both the invitee
/// and the host have rows in the tier's projection views.
pub open spec fn invitation_listed(
    s: Store,
    sv: SubjectView,
    hv: HostView,
    scope: ListScope,
    inv: Invitation,
) -> bool {
    &&& scope_matches(s, scope, inv)
    &&& has_user(s.users@, inv.user_uuid)
    &&& subject_visible(sv, user_with(s.users@, inv.user_uuid).trust)
    &&& has_user(s.users@, inv.added_by)
    &&& host_visible(hv, user_with(s.users@, inv.added_by).trust)
}

/// The row an invitation projects to.
pub open spec fn display_row(s: Store, inv: Invitation) -> DisplayInvitation {
    let u = user_with(s.users@, inv.user_uuid);
    let h = user_with(s.users@, inv.added_by);
    let g = group_with_id(s.groups@, inv.group_id);
    DisplayInvitation {
        user_uuid: u.user_uuid,
        picture: u.picture,
        first_name: u.first_name,
        last_name: u.last_name,
        username: u.username,
        email: u.email,
        is_staff: u.trust == TrustType::Staff,
        invitation_expiration: inv.invitation_expiration,
        group_expiration: inv.group_expiration,
        group_name: g.name,
        has_terms: s.terms@.contains(inv.group_id),
        host_uuid: h.user_uuid,
        host_first_name: h.first_name,
        host_last_name: h.last_name,
        host_username: h.username,
        host_email: h.email,
    }
}

/// The rows projected from the first `n` invitations, in storage order.
pub open spec fn listed_rows(
    s: Store,
    sv: SubjectView,
    hv: HostView,
    scope: ListScope,
    n: int,
) -> Seq<DisplayInvitation>
    decreases n,
{
    if n <= 0 {
        Seq::empty()
    } else {
        let prev = listed_rows(s, sv, hv, scope, n - 1);
        if invitation_listed(s, sv, hv, scope, s.invitations@[n - 1]) {
            prev.push(display_row(s, s.invitations@[n - 1]))
        } else {
            prev
        }
    }
}

/// All rows of the listing for `scope`, read through the views `sv` and `hv`.
pub open spec fn all_listed_rows(
    s: Store,
    sv: SubjectView,
    hv: HostView,
    scope: ListScope,
) -> Seq<DisplayInvitation> {
    listed_rows(s, sv, hv, scope, s.invitations@.len() as int)
}

/// A group scope over a name no active group carries selects nothing.
pub proof fn lemma_rows_empty_when_no_group(
    s: Store,
    sv: SubjectView,
    hv: HostView,
    name: &str,
    n: int,
)
    requires
        !has_active_group(s.groups@, name@),
    ensures
        listed_rows(s, sv, hv, ListScope::Group(name), n) =~= Seq::empty(),
    decreases n,
{
    if n > 0 {
        lemma_rows_empty_when_no_group(s, sv, hv, name, n - 1);
    }
}

/// The one shared listing: joins each selected invitation with its group, the
/// optional terms-of-service record, and the subject and host views, in
/// storage order. The tier-named entry points all route here.
pub fn scoped_invitations_and_host(
    store: &Store,
    subject_view: SubjectView,
    host_view: HostView,
    scope: ListScope,
) -> (r: Result<Vec<DisplayInvitation>, StoreError>)
    requires
        store.wf(),
    ensures
        r matches Ok(rows) && rows@ == all_listed_rows(*store, subject_view, host_view, scope),
{
    let scope_group_id: Option<u64> = match scope {
        ListScope::Group(name) => {
            match find_active_group(&store.groups, name) {
                Some(gi) => Some(store.groups[gi].id),
                None => {
                    proof {
                        lemma_rows_empty_when_no_group(
                            *store,
                            subject_view,
                            host_view,
                            name,
                            store.invitations@.len() as int,
                        );
                    }
                    return Ok(Vec::new());
                },
            }
        },
        ListScope::User(_) => None,
    };
    let mut rows: Vec<DisplayInvitation> = Vec::new();
    let n = store.invitations.len();
    let mut i: usize = 0;
    while i < n
        invariant
            store.wf(),
            n == store.invitations@.len(),
            i <= n,
            scope matches ListScope::Group(name) ==> has_active_group(store.groups@, name@)
                && scope_group_id == Some(active_group_of(store.groups@, name@).id),
            rows@ == listed_rows(*store, subject_view, host_view, scope, i as int),
        decreases n - i,
    {
        let inv = store.invitations[i];
        let selected: bool = match scope {
            ListScope::Group(_) => {
                match scope_group_id {
                    Some(g) => inv.group_id == g,
                    None => false,
                }
            },
            ListScope::User(uuid) => {
                if inv.user_uuid == uuid {
                    match find_group_by_id(&store.groups, inv.group_id) {
                        Some(j) => store.groups[j].active,
                        None => false,
                    }
                } else {
                    false
                }
            },
        };
        proof {
            assert(selected == scope_matches(*store, scope, store.invitations@[i as int]));
        }
        let included: bool = if selected {
            match find_user(&store.users, inv.user_uuid) {
                Some(ui) => {
                    if subject_view_allows(subject_view, store.users[ui].trust) {
                        match find_user(&store.users, inv.added_by) {
                            Some(hi) => host_view_allows(host_view, store.users[hi].trust),
                            None => false,
                        }
                    } else {
                        false
                    }
                },
                None => false,
            }
        } else {
            false
        };
        proof {
            assert(included == invitation_listed(
                *store,
                subject_view,
                host_view,
                scope,
                store.invitations@[i as int],
            ));
        }
        if included {
            let ui = find_user(&store.users, inv.user_uuid).unwrap();
            let hi = find_user(&store.users, inv.added_by).unwrap();
            let gj = find_group_by_id(&store.groups, inv.group_id).unwrap();
            let row = DisplayInvitation {
                user_uuid: store.users[ui].user_uuid,
                picture: clone_opt_string(&store.users[ui].picture),
                first_name: clone_opt_string(&store.users[ui].first_name),
                last_name: clone_opt_string(&store.users[ui].last_name),
                username: store.users[ui].username.clone(),
                email: clone_opt_string(&store.users[ui].email),
                is_staff: store.users[ui].trust == TrustType::Staff,
                invitation_expiration: inv.invitation_expiration,
                group_expiration: inv.group_expiration,
                group_name: store.groups[gj].name.clone(),
                has_terms: find_terms(&store.terms, inv.group_id),
                host_uuid: store.users[hi].user_uuid,
                host_first_name: clone_opt_string(&store.users[hi].first_name),
                host_last_name: clone_opt_string(&store.users[hi].last_name),
                host_username: store.users[hi].username.clone(),
                host_email: clone_opt_string(&store.users[hi].email),
            };
            proof {
                assert(row == display_row(*store, store.invitations@[i as int]));
            }
            rows.push(row);
        }
        proof {
            assert(rows@ == listed_rows(
                *store,
                subject_view,
                host_view,
                scope,
                i as int + 1,
            ));
        }
        i += 1;
    }
    Ok(rows)
}

/// All invitations of the active group `group_name`, read through the views
/// of `tier`; an unknown or inactive group yields no rows, not an error.
pub fn list_for_group(store: &Store, tier: TrustType, group_name: &str) -> (r: Result<
    Vec<DisplayInvitation>,
    StoreError,
>)
    requires
        store.wf(),
    ensures
        r matches Ok(rows) && rows@ == all_listed_rows(
            *store,
            spec_scoped_views(tier).0,
            spec_scoped_views(tier).1,
            ListScope::Group(group_name),
        ),
{
    let (subject_view, host_view) = scoped_views(tier);
    scoped_invitations_and_host(store, subject_view, host_view, ListScope::Group(group_name))
}

/// All invitations `user` holds in active groups, read through the views of
/// `tier`.
pub fn list_for_user(store: &Store, tier: TrustType, user: &User) -> (r: Result<
    Vec<DisplayInvitation>,
    StoreError,
>)
    requires
        store.wf(),
    ensures
        r matches Ok(rows) && rows@ == all_listed_rows(
            *store,
            spec_scoped_views(tier).0,
            spec_scoped_views(tier).1,
            ListScope::User(user.user_uuid),
        ),
{
    let (subject_view, host_view) = scoped_views(tier);
    scoped_invitations_and_host(store, subject_view, host_view, ListScope::User(user.user_uuid))
}

/// Group listing through the staff tier's views.
pub fn staff_scoped_invitations_and_host(store: &Store, group_name: &str) -> (r: Result<
    Vec<DisplayInvitation>,
    StoreError,
>)
    requires
        store.wf(),
    ensures
        r matches Ok(rows) && rows@ == all_listed_rows(
            *store,
            SubjectView::UsersStaff,
            HostView::HostsStaff,
            ListScope::Group(group_name),
        ),
{
    list_for_group(store, TrustType::Staff, group_name)
}

/// Group listing through the NDA'd tier's views.
pub fn ndaed_scoped_invitations_and_host(store: &Store, group_name: &str) -> (r: Result<
    Vec<DisplayInvitation>,
    StoreError,
>)
    requires
        store.wf(),
    ensures
        r matches Ok(rows) && rows@ == all_listed_rows(
            *store,
            SubjectView::UsersNdaed,
            HostView::HostsNdaed,
            ListScope::Group(group_name),
        ),
{
    list_for_group(store, TrustType::Ndaed, group_name)
}

/// Group listing through the vouched tier's views.
pub fn vouched_scoped_invitations_and_host(store: &Store, group_name: &str) -> (r: Result<
    Vec<DisplayInvitation>,
    StoreError,
>)
    requires
        store.wf(),
    ensures
        r matches Ok(rows) && rows@ == all_listed_rows(
            *store,
            SubjectView::UsersVouched,
            HostView::HostsVouched,
            ListScope::Group(group_name),
        ),
{
    list_for_group(store, TrustType::Vouched, group_name)
}

/// Group listing through the authenticated tier's views.
pub fn authenticated_scoped_invitations_and_host(store: &Store, group_name: &str) -> (r: Result<
    Vec<DisplayInvitation>,
    StoreError,
>)
    requires
        store.wf(),
    ensures
        r matches Ok(rows) && rows@ == all_listed_rows(
            *store,
            SubjectView::UsersAuthenticated,
            HostView::HostsAuthenticated,
            ListScope::Group(group_name),
        ),
{
    list_for_group(store, TrustType::Authenticated, group_name)
}

/// Group listing through the public tier's views.
pub fn public_scoped_invitations_and_host(store: &Store, group_name: &str) -> (r: Result<
    Vec<DisplayInvitation>,
    StoreError,
>)
    requires
        store.wf(),
    ensures
        r matches Ok(rows) && rows@ == all_listed_rows(
            *store,
            SubjectView::UsersPublic,
            HostView::HostsPublic,
            ListScope::Group(group_name),
        ),
{
    list_for_group(store, TrustType::Public, group_name)
}

/// User listing through the staff tier's views.
pub fn staff_scoped_invitations_and_host_for_user(store: &Store, user: &User) -> (r: Result<
    Vec<DisplayInvitation>,
    StoreError,
>)
    requires
        store.wf(),
    ensures
        r matches Ok(rows) && rows@ == all_listed_rows(
            *store,
            SubjectView::UsersStaff,
            HostView::HostsStaff,
            ListScope::User(user.user_uuid),
        ),
{
    list_for_user(store, TrustType::Staff, user)
}

/// User listing through the NDA'd tier's views.
pub fn ndaed_scoped_invitations_and_host_for_user(store: &Store, user: &User) -> (r: Result<
    Vec<DisplayInvitation>,
    StoreError,
>)
    requires
        store.wf(),
    ensures
        r matches Ok(rows) && rows@ == all_listed_rows(
            *store,
            SubjectView::UsersNdaed,
            HostView::HostsNdaed,
            ListScope::User(user.user_uuid),
        ),
{
    list_for_user(store, TrustType::Ndaed, user)
}

/// User listing through the vouched tier's views.
pub fn vouched_scoped_invitations_and_host_for_user(store: &Store, user: &User) -> (r: Result<
    Vec<DisplayInvitation>,
    StoreError,
>)
    requires
        store.wf(),
    ensures
        r matches Ok(rows) && rows@ == all_listed_rows(
            *store,
            SubjectView::UsersVouched,
            HostView::HostsVouched,
            ListScope::User(user.user_uuid),
        ),
{
    list_for_user(store, TrustType::Vouched, user)
}

/// User listing through the authenticated tier's views.
pub fn authenticated_scoped_invitations_and_host_for_user(store: &Store, user: &User) -> (r:
    Result<Vec<DisplayInvitation>, StoreError>)
    requires
        store.wf(),
    ensures
        r matches Ok(rows) && rows@ == all_listed_rows(
            *store,
            SubjectView::UsersAuthenticated,
            HostView::HostsAuthenticated,
            ListScope::User(user.user_uuid),
        ),
{
    list_for_user(store, TrustType::Authenticated, user)
}

/// User listing through the public tier's views.
pub fn public_scoped_invitations_and_host_for_user(store: &Store, user: &User) -> (r: Result<
    Vec<DisplayInvitation>,
    StoreError,
>)
    requires
        store.wf(),
    ensures
        r matches Ok(rows) && rows@ == all_listed_rows(
            *store,
            SubjectView::UsersPublic,
            HostView::HostsPublic,
            ListScope::User(user.user_uuid),
        ),
{
    list_for_user(store, TrustType::Public, user)
}

} // verus!
