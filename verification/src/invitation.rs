use vstd::pervasive::VecAdditionalExecFns;
use vstd::prelude::*;

use crate::store::active_group_of;
use crate::store::find_active_group;
use crate::store::find_group_by_id;
use crate::store::find_invitation;
use crate::store::find_membership;
use crate::store::group_with_id;
use crate::store::has_active_group;
use crate::store::has_group_with_id;
use crate::store::has_invitation;
use crate::store::has_membership;
use crate::store::invitation_index;
use crate::store::invitation_matches;
use crate::store::invitation_with;
use crate::store::invitations_ok;
use crate::store::membership_index;
use crate::store::membership_matches;
use crate::store::memberships_ok;
use crate::store::Invitation;
use crate::store::LogContext;
use crate::store::LogEntry;
use crate::store::Membership;
use crate::store::Store;
use crate::store::User;
use crate::time::membership_expiration;
use crate::time::now_ts;
use crate::time::to_expiration_ts;
use crate::types::LogOperationType;
use crate::types::LogTargetType;
use crate::types::StoreError;

verus! {

/// Wraps an audit annotation, as handed to the log sink.
pub fn log_comment_body(text: &str) -> (r: Option<String>)
    ensures
        r matches Some(s) && s@ == text@,
{
    Some(text.to_owned())
}

/// Why `invite` fails, if it does: the group must exist and be active, and the
/// `(group, member)` pair must not already hold an invitation.
pub open spec fn invite_error(s: Store, name: Seq<char>, member: u64) -> Option<StoreError> {
    if !has_active_group(s.groups@, name) {
        Some(StoreError::NotFound)
    } else if has_invitation(s.invitations@, active_group_of(s.groups@, name).id, member) {
        Some(StoreError::Conflict)
    } else {
        None
    }
}

/// The invitation row a successful `invite` writes.
pub open spec fn new_invitation(
    s: Store,
    name: Seq<char>,
    host: u64,
    member: u64,
    invitation_expiration: Option<i64>,
    group_expiration: Option<i32>,
) -> Invitation {
    Invitation {
        group_id: active_group_of(s.groups@, name).id,
        user_uuid: member,
        invitation_expiration,
        group_expiration,
        added_by: host,
    }
}

/// State change of a successful `invite`: the invitation is appended, one
/// `Created`/`Invitation` audit entry is appended, and nothing else moves.
pub open spec fn invite_ok_post(
    pre: Store,
    post: Store,
    name: Seq<char>,
    host: u64,
    member: u64,
    invitation_expiration: Option<i64>,
    group_expiration: Option<i32>,
) -> bool {
    &&& post.invitations@ == pre.invitations@.push(
        new_invitation(pre, name, host, member, invitation_expiration, group_expiration),
    )
    &&& post.logs@ == pre.logs@.push(
        LogEntry {
            group_id: active_group_of(pre.groups@, name).id,
            actor_user_uuid: host,
            target_user_uuid: Some(member),
            target_type: LogTargetType::Invitation,
            operation_type: LogOperationType::Created,
            annotation: None,
        },
    )
    &&& post.groups@ == pre.groups@
    &&& post.users@ == pre.users@
    &&& post.memberships@ == pre.memberships@
    &&& post.terms@ == pre.terms@
}

proof fn lemma_invitations_push_ok(invs: Seq<Invitation>, inv: Invitation)
    requires
        invitations_ok(invs),
        !has_invitation(invs, inv.group_id, inv.user_uuid),
    ensures
        invitations_ok(invs.push(inv)),
{
    let post = invs.push(inv);
    assert forall|p: int, q: int| 0 <= p < q < post.len() implies !((#[trigger] post[p]).group_id
        == (#[trigger] post[q]).group_id && post[p].user_uuid == post[q].user_uuid) by {
        if q == invs.len() {
            assert(post[p] == invs[p]);
            assert(post[q] == inv);
            if invs[p].group_id == inv.group_id && invs[p].user_uuid == inv.user_uuid {
                assert(invitation_matches(invs[p], inv.group_id, inv.user_uuid));
                assert(has_invitation(invs, inv.group_id, inv.user_uuid));
            }
        } else {
            assert(post[p] == invs[p]);
            assert(post[q] == invs[q]);
        }
    }
}

proof fn lemma_invitations_update_ok(invs: Seq<Invitation>, k: int, inv: Invitation)
    requires
        invitations_ok(invs),
        0 <= k < invs.len(),
        inv.group_id == invs[k].group_id,
        inv.user_uuid == invs[k].user_uuid,
    ensures
        invitations_ok(invs.update(k, inv)),
{
    let post = invs.update(k, inv);
    assert forall|p: int, q: int| 0 <= p < q < post.len() implies !((#[trigger] post[p]).group_id
        == (#[trigger] post[q]).group_id && post[p].user_uuid == post[q].user_uuid) by {
        assert(invs[p].group_id != invs[q].group_id || invs[p].user_uuid != invs[q].user_uuid);
        if p != k {
            assert(post[p] == invs[p]);
        }
        if q != k {
            assert(post[q] == invs[q]);
        }
    }
}

/// Removing the row for a pair leaves the rows well-keyed and the pair absent.
proof fn lemma_invitations_remove_ok(invs: Seq<Invitation>, k: int)
    requires
        invitations_ok(invs),
        0 <= k < invs.len(),
    ensures
        invitations_ok(invs.remove(k)),
        !has_invitation(invs.remove(k), invs[k].group_id, invs[k].user_uuid),
{
    invs.remove_ensures(k);
    let post = invs.remove(k);
    assert forall|p: int, q: int| 0 <= p < q < post.len() implies !((#[trigger] post[p]).group_id
        == (#[trigger] post[q]).group_id && post[p].user_uuid == post[q].user_uuid) by {
        if p < k {
            assert(post[p] == invs[p]);
        } else {
            assert(post[p] == invs[p + 1]);
        }
        if q < k {
            assert(post[q] == invs[q]);
        } else {
            assert(post[q] == invs[q + 1]);
        }
    }
    assert forall|p: int| 0 <= p < post.len() implies !invitation_matches(
        #[trigger] post[p],
        invs[k].group_id,
        invs[k].user_uuid,
    ) by {
        if p < k {
            assert(post[p] == invs[p]);
        } else {
            assert(post[p] == invs[p + 1]);
        }
    }
}

proof fn lemma_memberships_push_ok(mems: Seq<Membership>, m: Membership)
    requires
        memberships_ok(mems),
        !has_membership(mems, m.group_id, m.user_uuid),
    ensures
        memberships_ok(mems.push(m)),
{
    let post = mems.push(m);
    assert forall|p: int, q: int| 0 <= p < q < post.len() implies !((#[trigger] post[p]).group_id
        == (#[trigger] post[q]).group_id && post[p].user_uuid == post[q].user_uuid) by {
        if q == mems.len() {
            assert(post[p] == mems[p]);
            assert(post[q] == m);
            if mems[p].group_id == m.group_id && mems[p].user_uuid == m.user_uuid {
                assert(membership_matches(mems[p], m.group_id, m.user_uuid));
                assert(has_membership(mems, m.group_id, m.user_uuid));
            }
        } else {
            assert(post[p] == mems[p]);
            assert(post[q] == mems[q]);
        }
    }
}

proof fn lemma_memberships_update_ok(mems: Seq<Membership>, k: int, m: Membership)
    requires
        memberships_ok(mems),
        0 <= k < mems.len(),
        m.group_id == mems[k].group_id,
        m.user_uuid == mems[k].user_uuid,
    ensures
        memberships_ok(mems.update(k, m)),
{
    let post = mems.update(k, m);
    assert forall|p: int, q: int| 0 <= p < q < post.len() implies !((#[trigger] post[p]).group_id
        == (#[trigger] post[q]).group_id && post[p].user_uuid == post[q].user_uuid) by {
        assert(mems[p].group_id != mems[q].group_id || mems[p].user_uuid != mems[q].user_uuid);
        if p != k {
            assert(post[p] == mems[p]);
        }
        if q != k {
            assert(post[q] == mems[q]);
        }
    }
}

/// Creates an invitation for `member` to join the active group named
/// `group_name`. Fails with `NotFound` when no such active group exists and
/// with `Conflict` when the pair already holds an invitation; on success the
/// row and one `Created`/`Invitation` audit entry are appended.
pub fn invite(
    store: &mut Store,
    group_name: &str,
    host: User,
    member: User,
    invitation_expiration: Option<i64>,
    group_expiration: Option<i32>,
) -> (r: Result<(), StoreError>)
    requires
        old(store).wf(),
    ensures
        final(store).wf(),
        r is Ok <==> invite_error(*old(store), group_name@, member.user_uuid) is None,
        r matches Err(e) ==> invite_error(*old(store), group_name@, member.user_uuid) == Some(e)
            && *final(store) == *old(store),
        r is Ok ==> invite_ok_post(
            *old(store),
            *final(store),
            group_name@,
            host.user_uuid,
            member.user_uuid,
            invitation_expiration,
            group_expiration,
        ),
{
    let gi = match find_active_group(&store.groups, group_name) {
        Some(gi) => gi,
        None => {
            return Err(StoreError::NotFound);
        },
    };
    let group_id = store.groups[gi].id;
    if find_invitation(&store.invitations, group_id, member.user_uuid).is_some() {
        return Err(StoreError::Conflict);
    }
    let invitation = Invitation {
        group_id,
        user_uuid: member.user_uuid,
        invitation_expiration,
        group_expiration,
        added_by: host.user_uuid,
    };
    let log_ctx = LogContext::with(group_id, host.user_uuid).with_user(member.user_uuid);
    proof {
        lemma_invitations_push_ok(store.invitations@, invitation);
    }
    store.invitations.push(invitation);
    store.record(&log_ctx, LogTargetType::Invitation, LogOperationType::Created, None);
    Ok(())
}

/// Why `update` fails, if it does: both the active group and the invitation
/// for the pair must exist.
pub open spec fn update_error(s: Store, name: Seq<char>, member: u64) -> Option<StoreError> {
    if !has_active_group(s.groups@, name) {
        Some(StoreError::NotFound)
    } else if !has_invitation(s.invitations@, active_group_of(s.groups@, name).id, member) {
        Some(StoreError::NotFound)
    } else {
        None
    }
}

/// The invitation row after a partial update: a field supplied as `Some` is
/// set, a field supplied as `None` is left untouched.
pub open spec fn updated_invitation(
    inv: Invitation,
    invitation_expiration: Option<i64>,
    group_expiration: Option<i32>,
) -> Invitation {
    Invitation {
        group_id: inv.group_id,
        user_uuid: inv.user_uuid,
        invitation_expiration: if invitation_expiration is Some {
            invitation_expiration
        } else {
            inv.invitation_expiration
        },
        group_expiration: if group_expiration is Some {
            group_expiration
        } else {
            inv.group_expiration
        },
        added_by: inv.added_by,
    }
}

/// State change of a successful `update`: the row is rewritten in place and
/// one `Updated`/`Invitation` audit entry is appended; nothing else moves.
pub open spec fn update_ok_post(
    pre: Store,
    post: Store,
    name: Seq<char>,
    host: u64,
    member: u64,
    invitation_expiration: Option<i64>,
    group_expiration: Option<i32>,
) -> bool {
    let gid = active_group_of(pre.groups@, name).id;
    let k = invitation_index(pre.invitations@, gid, member);
    &&& post.invitations@ == pre.invitations@.update(
        k,
        updated_invitation(pre.invitations@[k], invitation_expiration, group_expiration),
    )
    &&& post.logs@ == pre.logs@.push(
        LogEntry {
            group_id: gid,
            actor_user_uuid: host,
            target_user_uuid: Some(member),
            target_type: LogTargetType::Invitation,
            operation_type: LogOperationType::Updated,
            annotation: None,
        },
    )
    &&& post.groups@ == pre.groups@
    &&& post.users@ == pre.users@
    &&& post.memberships@ == pre.memberships@
    &&& post.terms@ == pre.terms@
}

/// Rewrites the supplied fields of the invitation for `(group_name, member)`.
/// Fails with `NotFound` when the active group or the invitation is missing;
/// on success the row keeps every field handed as `None` and one
/// `Updated`/`Invitation` audit entry is appended.
pub fn update(
    store: &mut Store,
    group_name: &str,
    host: User,
    member: User,
    invitation_expiration: Option<i64>,
    group_expiration: Option<i32>,
) -> (r: Result<(), StoreError>)
    requires
        old(store).wf(),
    ensures
        final(store).wf(),
        r is Ok <==> update_error(*old(store), group_name@, member.user_uuid) is None,
        r matches Err(e) ==> update_error(*old(store), group_name@, member.user_uuid) == Some(e)
            && *final(store) == *old(store),
        r is Ok ==> update_ok_post(
            *old(store),
            *final(store),
            group_name@,
            host.user_uuid,
            member.user_uuid,
            invitation_expiration,
            group_expiration,
        ),
{
    let gi = match find_active_group(&store.groups, group_name) {
        Some(gi) => gi,
        None => {
            return Err(StoreError::NotFound);
        },
    };
    let group_id = store.groups[gi].id;
    let ki = match find_invitation(&store.invitations, group_id, member.user_uuid) {
        Some(ki) => ki,
        None => {
            return Err(StoreError::NotFound);
        },
    };
    let cur = store.invitations[ki];
    let rewritten = Invitation {
        group_id: cur.group_id,
        user_uuid: cur.user_uuid,
        invitation_expiration: match invitation_expiration {
            Some(e) => Some(e),
            None => cur.invitation_expiration,
        },
        group_expiration: match group_expiration {
            Some(e) => Some(e),
            None => cur.group_expiration,
        },
        added_by: cur.added_by,
    };
    let log_ctx = LogContext::with(group_id, host.user_uuid).with_user(member.user_uuid);
    proof {
        lemma_invitations_update_ok(store.invitations@, ki as int, rewritten);
    }
    store.invitations.set(ki, rewritten);
    store.record(&log_ctx, LogTargetType::Invitation, LogOperationType::Updated, None);
    Ok(())
}

/// Why `delete` fails, if it does: only a missing or inactive group is an
/// error; a missing invitation is not.
pub open spec fn delete_error(s: Store, name: Seq<char>) -> Option<StoreError> {
    if !has_active_group(s.groups@, name) {
        Some(StoreError::NotFound)
    } else {
        None
    }
}

/// State change of a successful `delete`: the row for the pair is removed if
/// present, and one `Deleted`/`Invitation` audit entry is appended whether or
/// not a row existed (the attempt itself is audited); nothing else moves.
pub open spec fn delete_ok_post(
    pre: Store,
    post: Store,
    name: Seq<char>,
    host: u64,
    member: u64,
) -> bool {
    let gid = active_group_of(pre.groups@, name).id;
    &&& post.invitations@ == if has_invitation(pre.invitations@, gid, member) {
        pre.invitations@.remove(invitation_index(pre.invitations@, gid, member))
    } else {
        pre.invitations@
    }
    &&& !has_invitation(post.invitations@, gid, member)
    &&& post.logs@ == pre.logs@.push(
        LogEntry {
            group_id: gid,
            actor_user_uuid: host,
            target_user_uuid: Some(member),
            target_type: LogTargetType::Invitation,
            operation_type: LogOperationType::Deleted,
            annotation: None,
        },
    )
    &&& post.groups@ == pre.groups@
    &&& post.users@ == pre.users@
    &&& post.memberships@ == pre.memberships@
    &&& post.terms@ == pre.terms@
}

/// Removes the invitation for `(group_name, member)`. Deletion is idempotent:
/// a missing invitation is not an error, and the `Deleted`/`Invitation` audit
/// entry is appended either way. Fails only with `NotFound`, when no active
/// group carries the name.
pub fn delete(store: &mut Store, group_name: &str, host: User, member: User) -> (r: Result<
    (),
    StoreError,
>)
    requires
        old(store).wf(),
    ensures
        final(store).wf(),
        r is Ok <==> delete_error(*old(store), group_name@) is None,
        r matches Err(e) ==> delete_error(*old(store), group_name@) == Some(e) && *final(store)
            == *old(store),
        r is Ok ==> delete_ok_post(
            *old(store),
            *final(store),
            group_name@,
            host.user_uuid,
            member.user_uuid,
        ),
{
    let gi = match find_active_group(&store.groups, group_name) {
        Some(gi) => gi,
        None => {
            return Err(StoreError::NotFound);
        },
    };
    let group_id = store.groups[gi].id;
    match find_invitation(&store.invitations, group_id, member.user_uuid) {
        Some(ki) => {
            proof {
                lemma_invitations_remove_ok(store.invitations@, ki as int);
            }
            store.invitations.remove(ki);
        },
        None => {},
    }
    let log_ctx = LogContext::with(group_id, host.user_uuid).with_user(member.user_uuid);
    store.record(&log_ctx, LogTargetType::Invitation, LogOperationType::Deleted, None);
    Ok(())
}

/// An invitation is counted for `name` when its group carries that name,
/// active or not.
pub open spec fn pending_invitation(s: Store, name: Seq<char>, inv: Invitation) -> bool {
    has_group_with_id(s.groups@, inv.group_id) && group_with_id(s.groups@, inv.group_id).name@
        == name
}

/// How many of the first `n` invitation rows are counted for `name`.
pub open spec fn counted_invitations(s: Store, name: Seq<char>, n: int) -> int
    decreases n,
{
    if n <= 0 {
        0
    } else {
        counted_invitations(s, name, n - 1) + if pending_invitation(
            s,
            name,
            s.invitations@[n - 1],
        ) {
            1int
        } else {
            0int
        }
    }
}

/// The number of invitations held against the group named `name`.
pub open spec fn spec_pending_count(s: Store, name: Seq<char>) -> int {
    counted_invitations(s, name, s.invitations@.len() as int)
}

/// Counts the invitations of the group named `group_name`, whatever the
/// group's active flag; an unknown name yields zero, never an error.
pub fn pending_count(store: &Store, group_name: &str) -> (r: Result<i64, StoreError>)
    requires
        store.wf(),
        store.invitations@.len() <= i64::MAX,
    ensures
        r matches Ok(c) && c == spec_pending_count(*store, group_name@),
{
    let needle: String = group_name.to_owned();
    let n = store.invitations.len();
    let mut c: i64 = 0;
    let mut i: usize = 0;
    while i < n
        invariant
            store.wf(),
            n == store.invitations@.len(),
            n <= i64::MAX,
            i <= n,
            needle@ == group_name@,
            0 <= c <= i,
            c == counted_invitations(*store, group_name@, i as int),
        decreases n - i,
    {
        let inv = store.invitations[i];
        let counted: bool = match find_group_by_id(&store.groups, inv.group_id) {
            Some(j) => store.groups[j].name == needle,
            None => false,
        };
        proof {
            assert(counted == pending_invitation(*store, group_name@, store.invitations@[i as int]));
            assert(counted_invitations(*store, group_name@, i + 1int) == counted_invitations(
                *store,
                group_name@,
                i as int,
            ) + if pending_invitation(*store, group_name@, store.invitations@[i as int]) {
                1int
            } else {
                0int
            });
        }
        if counted {
            c += 1;
        }
        i += 1;
    }
    Ok(c)
}

/// Why `accept` fails, if it does: the active group and the invitation for
/// the pair must both exist.
pub open spec fn accept_error(s: Store, name: Seq<char>, member: u64) -> Option<StoreError> {
    if !has_active_group(s.groups@, name) {
        Some(StoreError::NotFound)
    } else if !has_invitation(s.invitations@, active_group_of(s.groups@, name).id, member) {
        Some(StoreError::NotFound)
    } else {
        None
    }
}

/// Days until the accepted membership expires: the invitation's own override
/// when present, otherwise the group's default; `None` means permanent.
pub open spec fn effective_days(
    invitation_override: Option<i32>,
    group_default: Option<i32>,
) -> Option<i32> {
    if invitation_override is Some {
        invitation_override
    } else {
        group_default
    }
}

/// The membership row a successful `accept` at time `now` writes.
pub open spec fn accepted_membership(pre: Store, name: Seq<char>, member: u64, now: i64) -> Membership {
    let g = active_group_of(pre.groups@, name);
    let inv = invitation_with(pre.invitations@, g.id, member);
    Membership {
        group_id: g.id,
        user_uuid: member,
        role_id: g.default_role_id,
        expiration: membership_expiration(
            now,
            effective_days(inv.group_expiration, g.group_expiration),
        ),
        added_by: inv.added_by,
    }
}

/// The audit entry a successful `accept` appends: `Created`/`Membership`,
/// acting for the original inviter, annotated "accepted invitation".
pub open spec fn accept_log_entry(e: LogEntry, gid: u64, actor: u64, member: u64) -> bool {
    &&& e.group_id == gid
    &&& e.actor_user_uuid == actor
    &&& e.target_user_uuid == Some(member)
    &&& e.target_type == LogTargetType::Membership
    &&& e.operation_type == LogOperationType::Created
    &&& e.annotation matches Some(s) && s@ == "accepted invitation"@
}

/// State change of a successful `accept` at time `now`: the membership for
/// the pair is inserted, or overwritten if one exists (acceptance supersedes
/// any prior state), the invitation is removed, and one audit entry is
/// appended; nothing else moves.
pub open spec fn accept_ok_post(
    pre: Store,
    post: Store,
    name: Seq<char>,
    member: u64,
    now: i64,
) -> bool {
    let g = active_group_of(pre.groups@, name);
    let inv = invitation_with(pre.invitations@, g.id, member);
    let m = accepted_membership(pre, name, member, now);
    &&& post.memberships@ == if has_membership(pre.memberships@, g.id, member) {
        pre.memberships@.update(membership_index(pre.memberships@, g.id, member), m)
    } else {
        pre.memberships@.push(m)
    }
    &&& has_membership(post.memberships@, g.id, member)
    &&& post.invitations@ == pre.invitations@.remove(
        invitation_index(pre.invitations@, g.id, member),
    )
    &&& !has_invitation(post.invitations@, g.id, member)
    &&& post.logs@.len() == pre.logs@.len() + 1
    &&& post.logs@.drop_last() == pre.logs@
    &&& accept_log_entry(post.logs@.last(), g.id, inv.added_by, member)
    &&& post.groups@ == pre.groups@
    &&& post.users@ == pre.users@
    &&& post.terms@ == pre.terms@
}

/// Converts the invitation for `(group_name, member)` into a membership, with
/// `now` as the acceptance time. Fails with `NotFound` when the active group
/// or the invitation is missing, and then changes nothing; on success the
/// membership is upserted, the invitation removed, and the acceptance audited
/// as one atomic step.
pub fn accept_at(store: &mut Store, group_name: &str, member: &User, now: i64) -> (r: Result<
    (),
    StoreError,
>)
    requires
        old(store).wf(),
    ensures
        final(store).wf(),
        r is Ok <==> accept_error(*old(store), group_name@, member.user_uuid) is None,
        r matches Err(e) ==> accept_error(*old(store), group_name@, member.user_uuid) == Some(e)
            && *final(store) == *old(store),
        r is Ok ==> accept_ok_post(
            *old(store),
            *final(store),
            group_name@,
            member.user_uuid,
            now,
        ),
{
    let gi = match find_active_group(&store.groups, group_name) {
        Some(gi) => gi,
        None => {
            return Err(StoreError::NotFound);
        },
    };
    let group_id = store.groups[gi].id;
    let default_role_id = store.groups[gi].default_role_id;
    let group_default = store.groups[gi].group_expiration;
    let ki = match find_invitation(&store.invitations, group_id, member.user_uuid) {
        Some(ki) => ki,
        None => {
            return Err(StoreError::NotFound);
        },
    };
    let inv = store.invitations[ki];
    let days: Option<i32> = match inv.group_expiration {
        Some(d) => Some(d),
        None => group_default,
    };
    let expiration: Option<i64> = match days {
        Some(d) => Some(to_expiration_ts(now, d)),
        None => None,
    };
    let membership = Membership {
        group_id,
        user_uuid: inv.user_uuid,
        role_id: default_role_id,
        expiration,
        added_by: inv.added_by,
    };
    match find_membership(&store.memberships, group_id, member.user_uuid) {
        Some(mi) => {
            proof {
                lemma_memberships_update_ok(store.memberships@, mi as int, membership);
            }
            store.memberships.set(mi, membership);
        },
        None => {
            proof {
                lemma_memberships_push_ok(store.memberships@, membership);
            }
            store.memberships.push(membership);
        },
    }
    proof {
        if has_membership(old(store).memberships@, group_id, member.user_uuid) {
            let k = membership_index(old(store).memberships@, group_id, member.user_uuid);
            assert(membership_matches(store.memberships@[k], group_id, member.user_uuid));
        } else {
            assert(membership_matches(
                store.memberships@[store.memberships@.len() - 1],
                group_id,
                member.user_uuid,
            ));
        }
    }
    let log_ctx = LogContext::with(group_id, inv.added_by).with_user(inv.user_uuid);
    store.record(
        &log_ctx,
        LogTargetType::Membership,
        LogOperationType::Created,
        log_comment_body("accepted invitation"),
    );
    proof {
        lemma_invitations_remove_ok(store.invitations@, ki as int);
        assert(store.logs@.drop_last() =~= old(store).logs@);
    }
    store.invitations.remove(ki);
    Ok(())
}

/// Converts the invitation for `(group_name, member)` into a membership at
/// the clock's current time. The change is the one `accept_at` makes for some
/// acceptance time; a failure leaves the store untouched.
pub fn accept(store: &mut Store, group_name: &str, member: &User) -> (r: Result<(), StoreError>)
    requires
        old(store).wf(),
    ensures
        final(store).wf(),
        r is Ok <==> accept_error(*old(store), group_name@, member.user_uuid) is None,
        r matches Err(e) ==> accept_error(*old(store), group_name@, member.user_uuid) == Some(e)
            && *final(store) == *old(store),
        r is Ok ==> exists|now: i64|
            accept_ok_post(*old(store), *final(store), group_name@, member.user_uuid, now),
{
    let now = now_ts();
    let r = accept_at(store, group_name, member, now);
    proof {
        if r is Ok {
            assert(accept_ok_post(*old(store), *store, group_name@, member.user_uuid, now));
        }
    }
    r
}

} // verus!
