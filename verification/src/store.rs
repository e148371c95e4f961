use vstd::prelude::*;

use crate::types::LogOperationType;
use crate::types::LogTargetType;
use crate::types::StoreError;
use crate::types::TrustType;

verus! {

/// A group of the directory. Groups pre-exist: this core never creates or
/// retires them, it only reads them and attaches invitations and memberships.
#[derive(Clone, Debug, PartialEq)]
pub struct Group {
    pub id: u64,
    pub name: String,
    /// An inactive group is treated as non-existent by every operation that
    /// resolves a group by name, and its invitations appear in no listing.
    pub active: bool,
    /// Default days until a membership gained in this group expires.
    pub group_expiration: Option<i32>,
    /// The role handed to a member who accepts an invitation.
    pub default_role_id: u64,
}

/// A read-only projection of a user: identity, display fields and trust.
#[derive(Clone, Debug, PartialEq)]
pub struct User {
    pub user_uuid: u64,
    pub picture: Option<String>,
    pub first_name: Option<String>,
    pub last_name: Option<String>,
    pub username: String,
    pub email: Option<String>,
    pub trust: TrustType,
}

/// A pending offer for `user_uuid` to join `group_id`; at most one per pair.
#[derive(Clone, Copy, Debug, PartialEq, Eq)]
pub struct Invitation {
    pub group_id: u64,
    pub user_uuid: u64,
    /// When the invitation itself lapses (seconds since the Unix epoch).
    pub invitation_expiration: Option<i64>,
    /// Days until the membership gained by accepting expires; overrides the
    /// group's default for this invitee alone.
    pub group_expiration: Option<i32>,
    /// The host (inviter) who created the invitation.
    pub added_by: u64,
}

/// A user's role-bearing participation in a group; at most one per pair.
#[derive(Clone, Copy, Debug, PartialEq, Eq)]
pub struct Membership {
    pub group_id: u64,
    pub user_uuid: u64,
    pub role_id: u64,
    /// When the membership expires (seconds since the Unix epoch).
    pub expiration: Option<i64>,
    pub added_by: u64,
}

/// The actor/group/target triple attached to an audit event.
#[derive(Clone, Copy, Debug, PartialEq, Eq)]
pub struct LogContext {
    pub group_id: u64,
    pub actor_user_uuid: u64,
    pub target_user_uuid: Option<u64>,
}

impl LogContext {
    /// A context for an event in `group_id` performed by `actor_user_uuid`.
    pub fn with(group_id: u64, actor_user_uuid: u64) -> (r: LogContext)
        ensures
            r == (LogContext { group_id, actor_user_uuid, target_user_uuid: None::<u64> }),
    {
        LogContext { group_id, actor_user_uuid, target_user_uuid: None }
    }

    /// The same context, aimed at the target user `user_uuid`.
    pub fn with_user(self, user_uuid: u64) -> (r: LogContext)
        ensures
            r == (LogContext {
                group_id: self.group_id,
                actor_user_uuid: self.actor_user_uuid,
                target_user_uuid: Some(user_uuid),
            }),
    {
        LogContext { target_user_uuid: Some(user_uuid), ..self }
    }
}

/// One append-only audit record.
#[derive(Clone, Debug, PartialEq)]
pub struct LogEntry {
    pub group_id: u64,
    pub actor_user_uuid: u64,
    pub target_user_uuid: Option<u64>,
    pub target_type: LogTargetType,
    pub operation_type: LogOperationType,
    pub annotation: Option<String>,
}

/// The relational state this core works against: groups, user projections,
/// invitations, memberships, the groups that publish terms-of-service text,
/// and the audit log.
#[derive(Clone, Debug, PartialEq)]
pub struct Store {
    pub groups: Vec<Group>,
    pub users: Vec<User>,
    pub invitations: Vec<Invitation>,
    pub memberships: Vec<Membership>,
    /// Ids of groups that publish terms-of-service text.
    pub terms: Vec<u64>,
    /// Append-only; never mutated or deleted by this core.
    pub logs: Vec<LogEntry>,
}

/// Groups are pairwise distinct in id and in name.
pub open spec fn groups_ok(groups: Seq<Group>) -> bool {
    forall|i: int, j: int|
        0 <= i < j < groups.len() ==> (#[trigger] groups[i]).id != (#[trigger] groups[j]).id
            && groups[i].name@ != groups[j].name@
}

/// Users are pairwise distinct in uuid.
pub open spec fn users_ok(users: Seq<User>) -> bool {
    forall|i: int, j: int|
        0 <= i < j < users.len() ==> (#[trigger] users[i]).user_uuid != (
        #[trigger] users[j]).user_uuid
}

/// At most one invitation per `(group_id, user_uuid)` pair.
pub open spec fn invitations_ok(invs: Seq<Invitation>) -> bool {
    forall|i: int, j: int|
        0 <= i < j < invs.len() ==> !((#[trigger] invs[i]).group_id == (
        #[trigger] invs[j]).group_id && invs[i].user_uuid == invs[j].user_uuid)
}

/// At most one membership per `(group_id, user_uuid)` pair.
pub open spec fn memberships_ok(mems: Seq<Membership>) -> bool {
    forall|i: int, j: int|
        0 <= i < j < mems.len() ==> !((#[trigger] mems[i]).group_id == (
        #[trigger] mems[j]).group_id && mems[i].user_uuid == mems[j].user_uuid)
}

impl Store {
    /// Well-formedness: every key that the schema declares unique is unique.
    pub open spec fn wf(self) -> bool {
        &&& groups_ok(self.groups@)
        &&& users_ok(self.users@)
        &&& invitations_ok(self.invitations@)
        &&& memberships_ok(self.memberships@)
    }
}

/// `g` is the active group named `name`.
pub open spec fn is_active_named(g: Group, name: Seq<char>) -> bool {
    g.active && g.name@ == name
}

pub open spec fn has_active_group(groups: Seq<Group>, name: Seq<char>) -> bool {
    exists|i: int| 0 <= i < groups.len() && is_active_named(#[trigger] groups[i], name)
}

pub open spec fn active_group_index(groups: Seq<Group>, name: Seq<char>) -> int {
    choose|i: int| 0 <= i < groups.len() && is_active_named(#[trigger] groups[i], name)
}

/// The active group named `name`; meaningful only when `has_active_group`.
pub open spec fn active_group_of(groups: Seq<Group>, name: Seq<char>) -> Group {
    groups[active_group_index(groups, name)]
}

pub open spec fn has_group_with_id(groups: Seq<Group>, id: u64) -> bool {
    exists|i: int| 0 <= i < groups.len() && (#[trigger] groups[i]).id == id
}

pub open spec fn group_index_by_id(groups: Seq<Group>, id: u64) -> int {
    choose|i: int| 0 <= i < groups.len() && (#[trigger] groups[i]).id == id
}

/// The group with id `id`; meaningful only when `has_group_with_id`.
pub open spec fn group_with_id(groups: Seq<Group>, id: u64) -> Group {
    groups[group_index_by_id(groups, id)]
}

pub open spec fn has_user(users: Seq<User>, uuid: u64) -> bool {
    exists|i: int| 0 <= i < users.len() && (#[trigger] users[i]).user_uuid == uuid
}

pub open spec fn user_index(users: Seq<User>, uuid: u64) -> int {
    choose|i: int| 0 <= i < users.len() && (#[trigger] users[i]).user_uuid == uuid
}

/// The user with uuid `uuid`; meaningful only when `has_user`.
pub open spec fn user_with(users: Seq<User>, uuid: u64) -> User {
    users[user_index(users, uuid)]
}

pub open spec fn invitation_matches(inv: Invitation, group_id: u64, user_uuid: u64) -> bool {
    inv.group_id == group_id && inv.user_uuid == user_uuid
}

pub open spec fn has_invitation(invs: Seq<Invitation>, group_id: u64, user_uuid: u64) -> bool {
    exists|i: int|
        0 <= i < invs.len() && invitation_matches(#[trigger] invs[i], group_id, user_uuid)
}

pub open spec fn invitation_index(invs: Seq<Invitation>, group_id: u64, user_uuid: u64) -> int {
    choose|i: int|
        0 <= i < invs.len() && invitation_matches(#[trigger] invs[i], group_id, user_uuid)
}

/// The invitation for the pair; meaningful only when `has_invitation`.
pub open spec fn invitation_with(invs: Seq<Invitation>, group_id: u64, user_uuid: u64) -> Invitation {
    invs[invitation_index(invs, group_id, user_uuid)]
}

pub open spec fn membership_matches(m: Membership, group_id: u64, user_uuid: u64) -> bool {
    m.group_id == group_id && m.user_uuid == user_uuid
}

pub open spec fn has_membership(mems: Seq<Membership>, group_id: u64, user_uuid: u64) -> bool {
    exists|i: int|
        0 <= i < mems.len() && membership_matches(#[trigger] mems[i], group_id, user_uuid)
}

pub open spec fn membership_index(mems: Seq<Membership>, group_id: u64, user_uuid: u64) -> int {
    choose|i: int|
        0 <= i < mems.len() && membership_matches(#[trigger] mems[i], group_id, user_uuid)
}

/// The membership for the pair; meaningful only when `has_membership`.
pub open spec fn membership_with(mems: Seq<Membership>, group_id: u64, user_uuid: u64) -> Membership {
    mems[membership_index(mems, group_id, user_uuid)]
}

/// A group id or name is already taken among `groups`.
pub open spec fn group_key_taken(groups: Seq<Group>, id: u64, name: Seq<char>) -> bool {
    exists|i: int|
        0 <= i < groups.len() && ((#[trigger] groups[i]).id == id || groups[i].name@ == name)
}

/// With pairwise-distinct names, a matching index is the chosen one.
pub proof fn lemma_active_group_unique(groups: Seq<Group>, name: Seq<char>, i: int)
    requires
        groups_ok(groups),
        0 <= i < groups.len(),
        is_active_named(groups[i], name),
    ensures
        has_active_group(groups, name),
        active_group_index(groups, name) == i,
        active_group_of(groups, name) == groups[i],
{
    assert(has_active_group(groups, name));
    let j = active_group_index(groups, name);
    assert(0 <= j < groups.len() && is_active_named(groups[j], name));
    if i < j {
        assert(groups[i].name@ != groups[j].name@);
    } else if j < i {
        assert(groups[j].name@ != groups[i].name@);
    }
}

/// With pairwise-distinct ids, a matching index is the chosen one.
pub proof fn lemma_group_id_unique(groups: Seq<Group>, id: u64, i: int)
    requires
        groups_ok(groups),
        0 <= i < groups.len(),
        groups[i].id == id,
    ensures
        has_group_with_id(groups, id),
        group_index_by_id(groups, id) == i,
        group_with_id(groups, id) == groups[i],
{
    assert(has_group_with_id(groups, id));
    let j = group_index_by_id(groups, id);
    assert(0 <= j < groups.len() && groups[j].id == id);
    if i < j {
        assert(groups[i].id != groups[j].id);
    } else if j < i {
        assert(groups[j].id != groups[i].id);
    }
}

/// With pairwise-distinct uuids, a matching index is the chosen one.
pub proof fn lemma_user_unique(users: Seq<User>, uuid: u64, i: int)
    requires
        users_ok(users),
        0 <= i < users.len(),
        users[i].user_uuid == uuid,
    ensures
        has_user(users, uuid),
        user_index(users, uuid) == i,
        user_with(users, uuid) == users[i],
{
    assert(has_user(users, uuid));
    let j = user_index(users, uuid);
    assert(0 <= j < users.len() && users[j].user_uuid == uuid);
    if i < j {
        assert(users[i].user_uuid != users[j].user_uuid);
    } else if j < i {
        assert(users[j].user_uuid != users[i].user_uuid);
    }
}

/// With the uniqueness invariant, a matching index is the chosen one.
pub proof fn lemma_invitation_unique(invs: Seq<Invitation>, group_id: u64, user_uuid: u64, i: int)
    requires
        invitations_ok(invs),
        0 <= i < invs.len(),
        invitation_matches(invs[i], group_id, user_uuid),
    ensures
        has_invitation(invs, group_id, user_uuid),
        invitation_index(invs, group_id, user_uuid) == i,
        invitation_with(invs, group_id, user_uuid) == invs[i],
{
    assert(has_invitation(invs, group_id, user_uuid));
    let j = invitation_index(invs, group_id, user_uuid);
    assert(0 <= j < invs.len() && invitation_matches(invs[j], group_id, user_uuid));
    if i < j {
        assert(!(invs[i].group_id == invs[j].group_id && invs[i].user_uuid == invs[j].user_uuid));
    } else if j < i {
        assert(!(invs[j].group_id == invs[i].group_id && invs[j].user_uuid == invs[i].user_uuid));
    }
}

/// With the uniqueness invariant, a matching index is the chosen one.
pub proof fn lemma_membership_unique(mems: Seq<Membership>, group_id: u64, user_uuid: u64, i: int)
    requires
        memberships_ok(mems),
        0 <= i < mems.len(),
        membership_matches(mems[i], group_id, user_uuid),
    ensures
        has_membership(mems, group_id, user_uuid),
        membership_index(mems, group_id, user_uuid) == i,
        membership_with(mems, group_id, user_uuid) == mems[i],
{
    assert(has_membership(mems, group_id, user_uuid));
    let j = membership_index(mems, group_id, user_uuid);
    assert(0 <= j < mems.len() && membership_matches(mems[j], group_id, user_uuid));
    if i < j {
        assert(!(mems[i].group_id == mems[j].group_id && mems[i].user_uuid == mems[j].user_uuid));
    } else if j < i {
        assert(!(mems[j].group_id == mems[i].group_id && mems[j].user_uuid == mems[i].user_uuid));
    }
}

/// Index of the active group named `name`, if any.
pub(crate) fn find_active_group(groups: &Vec<Group>, name: &str) -> (r: Option<usize>)
    requires
        groups_ok(groups@),
    ensures
        r is Some <==> has_active_group(groups@, name@),
        r matches Some(i) ==> 0 <= i < groups@.len() && is_active_named(groups@[i as int], name@)
            && groups@[i as int] == active_group_of(groups@, name@),
{
    let needle: String = name.to_owned();
    let n = groups.len();
    let mut i: usize = 0;
    while i < n
        invariant
            n == groups@.len(),
            i <= n,
            needle@ == name@,
            groups_ok(groups@),
            forall|k: int| 0 <= k < i ==> !is_active_named(#[trigger] groups@[k], name@),
        decreases n - i,
    {
        if groups[i].active && groups[i].name == needle {
            proof {
                lemma_active_group_unique(groups@, name@, i as int);
            }
            return Some(i);
        }
        i += 1;
    }
    proof {
        assert(!has_active_group(groups@, name@));
    }
    None
}

/// Index of the group with id `id`, if any.
pub(crate) fn find_group_by_id(groups: &Vec<Group>, id: u64) -> (r: Option<usize>)
    requires
        groups_ok(groups@),
    ensures
        r is Some <==> has_group_with_id(groups@, id),
        r matches Some(i) ==> 0 <= i < groups@.len() && groups@[i as int].id == id
            && groups@[i as int] == group_with_id(groups@, id),
{
    let n = groups.len();
    let mut i: usize = 0;
    while i < n
        invariant
            n == groups@.len(),
            i <= n,
            groups_ok(groups@),
            forall|k: int| 0 <= k < i ==> (#[trigger] groups@[k]).id != id,
        decreases n - i,
    {
        if groups[i].id == id {
            proof {
                lemma_group_id_unique(groups@, id, i as int);
            }
            return Some(i);
        }
        i += 1;
    }
    proof {
        assert(!has_group_with_id(groups@, id));
    }
    None
}

/// Index of the user with uuid `uuid`, if any.
pub(crate) fn find_user(users: &Vec<User>, uuid: u64) -> (r: Option<usize>)
    requires
        users_ok(users@),
    ensures
        r is Some <==> has_user(users@, uuid),
        r matches Some(i) ==> 0 <= i < users@.len() && users@[i as int].user_uuid == uuid
            && users@[i as int] == user_with(users@, uuid),
{
    let n = users.len();
    let mut i: usize = 0;
    while i < n
        invariant
            n == users@.len(),
            i <= n,
            users_ok(users@),
            forall|k: int| 0 <= k < i ==> (#[trigger] users@[k]).user_uuid != uuid,
        decreases n - i,
    {
        if users[i].user_uuid == uuid {
            proof {
                lemma_user_unique(users@, uuid, i as int);
            }
            return Some(i);
        }
        i += 1;
    }
    proof {
        assert(!has_user(users@, uuid));
    }
    None
}

/// Index of the invitation for `(group_id, user_uuid)`, if any.
pub(crate) fn find_invitation(invs: &Vec<Invitation>, group_id: u64, user_uuid: u64) -> (r: Option<
    usize,
>)
    requires
        invitations_ok(invs@),
    ensures
        r is Some <==> has_invitation(invs@, group_id, user_uuid),
        r matches Some(i) ==> 0 <= i < invs@.len() && invitation_matches(
            invs@[i as int],
            group_id,
            user_uuid,
        ) && invs@[i as int] == invitation_with(invs@, group_id, user_uuid) && i
            == invitation_index(invs@, group_id, user_uuid),
{
    let n = invs.len();
    let mut i: usize = 0;
    while i < n
        invariant
            n == invs@.len(),
            i <= n,
            invitations_ok(invs@),
            forall|k: int|
                0 <= k < i ==> !invitation_matches(#[trigger] invs@[k], group_id, user_uuid),
        decreases n - i,
    {
        if invs[i].group_id == group_id && invs[i].user_uuid == user_uuid {
            proof {
                lemma_invitation_unique(invs@, group_id, user_uuid, i as int);
            }
            return Some(i);
        }
        i += 1;
    }
    proof {
        assert(!has_invitation(invs@, group_id, user_uuid));
    }
    None
}

/// Index of the membership for `(group_id, user_uuid)`, if any.
pub(crate) fn find_membership(mems: &Vec<Membership>, group_id: u64, user_uuid: u64) -> (r: Option<
    usize,
>)
    requires
        memberships_ok(mems@),
    ensures
        r is Some <==> has_membership(mems@, group_id, user_uuid),
        r matches Some(i) ==> 0 <= i < mems@.len() && membership_matches(
            mems@[i as int],
            group_id,
            user_uuid,
        ) && mems@[i as int] == membership_with(mems@, group_id, user_uuid) && i
            == membership_index(mems@, group_id, user_uuid),
{
    let n = mems.len();
    let mut i: usize = 0;
    while i < n
        invariant
            n == mems@.len(),
            i <= n,
            memberships_ok(mems@),
            forall|k: int|
                0 <= k < i ==> !membership_matches(#[trigger] mems@[k], group_id, user_uuid),
        decreases n - i,
    {
        if mems[i].group_id == group_id && mems[i].user_uuid == user_uuid {
            proof {
                lemma_membership_unique(mems@, group_id, user_uuid, i as int);
            }
            return Some(i);
        }
        i += 1;
    }
    proof {
        assert(!has_membership(mems@, group_id, user_uuid));
    }
    None
}

/// Whether `group_id` is among the groups that publish terms-of-service text.
pub(crate) fn find_terms(terms: &Vec<u64>, group_id: u64) -> (b: bool)
    ensures
        b == terms@.contains(group_id),
{
    let n = terms.len();
    let mut i: usize = 0;
    while i < n
        invariant
            n == terms@.len(),
            i <= n,
            forall|k: int| 0 <= k < i ==> terms@[k] != group_id,
        decreases n - i,
    {
        if terms[i] == group_id {
            assert(terms@[i as int] == group_id);
            return true;
        }
        i += 1;
    }
    false
}

/// Copy of an optional string, equal to the original.
pub(crate) fn clone_opt_string(o: &Option<String>) -> (r: Option<String>)
    ensures
        r == *o,
{
    match o {
        Option::None => Option::None,
        Option::Some(s) => Option::Some(s.clone()),
    }
}

impl Store {
    /// An empty store.
    pub fn new() -> (s: Store)
        ensures
            s.wf(),
            s.groups@.len() == 0,
            s.users@.len() == 0,
            s.invitations@.len() == 0,
            s.memberships@.len() == 0,
            s.terms@.len() == 0,
            s.logs@.len() == 0,
    {
        Store {
            groups: Vec::new(),
            users: Vec::new(),
            invitations: Vec::new(),
            memberships: Vec::new(),
            terms: Vec::new(),
            logs: Vec::new(),
        }
    }

    /// Registers a pre-existing group. Fails with `Conflict` when the id or
    /// the name is already taken.
    pub fn add_group(&mut self, group: Group) -> (r: Result<(), StoreError>)
        requires
            old(self).wf(),
        ensures
            final(self).wf(),
            r is Ok <==> !group_key_taken(old(self).groups@, group.id, group.name@),
            r is Ok ==> final(self).groups@ == old(self).groups@.push(group),
            r is Err ==> r == Err::<(), StoreError>(StoreError::Conflict) && *final(self) == *old(
                self,
            ),
            final(self).users@ == old(self).users@,
            final(self).invitations@ == old(self).invitations@,
            final(self).memberships@ == old(self).memberships@,
            final(self).terms@ == old(self).terms@,
            final(self).logs@ == old(self).logs@,
    {
        let n = self.groups.len();
        let mut i: usize = 0;
        while i < n
            invariant
                *self == *old(self),
                self.wf(),
                n == self.groups@.len(),
                i <= n,
                forall|k: int|
                    0 <= k < i ==> !((#[trigger] self.groups@[k]).id == group.id
                        || self.groups@[k].name@ == group.name@),
            decreases n - i,
        {
            if self.groups[i].id == group.id || self.groups[i].name == group.name {
                return Err(StoreError::Conflict);
            }
            i += 1;
        }
        proof {
            assert(!group_key_taken(self.groups@, group.id, group.name@));
        }
        let ghost old_groups = self.groups@;
        self.groups.push(group);
        proof {
            assert forall|p: int, q: int| 0 <= p < q < self.groups@.len() implies (
            #[trigger] self.groups@[p]).id != (#[trigger] self.groups@[q]).id
                && self.groups@[p].name@ != self.groups@[q].name@ by {
                if q == self.groups@.len() - 1 {
                    assert(self.groups@[p] == old_groups[p]);
                } else {
                    assert(self.groups@[p] == old_groups[p]);
                    assert(self.groups@[q] == old_groups[q]);
                }
            }
        }
        Ok(())
    }

    /// Registers a user projection. Fails with `Conflict` when the uuid is
    /// already taken.
    pub fn add_user(&mut self, user: User) -> (r: Result<(), StoreError>)
        requires
            old(self).wf(),
        ensures
            final(self).wf(),
            r is Ok <==> !has_user(old(self).users@, user.user_uuid),
            r is Ok ==> final(self).users@ == old(self).users@.push(user),
            r is Err ==> r == Err::<(), StoreError>(StoreError::Conflict) && *final(self) == *old(
                self,
            ),
            final(self).groups@ == old(self).groups@,
            final(self).invitations@ == old(self).invitations@,
            final(self).memberships@ == old(self).memberships@,
            final(self).terms@ == old(self).terms@,
            final(self).logs@ == old(self).logs@,
    {
        match find_user(&self.users, user.user_uuid) {
            Option::Some(_) => Err(StoreError::Conflict),
            Option::None => {
                let ghost old_users = self.users@;
                self.users.push(user);
                proof {
                    assert forall|p: int, q: int| 0 <= p < q < self.users@.len() implies (
                    #[trigger] self.users@[p]).user_uuid != (
                    #[trigger] self.users@[q]).user_uuid by {
                        assert(self.users@[p] == old_users[p]);
                        if q < self.users@.len() - 1 {
                            assert(self.users@[q] == old_users[q]);
                        }
                    }
                }
                Ok(())
            },
        }
    }

    /// Marks `group_id` as publishing terms-of-service text; idempotent.
    pub fn add_terms(&mut self, group_id: u64)
        requires
            old(self).wf(),
        ensures
            final(self).wf(),
            final(self).terms@ == if old(self).terms@.contains(group_id) {
                old(self).terms@
            } else {
                old(self).terms@.push(group_id)
            },
            final(self).terms@.contains(group_id),
            final(self).groups@ == old(self).groups@,
            final(self).users@ == old(self).users@,
            final(self).invitations@ == old(self).invitations@,
            final(self).memberships@ == old(self).memberships@,
            final(self).logs@ == old(self).logs@,
    {
        if !find_terms(&self.terms, group_id) {
            self.terms.push(group_id);
            proof {
                assert(self.terms@[self.terms@.len() - 1] == group_id);
            }
        }
    }

    /// The user projection stored under `user_uuid`, if any.
    pub fn get_user(&self, user_uuid: u64) -> (r: Option<&User>)
        requires
            self.wf(),
        ensures
            r is Some <==> has_user(self.users@, user_uuid),
            r matches Some(u) ==> *u == user_with(self.users@, user_uuid),
    {
        match find_user(&self.users, user_uuid) {
            Option::Some(i) => Option::Some(&self.users[i]),
            Option::None => Option::None,
        }
    }

    /// Appends one audit record; the log is never otherwise touched.
    pub fn record(
        &mut self,
        ctx: &LogContext,
        target_type: LogTargetType,
        operation_type: LogOperationType,
        annotation: Option<String>,
    )
        ensures
            final(self).logs@ == old(self).logs@.push(
                LogEntry {
                    group_id: ctx.group_id,
                    actor_user_uuid: ctx.actor_user_uuid,
                    target_user_uuid: ctx.target_user_uuid,
                    target_type,
                    operation_type,
                    annotation,
                },
            ),
            final(self).groups@ == old(self).groups@,
            final(self).users@ == old(self).users@,
            final(self).invitations@ == old(self).invitations@,
            final(self).memberships@ == old(self).memberships@,
            final(self).terms@ == old(self).terms@,
            old(self).wf() ==> final(self).wf(),
    {
        self.logs.push(
            LogEntry {
                group_id: ctx.group_id,
                actor_user_uuid: ctx.actor_user_uuid,
                target_user_uuid: ctx.target_user_uuid,
                target_type,
                operation_type,
                annotation,
            },
        );
    }
}

} // verus!
