use invitations::invitation::accept;
use invitations::invitation::accept_at;
use invitations::invitation::delete;
use invitations::invitation::invite;
use invitations::invitation::pending_count;
use invitations::invitation::update;
use invitations::listing::list_for_group;
use invitations::listing::list_for_user;
use invitations::listing::public_scoped_invitations_and_host;
use invitations::listing::staff_scoped_invitations_and_host;
use invitations::listing::staff_scoped_invitations_and_host_for_user;
use invitations::store::Group;
use invitations::store::Store;
use invitations::store::User;
use invitations::types::LogOperationType;
use invitations::types::LogTargetType;
use invitations::types::StoreError;
use invitations::types::TrustType;
use invitations::views::scoped_views;
use invitations::views::HostView;
use invitations::views::SubjectView;

const DAY: i64 = 86400;

fn user(uuid: u64, name: &str, trust: TrustType) -> User {
    User {
        user_uuid: uuid,
        picture: None,
        first_name: Some(format!("f{}", name)),
        last_name: Some(format!("l{}", name)),
        username: name.to_string(),
        email: Some(format!("{}@example.net", name)),
        trust,
    }
}

fn group(id: u64, name: &str, active: bool, days: Option<i32>) -> Group {
    Group {
        id,
        name: name.to_string(),
        active,
        group_expiration: days,
        default_role_id: 100 + id,
    }
}

fn ateam_store() -> (Store, User, User) {
    let mut s = Store::new();
    s.add_group(group(1, "ateam", true, Some(60))).unwrap();
    let host = user(10, "hosta", TrustType::Staff);
    let member = user(20, "membera", TrustType::Public);
    s.add_user(host.clone()).unwrap();
    s.add_user(member.clone()).unwrap();
    (s, host, member)
}

#[test]
fn invite_unknown_group_not_found() {
    let (mut s, host, member) = ateam_store();
    let r = invite(&mut s, "bteam", host, member, None, None);
    assert_eq!(r, Err(StoreError::NotFound));
    assert_eq!(s.invitations.len(), 0);
    assert_eq!(s.logs.len(), 0);
}

#[test]
fn invite_inactive_group_not_found() {
    let (mut s, host, member) = ateam_store();
    s.add_group(group(2, "bteam", false, None)).unwrap();
    let r = invite(&mut s, "bteam", host, member, None, None);
    assert_eq!(r, Err(StoreError::NotFound));
}

#[test]
fn invite_twice_conflicts_until_deleted() {
    let (mut s, host, member) = ateam_store();
    assert_eq!(invite(&mut s, "ateam", host.clone(), member.clone(), None, None), Ok(()));
    assert_eq!(
        invite(&mut s, "ateam", host.clone(), member.clone(), None, None),
        Err(StoreError::Conflict)
    );
    assert_eq!(delete(&mut s, "ateam", host.clone(), member.clone()), Ok(()));
    assert_eq!(invite(&mut s, "ateam", host, member, None, None), Ok(()));
}

#[test]
fn invite_twice_conflicts_until_accepted() {
    let (mut s, host, member) = ateam_store();
    assert_eq!(invite(&mut s, "ateam", host.clone(), member.clone(), None, None), Ok(()));
    assert_eq!(
        invite(&mut s, "ateam", host.clone(), member.clone(), None, None),
        Err(StoreError::Conflict)
    );
    assert_eq!(accept_at(&mut s, "ateam", &member, 1_000_000), Ok(()));
    assert_eq!(invite(&mut s, "ateam", host, member, None, None), Ok(()));
}

#[test]
fn invite_writes_row_and_audit_entry() {
    let (mut s, host, member) = ateam_store();
    assert_eq!(invite(&mut s, "ateam", host, member, Some(777), Some(30)), Ok(()));
    assert_eq!(s.invitations.len(), 1);
    let inv = &s.invitations[0];
    assert_eq!(inv.group_id, 1);
    assert_eq!(inv.user_uuid, 20);
    assert_eq!(inv.invitation_expiration, Some(777));
    assert_eq!(inv.group_expiration, Some(30));
    assert_eq!(inv.added_by, 10);
    assert_eq!(s.logs.len(), 1);
    let e = &s.logs[0];
    assert_eq!(e.group_id, 1);
    assert_eq!(e.actor_user_uuid, 10);
    assert_eq!(e.target_user_uuid, Some(20));
    assert_eq!(e.target_type, LogTargetType::Invitation);
    assert_eq!(e.operation_type, LogOperationType::Created);
    assert_eq!(e.annotation, None);
}

#[test]
fn update_sets_only_supplied_fields() {
    let (mut s, host, member) = ateam_store();
    invite(&mut s, "ateam", host.clone(), member.clone(), Some(5), None).unwrap();
    assert_eq!(update(&mut s, "ateam", host.clone(), member.clone(), None, Some(30)), Ok(()));
    assert_eq!(s.invitations[0].invitation_expiration, Some(5));
    assert_eq!(s.invitations[0].group_expiration, Some(30));
    assert_eq!(update(&mut s, "ateam", host, member, Some(9), None), Ok(()));
    assert_eq!(s.invitations[0].invitation_expiration, Some(9));
    assert_eq!(s.invitations[0].group_expiration, Some(30));
    let last = s.logs.last().unwrap();
    assert_eq!(last.operation_type, LogOperationType::Updated);
    assert_eq!(last.target_type, LogTargetType::Invitation);
}

#[test]
fn update_missing_invitation_not_found() {
    let (mut s, host, member) = ateam_store();
    let r = update(&mut s, "ateam", host.clone(), member.clone(), Some(5), None);
    assert_eq!(r, Err(StoreError::NotFound));
    let r2 = update(&mut s, "bteam", host, member, Some(5), None);
    assert_eq!(r2, Err(StoreError::NotFound));
    assert_eq!(s.logs.len(), 0);
}

#[test]
fn delete_missing_invitation_is_success() {
    let (mut s, host, member) = ateam_store();
    let r = delete(&mut s, "ateam", host.clone(), member.clone());
    assert_eq!(r, Ok(()));
    // the attempt itself is audited, even though no row existed
    assert_eq!(s.logs.len(), 1);
    assert_eq!(s.logs[0].operation_type, LogOperationType::Deleted);
    let r2 = delete(&mut s, "missing", host, member);
    assert_eq!(r2, Err(StoreError::NotFound));
}

#[test]
fn pending_count_ignores_active_flag_and_unknown_names() {
    let (mut s, host, member) = ateam_store();
    assert_eq!(pending_count(&s, "ateam"), Ok(0));
    assert_eq!(pending_count(&s, "nosuch"), Ok(0));
    invite(&mut s, "ateam", host.clone(), member.clone(), None, None).unwrap();
    assert_eq!(pending_count(&s, "ateam"), Ok(1));
    // an invitation of a group later marked inactive is still counted
    s.groups[0].active = false;
    assert_eq!(pending_count(&s, "ateam"), Ok(1));
}

#[test]
fn accept_scenario_ateam() {
    let (mut s, host, member) = ateam_store();
    invite(&mut s, "ateam", host.clone(), member.clone(), None, None).unwrap();
    assert_eq!(pending_count(&s, "ateam"), Ok(1));
    let now: i64 = 1_700_000_000;
    assert_eq!(accept_at(&mut s, "ateam", &member, now), Ok(()));
    assert_eq!(pending_count(&s, "ateam"), Ok(0));
    assert_eq!(s.invitations.len(), 0);
    assert_eq!(s.memberships.len(), 1);
    let m = &s.memberships[0];
    assert_eq!(m.group_id, 1);
    assert_eq!(m.user_uuid, 20);
    assert_eq!(m.role_id, 101);
    assert_eq!(m.expiration, Some(now + 60 * DAY));
    assert_eq!(m.added_by, 10);
    let accept_logs: Vec<_> = s
        .logs
        .iter()
        .filter(|e| {
            e.target_type == LogTargetType::Membership
                && e.operation_type == LogOperationType::Created
        })
        .collect();
    assert_eq!(accept_logs.len(), 1);
    let e = accept_logs[0];
    assert_eq!(e.group_id, 1);
    assert_eq!(e.actor_user_uuid, 10);
    assert_eq!(e.target_user_uuid, Some(20));
    assert_eq!(e.annotation.as_deref(), Some("accepted invitation"));
}

#[test]
fn accept_missing_invitation_or_group_not_found() {
    let (mut s, _host, member) = ateam_store();
    assert_eq!(accept_at(&mut s, "ateam", &member, 0), Err(StoreError::NotFound));
    assert_eq!(accept_at(&mut s, "nosuch", &member, 0), Err(StoreError::NotFound));
    assert_eq!(s.memberships.len(), 0);
    assert_eq!(s.logs.len(), 0);
}

#[test]
fn accept_expiration_resolution() {
    let mut s = Store::new();
    s.add_group(group(1, "d90", true, Some(90))).unwrap();
    s.add_group(group(2, "dnone", true, None)).unwrap();
    let host = user(10, "h", TrustType::Staff);
    let m1 = user(21, "m1", TrustType::Public);
    let m2 = user(22, "m2", TrustType::Public);
    let m3 = user(23, "m3", TrustType::Public);
    let now: i64 = 50_000;
    // invitation override wins over the group default
    invite(&mut s, "d90", host.clone(), m1.clone(), None, Some(30)).unwrap();
    accept_at(&mut s, "d90", &m1, now).unwrap();
    assert_eq!(s.memberships[0].expiration, Some(now + 30 * DAY));
    // no override: the group default applies
    invite(&mut s, "d90", host.clone(), m2.clone(), None, None).unwrap();
    accept_at(&mut s, "d90", &m2, now).unwrap();
    assert_eq!(s.memberships[1].expiration, Some(now + 90 * DAY));
    // neither: the membership is permanent
    invite(&mut s, "dnone", host.clone(), m3.clone(), None, None).unwrap();
    accept_at(&mut s, "dnone", &m3, now).unwrap();
    assert_eq!(s.memberships[2].expiration, None);
}

#[test]
fn accept_overwrites_prior_membership() {
    let (mut s, host, member) = ateam_store();
    invite(&mut s, "ateam", host.clone(), member.clone(), None, Some(10)).unwrap();
    accept_at(&mut s, "ateam", &member, 1000).unwrap();
    assert_eq!(s.memberships.len(), 1);
    assert_eq!(s.memberships[0].expiration, Some(1000 + 10 * DAY));
    // a second invitation, accepted later, supersedes the prior state
    invite(&mut s, "ateam", host, member.clone(), None, Some(20)).unwrap();
    accept_at(&mut s, "ateam", &member, 2000).unwrap();
    assert_eq!(s.memberships.len(), 1);
    assert_eq!(s.memberships[0].expiration, Some(2000 + 20 * DAY));
}

#[test]
fn accept_with_clock() {
    let (mut s, host, member) = ateam_store();
    invite(&mut s, "ateam", host, member.clone(), None, None).unwrap();
    assert_eq!(accept(&mut s, "ateam", &member), Ok(()));
    assert_eq!(s.invitations.len(), 0);
    assert_eq!(s.memberships.len(), 1);
    // the clock is positive in any run of this test, so now + 60 days is too
    let exp = s.memberships[0].expiration.unwrap();
    assert!(exp > 60 * DAY);
}

#[test]
fn listing_projects_rows() {
    let (mut s, host, member) = ateam_store();
    s.add_terms(1);
    invite(&mut s, "ateam", host.clone(), member.clone(), Some(5), Some(30)).unwrap();
    let rows = staff_scoped_invitations_and_host(&s, "ateam").unwrap();
    assert_eq!(rows.len(), 1);
    let r = &rows[0];
    assert_eq!(r.user_uuid, 20);
    assert_eq!(r.username, "membera");
    assert_eq!(r.first_name.as_deref(), Some("fmembera"));
    assert_eq!(r.email.as_deref(), Some("membera@example.net"));
    assert!(!r.is_staff);
    assert_eq!(r.invitation_expiration, Some(5));
    assert_eq!(r.group_expiration, Some(30));
    assert_eq!(r.group_name, "ateam");
    assert!(r.has_terms);
    assert_eq!(r.host_uuid, 10);
    assert_eq!(r.host_username, "hosta");
    assert_eq!(r.host_email.as_deref(), Some("hosta@example.net"));
    // the same row through the user-scoped listing
    let rows2 = staff_scoped_invitations_and_host_for_user(&s, &member).unwrap();
    assert_eq!(rows2.len(), 1);
    assert_eq!(rows2[0], rows[0]);
    // a group without terms-of-service text
    let mut s2 = Store::new();
    s2.add_group(group(1, "ateam", true, None)).unwrap();
    s2.add_user(host.clone()).unwrap();
    s2.add_user(member.clone()).unwrap();
    invite(&mut s2, "ateam", host, member, None, None).unwrap();
    let rows3 = staff_scoped_invitations_and_host(&s2, "ateam").unwrap();
    assert!(!rows3[0].has_terms);
}

#[test]
fn tier_isolation_staff_vs_public() {
    let mut s = Store::new();
    s.add_group(group(1, "g", true, None)).unwrap();
    let staffer = user(1, "staffer", TrustType::Staff);
    let pub_a = user(2, "puba", TrustType::Public);
    let pub_b = user(3, "pubb", TrustType::Public);
    s.add_user(staffer.clone()).unwrap();
    s.add_user(pub_a.clone()).unwrap();
    s.add_user(pub_b.clone()).unwrap();
    // a staff-trust invitee, invited by a public-trust host
    invite(&mut s, "g", pub_a.clone(), staffer.clone(), None, None).unwrap();
    // a public-trust invitee, invited by a public-trust host
    invite(&mut s, "g", pub_b.clone(), pub_a.clone(), None, None).unwrap();
    let invitee_of_second: u64 = pub_a.user_uuid;
    let staff_rows = staff_scoped_invitations_and_host(&s, "g").unwrap();
    let public_rows = public_scoped_invitations_and_host(&s, "g").unwrap();
    assert_eq!(staff_rows.len(), 2);
    assert!(staff_rows[0].is_staff);
    assert_eq!(public_rows.len(), 1);
    // the public listing holds exactly the staff rows whose users are all
    // visible at the public tier, unchanged
    assert_eq!(public_rows[0], staff_rows[1]);
    assert_eq!(public_rows[0].user_uuid, invitee_of_second);
    // neither tier choice is an error over the same data
    for tier in [
        TrustType::Staff,
        TrustType::Ndaed,
        TrustType::Vouched,
        TrustType::Authenticated,
        TrustType::Public,
    ] {
        assert!(list_for_group(&s, tier, "g").is_ok());
        assert!(list_for_user(&s, tier, &staffer).is_ok());
    }
}

#[test]
fn inactive_group_excluded_everywhere() {
    let mut s = Store::new();
    s.add_group(group(1, "gone", true, None)).unwrap();
    let host = user(10, "h", TrustType::Public);
    let member = user(20, "m", TrustType::Public);
    s.add_user(host.clone()).unwrap();
    s.add_user(member.clone()).unwrap();
    invite(&mut s, "gone", host, member.clone(), None, None).unwrap();
    s.groups[0].active = false;
    let by_group = staff_scoped_invitations_and_host(&s, "gone").unwrap();
    assert_eq!(by_group.len(), 0);
    let by_user = staff_scoped_invitations_and_host_for_user(&s, &member).unwrap();
    assert_eq!(by_user.len(), 0);
    assert_eq!(accept_at(&mut s, "gone", &member, 0), Err(StoreError::NotFound));
}

#[test]
fn catalog_pairs_views_by_tier() {
    assert_eq!(
        scoped_views(TrustType::Staff),
        (SubjectView::UsersStaff, HostView::HostsStaff)
    );
    assert_eq!(
        scoped_views(TrustType::Ndaed),
        (SubjectView::UsersNdaed, HostView::HostsNdaed)
    );
    assert_eq!(
        scoped_views(TrustType::Vouched),
        (SubjectView::UsersVouched, HostView::HostsVouched)
    );
    assert_eq!(
        scoped_views(TrustType::Authenticated),
        (SubjectView::UsersAuthenticated, HostView::HostsAuthenticated)
    );
    assert_eq!(
        scoped_views(TrustType::Public),
        (SubjectView::UsersPublic, HostView::HostsPublic)
    );
}

#[test]
fn store_builders_reject_duplicates() {
    let mut s = Store::new();
    assert_eq!(s.add_group(group(1, "a", true, None)), Ok(()));
    assert_eq!(s.add_group(group(1, "b", true, None)), Err(StoreError::Conflict));
    assert_eq!(s.add_group(group(2, "a", true, None)), Err(StoreError::Conflict));
    assert_eq!(s.add_user(user(1, "u", TrustType::Public)), Ok(()));
    assert_eq!(s.add_user(user(1, "v", TrustType::Public)), Err(StoreError::Conflict));
    assert_eq!(s.get_user(1).unwrap().username, "u");
    assert!(s.get_user(9).is_none());
    // terms registration is idempotent
    s.add_terms(5);
    s.add_terms(5);
    assert_eq!(s.terms.len(), 1);
}
