use userutils::policy::{decide, Policy};
use userutils::session::{decide_login, LoginDecision};
use userutils::store::{Credential, CredentialStore, GroupRecord, StoreError, UserRecord};

fn small_store() -> CredentialStore {
    CredentialStore {
        users: vec![
            UserRecord {
                uid: 0,
                name: b"root".to_vec(),
                credential: Credential::Secret(b"rootpw".to_vec()),
            },
            UserRecord {
                uid: 1000,
                name: b"alice".to_vec(),
                credential: Credential::Secret(b"hunter2".to_vec()),
            },
            UserRecord {
                uid: 1001,
                name: b"bob".to_vec(),
                credential: Credential::Locked,
            },
            UserRecord {
                uid: 1002,
                name: b"eve".to_vec(),
                credential: Credential::Secret(Vec::new()),
            },
        ],
        groups: vec![
            GroupRecord {
                gid: 43,
                name: b"sudo".to_vec(),
                members: vec![b"alice".to_vec()],
            },
            GroupRecord {
                gid: 100,
                name: b"users".to_vec(),
                members: vec![b"alice".to_vec(), b"bob".to_vec()],
            },
        ],
    }
}

#[test]
fn lookups_find_the_right_records() {
    let store = small_store();
    assert_eq!(store.user_by_id(1000).unwrap().name, b"alice".to_vec());
    assert!(store.user_by_id(7777).is_none());
    assert_eq!(store.user_by_name(b"bob").unwrap().uid, 1001);
    assert!(store.user_by_name(b"nobody").is_none());
    assert_eq!(store.group_by_name(b"users").unwrap().gid, 100);
    assert!(store.group_by_name(b"wheel").is_none());
}

#[test]
fn lookup_takes_the_first_matching_record() {
    let mut store = small_store();
    store.users.push(UserRecord {
        uid: 1000,
        name: b"alice2".to_vec(),
        credential: Credential::Locked,
    });
    assert_eq!(store.user_by_id(1000).unwrap().name, b"alice".to_vec());
}

#[test]
fn group_membership_is_by_name() {
    let store = small_store();
    let sudo = store.group_by_name(b"sudo").unwrap();
    assert!(sudo.has_member(b"alice"));
    assert!(!sudo.has_member(b"bob"));
    assert!(!sudo.has_member(b"alic"));
}

#[test]
fn policy_admits_exactly_the_privileged_group_members() {
    let store = small_store();
    assert_eq!(decide(&store, 1000), Policy::Authenticate);
    assert_eq!(decide(&store, 1001), Policy::Deny);
    assert_eq!(decide(&store, 0), Policy::Deny);
    // A uid with no record fails closed.
    assert_eq!(decide(&store, 31337), Policy::Deny);
}

#[test]
fn policy_fails_closed_without_the_privileged_group() {
    let mut store = small_store();
    store.groups.clear();
    assert_eq!(decide(&store, 1000), Policy::Deny);
}

#[test]
fn policy_sees_membership_edits_immediately() {
    let mut store = small_store();
    assert_eq!(decide(&store, 1001), Policy::Deny);
    store
        .add_user_to_groups(b"bob", &vec![b"sudo".to_vec()])
        .unwrap();
    assert_eq!(decide(&store, 1001), Policy::Authenticate);
    store.remove_user_from_all_groups(b"bob");
    assert_eq!(decide(&store, 1001), Policy::Deny);
}

#[test]
fn adding_to_groups_appends_the_member() {
    let mut store = small_store();
    store
        .add_user_to_groups(b"eve", &vec![b"sudo".to_vec(), b"users".to_vec()])
        .unwrap();
    assert_eq!(
        store.group_by_name(b"sudo").unwrap().members,
        vec![b"alice".to_vec(), b"eve".to_vec()]
    );
    assert_eq!(
        store.group_by_name(b"users").unwrap().members,
        vec![b"alice".to_vec(), b"bob".to_vec(), b"eve".to_vec()]
    );
}

#[test]
fn adding_to_a_missing_group_stops_at_the_missing_name() {
    let mut store = small_store();
    let result = store.add_user_to_groups(
        b"eve",
        &vec![b"users".to_vec(), b"wheel".to_vec(), b"sudo".to_vec()],
    );
    assert_eq!(result, Err(StoreError::UserNotFound));
    // The walk stops at the missing name: the first addition stays,
    // the one after the stop was never made.
    assert!(store.group_by_name(b"users").unwrap().has_member(b"eve"));
    assert!(!store.group_by_name(b"sudo").unwrap().has_member(b"eve"));
}

#[test]
fn removing_a_member_takes_the_first_occurrence_in_each_group() {
    let mut store = small_store();
    store.groups[0].members.push(b"alice".to_vec());
    store.remove_user_from_all_groups(b"alice");
    // One occurrence per group is removed.
    assert_eq!(
        store.group_by_name(b"sudo").unwrap().members,
        vec![b"alice".to_vec()]
    );
    assert_eq!(
        store.group_by_name(b"users").unwrap().members,
        vec![b"bob".to_vec()]
    );
    store.remove_user_from_all_groups(b"alice");
    assert_eq!(store.group_by_name(b"sudo").unwrap().members.len(), 0);
}

#[test]
fn removing_an_absent_member_changes_nothing() {
    let mut store = small_store();
    let before = store.clone();
    store.remove_user_from_all_groups(b"nobody");
    assert_eq!(store, before);
}

#[test]
fn find_user_prefers_the_named_account() {
    let store = small_store();
    let by_name = store.find_user(Some(b"bob"), 1000).unwrap();
    assert_eq!(by_name.uid, 1001);
    let own = store.find_user(None, 1000).unwrap();
    assert_eq!(own.name, b"alice".to_vec());
    assert!(store.find_user(Some(b"nobody"), 1000).is_none());
    assert!(store.find_user(None, 7777).is_none());
}

#[test]
fn credentials_match_byte_for_byte() {
    let store = small_store();
    let alice = store.user_by_name(b"alice").unwrap();
    assert!(alice.credential.matches(b"hunter2"));
    assert!(!alice.credential.matches(b"hunter"));
    assert!(!alice.credential.matches(b""));
    let bob = store.user_by_name(b"bob").unwrap();
    assert!(!bob.credential.matches(b""));
    assert!(!bob.credential.matches(b"anything"));
    let eve = store.user_by_name(b"eve").unwrap();
    assert!(eve.credential.matches(b""));
    assert!(!eve.credential.matches(b"x"));
}

#[test]
fn blankness_is_an_empty_secret_not_a_locked_account() {
    let store = small_store();
    assert!(store.user_by_name(b"eve").unwrap().credential.is_blank());
    assert!(!store.user_by_name(b"bob").unwrap().credential.is_blank());
    assert!(!store.user_by_name(b"alice").unwrap().credential.is_blank());
}

#[test]
fn decide_login_sorts_names_into_the_three_outcomes() {
    let store = small_store();
    assert_eq!(decide_login(&store, b"nobody"), LoginDecision::UnknownUser);
    assert_eq!(decide_login(&store, b"eve"), LoginDecision::NoPasswordNeeded);
    assert_eq!(decide_login(&store, b"alice"), LoginDecision::PasswordRequired);
    // A locked account still gets a prompt; the prompt just never
    // succeeds.
    assert_eq!(decide_login(&store, b"bob"), LoginDecision::PasswordRequired);
}
