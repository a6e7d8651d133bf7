use userutils::client::{
    retry_step, run_elevation, run_substitution, ElevationOutcome, RetryAction,
    SubstitutionOutcome, MAX_ATTEMPTS,
};
use userutils::daemon::{Daemon, ElevationOrder, HandshakeState};
use userutils::store::{Credential, CredentialStore, GroupRecord, UserRecord};

fn scenario_store() -> CredentialStore {
    CredentialStore {
        users: vec![
            UserRecord {
                uid: 0,
                name: b"root".to_vec(),
                credential: Credential::Secret(b"rootpw".to_vec()),
            },
            UserRecord {
                uid: 1000,
                name: b"alice".to_vec(),
                credential: Credential::Secret(b"hunter2".to_vec()),
            },
            UserRecord {
                uid: 1001,
                name: b"bob".to_vec(),
                credential: Credential::Secret(b"bobpw".to_vec()),
            },
        ],
        groups: vec![GroupRecord {
            gid: 43,
            name: b"sudo".to_vec(),
            members: vec![b"alice".to_vec()],
        }],
    }
}

const ROOT_ORDER: ElevationOrder =
    ElevationOrder { ruid: 0, euid: 0, suid: 0, rgid: 0, egid: 0, sgid: 0 };

#[test]
fn member_with_correct_password_is_elevated() {
    // alice, uid 1000, in the privileged group, enters "hunter2": the
    // command runs; the embedding binary reports its exit status.
    let store = scenario_store();
    let mut daemon = Daemon::new();
    let inputs = vec![Some(b"hunter2".to_vec())];
    let outcome = run_elevation(&mut daemon, &store, 1000, &inputs);
    assert_eq!(outcome, ElevationOutcome::Elevated(ROOT_ORDER));
}

#[test]
fn member_recovers_after_two_wrong_attempts() {
    let store = scenario_store();
    let mut daemon = Daemon::new();
    let inputs = vec![
        Some(b"wrong".to_vec()),
        Some(b"hunter3".to_vec()),
        Some(b"hunter2".to_vec()),
    ];
    let outcome = run_elevation(&mut daemon, &store, 1000, &inputs);
    assert_eq!(outcome, ElevationOutcome::Elevated(ROOT_ORDER));
}

#[test]
fn three_wrong_attempts_abort_without_a_grant() {
    // alice enters "wrong" three times: exit nonzero, and no handle
    // ever reaches the grant stage, so the command cannot run.
    let store = scenario_store();
    let mut daemon = Daemon::new();
    let inputs = vec![
        Some(b"wrong".to_vec()),
        Some(b"wrong".to_vec()),
        Some(b"wrong".to_vec()),
    ];
    let outcome = run_elevation(&mut daemon, &store, 1000, &inputs);
    assert_eq!(outcome, ElevationOutcome::Aborted);
    // The abandoned handle still sits in the password stage.
    assert_eq!(
        daemon.handle_state(1),
        Some(HandshakeState::AwaitingPassword { uid: 1000 })
    );
}

#[test]
fn correct_password_on_the_fourth_prompt_is_never_asked_for() {
    let store = scenario_store();
    let mut daemon = Daemon::new();
    let inputs = vec![
        Some(b"wrong".to_vec()),
        Some(b"wrong".to_vec()),
        Some(b"wrong".to_vec()),
        Some(b"hunter2".to_vec()),
    ];
    let outcome = run_elevation(&mut daemon, &store, 1000, &inputs);
    assert_eq!(outcome, ElevationOutcome::Aborted);
}

#[test]
fn outsider_is_refused_whatever_the_password() {
    // bob, uid 1001, not in the privileged group, entering his own
    // correct password: refused at the first attempt and every later
    // one.
    let store = scenario_store();
    let mut daemon = Daemon::new();
    let inputs = vec![
        Some(b"bobpw".to_vec()),
        Some(b"hunter2".to_vec()),
        Some(b"rootpw".to_vec()),
    ];
    let outcome = run_elevation(&mut daemon, &store, 1001, &inputs);
    assert_eq!(outcome, ElevationOutcome::Aborted);
}

#[test]
fn abandoned_prompt_aborts_at_once() {
    let store = scenario_store();
    let mut daemon = Daemon::new();
    let inputs = vec![None, Some(b"hunter2".to_vec())];
    let outcome = run_elevation(&mut daemon, &store, 1000, &inputs);
    assert_eq!(outcome, ElevationOutcome::Aborted);
}

#[test]
fn root_caller_skips_the_handshake() {
    let store = scenario_store();
    let mut daemon = Daemon::new();
    let inputs: Vec<Option<Vec<u8>>> = Vec::new();
    let outcome = run_elevation(&mut daemon, &store, 0, &inputs);
    assert_eq!(outcome, ElevationOutcome::AlreadyPrivileged);
    assert_eq!(daemon.open_handles(), 0);
}

#[test]
fn opening_and_closing_handles_leaks_nothing() {
    // Open and at once close many handles without ever submitting a
    // secret: the daemon's handle count returns to zero.
    let mut daemon = Daemon::new();
    for _ in 0..32 {
        let id = daemon.open(b"", 1000).unwrap();
        daemon.close(id);
    }
    assert_eq!(daemon.open_handles(), 0);
    for _ in 0..32 {
        let id = daemon.open(b"su", 1001).unwrap();
        daemon.close(id);
    }
    assert_eq!(daemon.open_handles(), 0);
}

#[test]
fn retry_step_counts_three_failures() {
    assert_eq!(retry_step(0, Some(false)), RetryAction::AskAgain(1));
    assert_eq!(retry_step(1, Some(false)), RetryAction::AskAgain(2));
    assert_eq!(retry_step(2, Some(false)), RetryAction::GiveUp);
    assert_eq!(retry_step(0, Some(true)), RetryAction::Proceed);
    assert_eq!(retry_step(2, Some(true)), RetryAction::Proceed);
    assert_eq!(retry_step(0, None), RetryAction::GiveUp);
    assert_eq!(MAX_ATTEMPTS, 3);
}

#[test]
fn substitution_with_the_target_password_runs_the_shell() {
    let store = scenario_store();
    let mut daemon = Daemon::new();
    let outcome = run_substitution(&mut daemon, &store, 1001, Some(b"rootpw".to_vec()));
    assert_eq!(outcome, SubstitutionOutcome::ShellRuns);
}

#[test]
fn substitution_with_a_wrong_password_is_denied() {
    let store = scenario_store();
    let mut daemon = Daemon::new();
    let outcome = run_substitution(&mut daemon, &store, 1001, Some(b"bobpw".to_vec()));
    assert_eq!(outcome, SubstitutionOutcome::Denied);
    let outcome = run_substitution(&mut daemon, &store, 1001, None);
    assert_eq!(outcome, SubstitutionOutcome::Denied);
}

#[test]
fn substitution_by_root_needs_no_password() {
    let store = scenario_store();
    let mut daemon = Daemon::new();
    let outcome = run_substitution(&mut daemon, &store, 0, None);
    assert_eq!(outcome, SubstitutionOutcome::ShellRuns);
    assert_eq!(daemon.open_handles(), 0);
}

#[test]
fn substitution_to_a_blank_target_accepts_the_empty_secret() {
    // With a blank target credential the prompt may be skipped: the
    // daemon still verifies, and the empty submission is what matches.
    let mut store = scenario_store();
    store.users[0].credential = Credential::Secret(Vec::new());
    let mut daemon = Daemon::new();
    let outcome = run_substitution(&mut daemon, &store, 1001, None);
    assert_eq!(outcome, SubstitutionOutcome::ShellRuns);
    let outcome = run_substitution(&mut daemon, &store, 1001, Some(b"x".to_vec()));
    assert_eq!(outcome, SubstitutionOutcome::Denied);
}
