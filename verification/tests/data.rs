use bbs_tui::data::{
    choose_room, classify_conflict, contains_text, handle_from, random_handle, Conflict, Resolver,
    ResolverInput, ResolverOutput, ResolverPhase, Room, RoomChoice, User,
};
use bbs_tui::nick::valid_nick;

fn user(id: i64, fp: &str, handle: &str) -> User {
    User {
        id,
        fingerprint_sha256: fp.to_string(),
        pubkey_type: "ed25519".to_string(),
        handle: handle.to_string(),
        created_at: 0,
        last_seen_at: 0,
    }
}

fn room(id: i64, name: &str, is_deleted: bool) -> Room {
    Room {
        id,
        name: name.to_string(),
        created_by: 1,
        is_deleted,
        created_at: 0,
        deleted_at: if is_deleted { Some(5) } else { None },
    }
}

#[test]
fn handles_are_usr_and_eight_hex_digits() {
    assert_eq!(handle_from(0), "usr-00000000");
    assert_eq!(handle_from(0xdead_beef), "usr-deadbeef");
    assert_eq!(handle_from(0x0000_00ff), "usr-000000ff");
    assert_eq!(handle_from(u32::MAX), "usr-ffffffff");
    assert_eq!(handle_from(0x1234_5678), format!("usr-{:08x}", 0x1234_5678u32));
}

#[test]
fn random_handles_are_valid_nicks() {
    for _ in 0..50 {
        let h = random_handle();
        assert_eq!(h.len(), 12);
        assert!(h.starts_with("usr-"));
        assert!(h[4..].chars().all(|c| c.is_ascii_hexdigit() && !c.is_ascii_uppercase()));
        assert!(valid_nick(&h));
    }
}

#[test]
fn unique_violations_are_told_apart_by_their_constraint() {
    assert_eq!(
        classify_conflict(Some("23505"), Some("users_fingerprint_sha256_key")),
        Some(Conflict::Fingerprint)
    );
    assert_eq!(classify_conflict(Some("23505"), Some("users_handle_key")), Some(Conflict::Taken));
    assert_eq!(classify_conflict(Some("23505"), None), Some(Conflict::Taken));
    assert_eq!(classify_conflict(Some("23503"), Some("users_fingerprint_sha256_key")), None);
    assert_eq!(classify_conflict(None, None), None);
}

#[test]
fn contains_text_finds_a_run_anywhere() {
    assert!(contains_text("abcabd", "abd"));
    assert!(contains_text("abc", ""));
    assert!(contains_text("", ""));
    assert!(contains_text("abc", "abc"));
    assert!(!contains_text("abc", "abcd"));
    assert!(!contains_text("ababab", "abb"));
}

#[test]
fn a_deleted_room_is_not_reopened() {
    assert!(matches!(choose_room(Some(room(4, "temp", true))), RoomChoice::Deleted));
    match choose_room(Some(room(4, "temp", false))) {
        RoomChoice::Use(r) => {
            assert_eq!(r.id, 4);
            assert_eq!(r.name, "temp");
        }
        other => panic!("unexpected {:?}", other),
    }
    assert!(matches!(choose_room(None), RoomChoice::Create));
}

#[test]
fn an_existing_user_is_touched_and_returned() {
    let mut r = Resolver::new();
    match r.step(ResolverInput::Found(Some(user(7, "fp-A", "alice")))) {
        ResolverOutput::Touch { user_id } => assert_eq!(user_id, 7),
        other => panic!("unexpected {:?}", other),
    }
    match r.step(ResolverInput::Touched) {
        ResolverOutput::Done(u) => {
            assert_eq!(u.id, 7);
            assert_eq!(u.handle, "alice");
        }
        other => panic!("unexpected {:?}", other),
    }
    assert_eq!(r.phase, ResolverPhase::Finished);
    assert!(matches!(r.step(ResolverInput::Touched), ResolverOutput::Unexpected));
}

#[test]
fn a_new_user_gets_the_handle_of_the_candidate() {
    let mut r = Resolver::new();
    match r.step_with(ResolverInput::Found(None), 0xabc) {
        ResolverOutput::Insert { handle } => assert_eq!(handle, "usr-00000abc"),
        other => panic!("unexpected {:?}", other),
    }
    match r.step_with(ResolverInput::Inserted(user(1, "fp-A", "usr-00000abc")), 0) {
        ResolverOutput::Done(u) => assert_eq!(u.handle, "usr-00000abc"),
        other => panic!("unexpected {:?}", other),
    }
}

#[test]
fn a_taken_handle_is_retried_ten_times_at_most() {
    let mut r = Resolver::new();
    let mut inserts = 0;
    let mut out = r.step_with(ResolverInput::Found(None), 0);
    loop {
        match out {
            ResolverOutput::Insert { handle } => {
                assert_eq!(handle, format!("usr-{:08x}", inserts));
                inserts += 1;
                out = r.step_with(ResolverInput::Refused(Conflict::Taken), inserts);
            }
            ResolverOutput::Exhausted => break,
            other => panic!("unexpected {:?}", other),
        }
    }
    assert_eq!(inserts, 10);
    assert_eq!(r.tries, 10);
    assert_eq!(r.phase, ResolverPhase::Finished);
}

#[test]
fn the_loser_of_a_race_reads_the_winners_row() {
    let mut r = Resolver::new();
    assert!(matches!(r.step(ResolverInput::Found(None)), ResolverOutput::Insert { .. }));
    assert!(matches!(
        r.step(ResolverInput::Refused(Conflict::Fingerprint)),
        ResolverOutput::Lookup
    ));
    assert!(matches!(
        r.step(ResolverInput::Found(Some(user(3, "fp-A", "usr-11111111")))),
        ResolverOutput::Touch { user_id: 3 }
    ));
    match r.step(ResolverInput::Touched) {
        ResolverOutput::Done(u) => assert_eq!(u.id, 3),
        other => panic!("unexpected {:?}", other),
    }
}

/// A users table with unique fingerprints and handles, for the race below.
fn answer(users: &mut Vec<User>, fp: &str, out: &ResolverOutput) -> Option<ResolverInput> {
    match out {
        ResolverOutput::Lookup => Some(ResolverInput::Found(
            users.iter().find(|u| u.fingerprint_sha256 == fp).cloned(),
        )),
        ResolverOutput::Touch { .. } => Some(ResolverInput::Touched),
        ResolverOutput::Insert { handle } => {
            if users.iter().any(|u| u.fingerprint_sha256 == fp) {
                Some(ResolverInput::Refused(Conflict::Fingerprint))
            } else if users.iter().any(|u| &u.handle == handle) {
                Some(ResolverInput::Refused(Conflict::Taken))
            } else {
                let u = user(users.len() as i64 + 1, fp, handle);
                users.push(u.clone());
                Some(ResolverInput::Inserted(u))
            }
        }
        _ => None,
    }
}

#[test]
fn concurrent_first_contacts_leave_one_user() {
    // every interleaving of three resolvers that all looked up before any inserted
    for order in [[0, 1, 2], [0, 2, 1], [1, 0, 2], [1, 2, 0], [2, 0, 1], [2, 1, 0]] {
        let mut users: Vec<User> = Vec::new();
        let mut resolvers = vec![Resolver::new(), Resolver::new(), Resolver::new()];
        let mut outs: Vec<ResolverOutput> = Vec::new();
        for r in resolvers.iter_mut() {
            outs.push(r.step(ResolverInput::Found(None)));
        }
        let mut done: Vec<Option<User>> = vec![None, None, None];
        for round in 0..8 {
            for &i in order.iter() {
                if done[i].is_some() {
                    continue;
                }
                if let ResolverOutput::Done(u) = &outs[i] {
                    done[i] = Some(u.clone());
                    continue;
                }
                let input = answer(&mut users, "fp-A", &outs[i])
                    .unwrap_or_else(|| panic!("round {}: {:?}", round, outs[i]));
                outs[i] = resolvers[i].step(input);
            }
        }
        assert_eq!(users.len(), 1);
        for d in done {
            assert_eq!(d.expect("resolved").id, users[0].id);
        }
    }
}

#[test]
fn a_store_failure_ends_the_resolution() {
    let mut r = Resolver::new();
    match r.step(ResolverInput::Failed("connection refused".to_string())) {
        ResolverOutput::Failed(e) => assert_eq!(e, "connection refused"),
        other => panic!("unexpected {:?}", other),
    }
    assert_eq!(r.phase, ResolverPhase::Finished);
}
