use bbs_tui::config::{parse_number, Config, ConfigError, RawConfig};
use bbs_tui::data::MessageView;
use bbs_tui::invite::{BannerColor, Invite, InviteAction, Stage};
use bbs_tui::screen::{decimal_of, message_line, room_line, title_line};
use bbs_tui::ui::{Key, RoomEntry};

#[test]
fn numbers_are_written_in_decimal() {
    assert_eq!(decimal_of(0), "0");
    assert_eq!(decimal_of(7), "7");
    assert_eq!(decimal_of(10), "10");
    assert_eq!(decimal_of(1_002_030), "1002030");
    assert_eq!(decimal_of(u64::MAX), "18446744073709551615");
}

#[test]
fn the_title_names_user_room_counts_and_fingerprint() {
    assert_eq!(
        title_line("alice", "lobby", 12, 7, 10, "SHA256:a"),
        "alice @ lobby | msgs:12 | rate:7/10 | fp:SHA256:a"
    );
    assert_eq!(title_line("", "", 0, 0, 0, ""), " @  | msgs:0 | rate:0/0 | fp:");
}

#[test]
fn a_message_line_shows_time_author_and_clean_body() {
    let m = MessageView {
        id: 1,
        room_id: 1,
        user_id: 2,
        user_handle: "bob".into(),
        body: "hi\u{7} there\u{1b}[31m".into(),
        created_at: 3_723_000_000,
    };
    assert_eq!(message_line(&m), "[01:02:03] bob: hi there[31m");
}

#[test]
fn a_room_line_marks_the_current_room_and_counts_unread() {
    let r = RoomEntry { id: 4, name: "dev".into(), unread: 0 };
    assert_eq!(room_line(&r, 4), "> dev");
    assert_eq!(room_line(&r, 5), "  dev");
    let r = RoomEntry { id: 4, name: "dev".into(), unread: 12 };
    assert_eq!(room_line(&r, 5), "  dev (12)");
    assert_eq!(room_line(&r, 4), "> dev (12)");
}

#[test]
fn numbers_are_read_as_the_standard_library_reads_them() {
    for text in ["0", "10", "+7", "007", "4294967295", "4294967296", "", "+", "-1", " 5", "5 ", "1e3", "++1", "١٢"] {
        assert_eq!(
            parse_number(text, u32::MAX as u64),
            text.parse::<u32>().ok().map(u64::from),
            "{:?}",
            text
        );
    }
    assert_eq!(parse_number("18446744073709551615", u64::MAX), Some(u64::MAX));
    assert_eq!(parse_number("18446744073709551616", u64::MAX), None);
    assert_eq!(parse_number("99999999999999999999999999", u64::MAX), None);
    assert_eq!(parse_number("5", 4), None);
    assert_eq!(parse_number("4", 4), Some(4));
}

fn raw() -> RawConfig {
    RawConfig {
        database_url: Some("postgres://localhost/bbs".into()),
        default_room: None,
        pubkey_sha256: None,
        pubkey_type: None,
        remote_addr: None,
        msg_max_len: None,
        rate_per_min: None,
        retention_days: None,
        history_load: None,
    }
}

#[test]
fn missing_options_take_their_defaults() {
    let c = Config::from_values(raw()).unwrap();
    assert_eq!(c.database_url, "postgres://localhost/bbs");
    assert_eq!(c.default_room, "lobby");
    assert_eq!(c.msg_max_len, 1000);
    assert_eq!(c.rate_per_min, 10);
    assert_eq!(c.retention_days, 30);
    assert_eq!(c.history_load, 200);
    assert_eq!(c.pubkey_sha256, None);
}

#[test]
fn options_that_are_given_are_taken_and_bad_numbers_fall_back() {
    let mut r = raw();
    r.default_room = Some("dev".into());
    r.pubkey_sha256 = Some("SHA256:abc".into());
    r.pubkey_type = Some("ed25519".into());
    r.remote_addr = Some("10.0.0.1".into());
    r.msg_max_len = Some("500".into());
    r.rate_per_min = Some("sixty".into());
    r.retention_days = Some("7".into());
    r.history_load = Some("99999999999".into());
    let c = Config::from_values(r).unwrap();
    assert_eq!(c.default_room, "dev");
    assert_eq!(c.pubkey_sha256.as_deref(), Some("SHA256:abc"));
    assert_eq!(c.pubkey_type.as_deref(), Some("ed25519"));
    assert_eq!(c.remote_addr.as_deref(), Some("10.0.0.1"));
    assert_eq!(c.msg_max_len, 500);
    assert_eq!(c.rate_per_min, 10);
    assert_eq!(c.retention_days, 7);
    assert_eq!(c.history_load, 200);
}

#[test]
fn the_connection_target_is_required() {
    let mut r = raw();
    r.database_url = None;
    assert_eq!(Config::from_values(r).err(), Some(ConfigError::MissingDatabaseUrl));
}

fn type_code(p: &mut Invite, code: &str) {
    for c in code.chars() {
        assert!(matches!(p.handle_key(Key::Char(c)), InviteAction::Wait));
    }
}

#[test]
fn an_invite_code_is_offered_trimmed_and_accepted() {
    let mut p = Invite::new();
    assert!(matches!(p.handle_key(Key::Enter), InviteAction::Wait));
    type_code(&mut p, " abc ");
    match p.handle_key(Key::Enter) {
        InviteAction::Check { code } => assert_eq!(code, "abc"),
        other => panic!("unexpected {:?}", other),
    }
    assert_eq!(p.stage(), Stage::Checking);
    // keys wait while the store is asked
    assert!(matches!(p.handle_key(Key::Esc), InviteAction::Wait));
    assert!(matches!(p.handle_answer(Some(true)), InviteAction::Enter));
    assert_eq!(p.stage(), Stage::Accepted);
}

#[test]
fn an_unknown_code_clears_the_line_and_a_failure_keeps_it() {
    let mut p = Invite::new();
    type_code(&mut p, "nope");
    p.handle_key(Key::Enter);
    assert!(matches!(p.handle_answer(None), InviteAction::Wait));
    assert_eq!(p.input(), "nope");
    assert_eq!(p.stage(), Stage::Typing);
    p.handle_key(Key::Enter);
    assert!(matches!(p.handle_answer(Some(false)), InviteAction::Wait));
    assert_eq!(p.input(), "");
    assert!(matches!(p.handle_answer(Some(true)), InviteAction::Wait));
    assert_eq!(p.stage(), Stage::Typing);
}

#[test]
fn the_invite_line_stops_growing_at_sixteen_bytes() {
    let mut p = Invite::new();
    type_code(&mut p, "0123456789abcdefXYZ");
    assert_eq!(p.input(), "0123456789abcdef");
    p.handle_key(Key::Backspace);
    p.handle_key(Key::Backspace);
    // fifteen bytes: one more character fits, whatever its width
    type_code(&mut p, "eé!");
    assert_eq!(p.input(), "0123456789abcdeé");
    assert!(matches!(p.handle_key(Key::CtrlC), InviteAction::Leave));
    assert_eq!(p.stage(), Stage::Cancelled);
    let mut p = Invite::new();
    assert!(matches!(p.handle_key(Key::Esc), InviteAction::Leave));
}

#[test]
fn the_banner_changes_colour_with_each_tick() {
    let mut p = Invite::new();
    let mut seen = Vec::new();
    for _ in 0..4 {
        seen.push(p.banner_color());
        p.tick();
    }
    assert_eq!(
        seen,
        vec![BannerColor::Cyan, BannerColor::Magenta, BannerColor::Blue, BannerColor::Cyan]
    );
    for _ in 0..252 {
        p.tick();
    }
    // the phase wraps from 255 to 0
    assert_eq!(p.banner_color(), BannerColor::Cyan);
}
