use bbs_tui::input::{parse_command, Command};

#[test]
fn parses_nick_join_me() {
    assert_eq!(
        parse_command("/nick alice"),
        Some(Command::Nick("alice".into()))
    );
    assert_eq!(
        parse_command("/join lobby"),
        Some(Command::Join("lobby".into()))
    );
    assert_eq!(
        parse_command("/me waves"),
        Some(Command::Me("waves".into()))
    );
}

#[test]
fn parses_variants_and_defaults() {
    assert_eq!(parse_command("/help"), Some(Command::Help));
    assert_eq!(parse_command("/who"), Some(Command::Who(None)));
    assert_eq!(parse_command("/leave"), Some(Command::Leave(None)));
    assert_eq!(
        parse_command("/leave lobby"),
        Some(Command::Leave(Some("lobby".into())))
    );
}

#[test]
fn a_line_without_a_slash_is_no_command() {
    assert_eq!(parse_command("hello"), None);
    assert_eq!(parse_command(""), None);
    assert_eq!(parse_command("   "), None);
    assert_eq!(parse_command("a /join x"), None);
}

#[test]
fn parses_every_word_and_its_aliases() {
    assert_eq!(parse_command("/h"), Some(Command::Help));
    assert_eq!(parse_command("/?"), Some(Command::Help));
    assert_eq!(parse_command("/quit"), Some(Command::Quit));
    assert_eq!(parse_command("/q"), Some(Command::Quit));
    assert_eq!(parse_command("/exit"), Some(Command::Quit));
    assert_eq!(parse_command("/name bob"), Some(Command::Nick("bob".into())));
    assert_eq!(parse_command("/rooms"), Some(Command::Rooms));
    assert_eq!(parse_command("/who lobby"), Some(Command::Who(Some("lobby".into()))));
    assert_eq!(parse_command("/roomdel temp"), Some(Command::RoomDel("temp".into())));
    assert_eq!(parse_command("/rdel temp"), Some(Command::RoomDel("temp".into())));
    assert_eq!(parse_command("/unknown thing"), Some(Command::Help));
    assert_eq!(parse_command("/"), Some(Command::Help));
}

#[test]
fn the_argument_is_what_follows_the_first_space_trimmed() {
    assert_eq!(parse_command("  /me   waves  at all  "), Some(Command::Me("waves  at all".into())));
    assert_eq!(parse_command("/join"), Some(Command::Join("".into())));
    assert_eq!(parse_command("/leave   "), Some(Command::Leave(None)));
    // only a space ends the word
    assert_eq!(parse_command("/join\tlobby"), Some(Command::Help));
}
