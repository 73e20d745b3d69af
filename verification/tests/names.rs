use bbs_tui::nick::valid_nick;
use bbs_tui::rooms::valid_room_name;

#[test]
fn nick_validation() {
    assert!(valid_nick("ab"));
    assert!(valid_nick("user_name-1"));
    assert!(!valid_nick("a"));
    assert!(!valid_nick("UPPER"));
    assert!(!valid_nick("bad!name"));
    assert!(!valid_nick("this_name_is_way_too_long"));
}

#[test]
fn room_name_validation() {
    assert!(valid_room_name("lobby"));
    assert!(valid_room_name("dev_chat-1"));
    assert!(!valid_room_name(""));
    assert!(!valid_room_name("TOO_BIG_AND_UPPER"));
    assert!(!valid_room_name("bad*chars"));
}

#[test]
fn names_are_checked_after_trimming_and_at_their_bounds() {
    assert!(valid_nick("  ab  "));
    assert!(valid_nick("abcdefghijklmnop"));
    assert!(!valid_nick("abcdefghijklmnopq"));
    assert!(!valid_nick("a b"));
    assert!(!valid_nick("é1"));
    assert!(valid_room_name("a"));
    assert!(valid_room_name(" 0123456789abcdefghijklmn "));
    assert!(!valid_room_name("0123456789abcdefghijklmno"));
    assert!(!valid_room_name("   "));
}
