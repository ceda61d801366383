use fightcade_replays::display::clean_name;

#[test]
fn strips_parenthetical_annotation() {
    assert_eq!(clean_name("player (USA)"), "player");
    assert_eq!(clean_name("player(BR)"), "player");
    assert_eq!(clean_name("a (b) (c)"), "a");
}

#[test]
fn trims_trailing_whitespace() {
    assert_eq!(clean_name("player   "), "player");
    assert_eq!(clean_name("player\t("), "player");
}

#[test]
fn keeps_plain_names_and_leading_space() {
    assert_eq!(clean_name("player"), "player");
    assert_eq!(clean_name(" player (x)"), " player");
}

#[test]
fn trims_trailing_unicode_whitespace() {
    assert_eq!(clean_name("player\u{a0}(USA)"), "player");
    assert_eq!(clean_name("player\u{3000}\u{2009}"), "player");
    assert_eq!(clean_name("player\u{2028}("), "player");
}

#[test]
fn degenerate_names() {
    assert_eq!(clean_name(""), "");
    assert_eq!(clean_name("( everything )"), "");
    assert_eq!(clean_name("   "), "");
}
