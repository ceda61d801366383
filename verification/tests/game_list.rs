use fightcade_replays::game_list::read_game_list;

#[test]
fn parse_game_list() {
    let text = "# RANKED
sfiii3nr1 # Street Fighter III 3rd Strike: Fight for the Future
kof98 # The King of Fighters '98
kof2002 # The King of Fighters 2002
wakuwak7 # Waku Waku 7
garou # Garou - Mark of the Wolves
samsh5sp # Samurai Shodown V Special
sf2ce # Street Fighter II' - Champion Edition
sfa2u # Street Fighter Alpha 2
sgemf # Super Gem Fighter Mini Mix
jojobanr1 # JoJo's Bizarre Adventure: Heritage for the Future
vsavj # Vampire Savior

# RANKED BUT UNKNOWN
dankuga # Dan-Ku-Ga
rotd # Rage of the Dragons
";

    let games = read_game_list(text.to_string());
    assert_eq!(
        games,
        [
            "sfiii3nr1",
            "kof98",
            "kof2002",
            "wakuwak7",
            "garou",
            "samsh5sp",
            "sf2ce",
            "sfa2u",
            "sgemf",
            "jojobanr1",
            "vsavj",
            "dankuga",
            "rotd"
        ]
    );
}

#[test]
fn comments_blanks_and_padding() {
    let text = "# full comment\nfoo # trailing # comment\n\n  bar  \n";
    let games = read_game_list(text.to_string());
    assert_eq!(games, ["foo", "bar"]);
}

#[test]
fn empty_input_gives_no_games() {
    assert_eq!(read_game_list(String::new()), Vec::<String>::new());
    assert_eq!(read_game_list("\n\n  \n#x\n".to_string()), Vec::<String>::new());
}

#[test]
fn no_trailing_newline() {
    assert_eq!(read_game_list("alpha".to_string()), ["alpha"]);
    assert_eq!(read_game_list("alpha\nbeta".to_string()), ["alpha", "beta"]);
}

#[test]
fn tabs_and_carriage_returns_are_trimmed() {
    assert_eq!(read_game_list("\talpha\r\n beta\t\r".to_string()), ["alpha", "beta"]);
}

#[test]
fn unicode_whitespace_is_trimmed() {
    // no-break space, ideographic space, em quad, line separator: all in
    // the Unicode White_Space set, so all trimmed off identifiers
    let text = "\u{a0}foo\u{a0}\n\u{3000}bar\u{2001}# comment\n\u{2028}baz\u{2028}\n\u{a0}\u{3000}\n";
    assert_eq!(read_game_list(text.to_string()), ["foo", "bar", "baz"]);
    // and trimming matches what str::trim leaves
    for raw in ["\u{a0}quux\u{205f}", "\u{1680}x y\u{85}", "\u{202f}z"] {
        let games = read_game_list(raw.to_string());
        assert_eq!(games, [raw.trim()]);
    }
}
