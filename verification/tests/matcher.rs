use tutorial_menu::pattern::anchored_pattern;
use tutorial_menu::{match_substring, try_match_substring, Menu};

fn folded(c: char) -> char {
    match c {
        'A'..='Z' => c.to_ascii_lowercase(),
        '\u{212A}' => 'k',
        '\u{17F}' => 's',
        _ => c,
    }
}

#[test]
fn piece_of_the_target_matches() {
    assert!(match_substring("ownership", "own"));
    assert!(match_substring("ownership", "ship"));
    assert!(match_substring("ownership", "ownership"));
    assert!(match_substring("ownership", "o"));
    assert!(match_substring("ownership", "p"));
    assert!(match_substring("ownership", "ners"));
}

#[test]
fn case_of_the_input_is_set_aside() {
    assert!(match_substring("ownership", "OWN"));
    assert!(match_substring("ownership", "oWnErS"));
    assert!(match_substring("quit", "U"));
}

#[test]
fn case_of_the_target_is_set_aside() {
    assert!(match_substring("Quit", "qu"));
    assert!(match_substring("QUIT", "uit"));
    assert!(match_substring("QuIt", "UI"));
}

#[test]
fn text_that_is_no_piece_does_not_match() {
    assert!(!match_substring("ownership", "xyz123"));
    assert!(!match_substring("ownership", "onw"));
    assert!(!match_substring("ownership", "ownershipp"));
    assert!(!match_substring("ownership", "oo"));
    assert!(!match_substring("quit", "qi"));
}

#[test]
fn empty_input_matches_nothing() {
    assert!(!match_substring("ownership", ""));
    assert!(!match_substring("q", ""));
}

#[test]
fn empty_target_matches_nothing() {
    assert!(!match_substring("", ""));
    assert!(!match_substring("", "a"));
}

#[test]
fn input_is_matched_whole() {
    assert!(!match_substring("own", " own"));
    assert!(!match_substring("own", "own "));
    assert!(!match_substring("own", "own\n"));
    assert!(!match_substring("own", "\nown"));
    assert!(!match_substring("own", "own own"));
    assert!(!match_substring("own", "o\nw"));
}

#[test]
fn kelvin_sign_and_long_s_fold_to_their_letters() {
    assert!(match_substring("k", "\u{212A}"));
    assert!(match_substring("K", "\u{212A}"));
    assert!(match_substring("s", "\u{17F}"));
    assert!(match_substring("S", "\u{17F}"));
    assert!(match_substring("ask", "\u{17F}\u{212A}"));
    assert!(!match_substring("k", "\u{17F}"));
    assert!(!match_substring("s", "\u{212A}"));
    assert!(!match_substring("a", "\u{212B}"));
    assert!(!match_substring("i", "\u{130}"));
    assert!(!match_substring("i", "\u{131}"));
}

fn agrees_with_folding(letters: std::ops::RangeInclusive<char>) {
    for letter in letters {
        let target = letter.to_string();
        for code in (0x0u32..0x180).chain(0x2126..0x212C) {
            let c = char::from_u32(code).unwrap();
            let expected = folded(c) == letter.to_ascii_lowercase();
            assert_eq!(match_substring(&target, &c.to_string()), expected, "{letter} U+{code:04X}");
        }
    }
}

#[test]
fn letters_a_to_i_match_their_case_folding_class() {
    agrees_with_folding('a'..='i');
}

#[test]
fn letters_j_to_r_match_their_case_folding_class() {
    agrees_with_folding('j'..='r');
}

#[test]
fn letters_s_to_z_match_their_case_folding_class() {
    agrees_with_folding('s'..='z');
}

#[test]
fn capital_letters_match_their_case_folding_class() {
    agrees_with_folding('I'..='K');
    agrees_with_folding('S'..='S');
}

#[test]
fn k_matches_three_characters_of_the_first_planes() {
    let mut matching = Vec::new();
    for code in (0x0u32..0x1000).chain(0x2000..0x2200).chain(0xFF00..0xFF60) {
        let c = char::from_u32(code).unwrap();
        if match_substring("k", &c.to_string()) {
            matching.push(c);
        }
    }
    assert_eq!(matching, vec!['K', 'k', '\u{212A}']);
}

#[test]
fn s_matches_three_characters_of_the_first_planes() {
    let mut matching = Vec::new();
    for code in (0x0u32..0x1000).chain(0x2000..0x2200).chain(0xFF00..0xFF60) {
        let c = char::from_u32(code).unwrap();
        if match_substring("s", &c.to_string()) {
            matching.push(c);
        }
    }
    assert_eq!(matching, vec!['S', 's', '\u{17F}']);
}

#[test]
fn word_at_the_limit_matches_its_pieces() {
    let target = "ks".repeat(32);
    assert_eq!(target.len(), 64);
    assert!(match_substring(&target, &target));
    assert!(match_substring(&target, &"KS".repeat(32)));
    assert!(match_substring(&target, &"\u{212A}\u{17F}".repeat(32)));
    assert!(match_substring(&target, "sk"));
    assert!(!match_substring(&target, "kk"));
    assert!(!match_substring(&target, &"ks".repeat(33)));
}

#[test]
fn try_agrees_on_words() {
    assert_eq!(try_match_substring("ownership", "own"), Some(true));
    assert_eq!(try_match_substring("ownership", "OWNERSHIP"), Some(true));
    assert_eq!(try_match_substring("ownership", "xyz123"), Some(false));
    assert_eq!(try_match_substring("ownership", ""), Some(false));
    assert_eq!(try_match_substring("", ""), Some(false));
}

#[test]
fn try_on_a_target_past_the_word_limit() {
    let target = "ab".repeat(35);
    assert_eq!(try_match_substring(&target, &"BA".repeat(34)), Some(true));
    assert_eq!(try_match_substring(&target, "aa"), Some(false));
}

#[test]
fn try_reads_pattern_signs_in_the_target() {
    assert_eq!(try_match_substring("a.c", "x"), Some(true));
    assert_eq!(try_match_substring("a.c", "aXc"), Some(true));
    assert_eq!(try_match_substring("a.c", "ax"), Some(true));
    assert_eq!(try_match_substring("a.c", "xy"), Some(false));
    assert_eq!(try_match_substring("a.c", ""), Some(false));
    assert_eq!(try_match_substring("a b", " "), Some(true));
    assert_eq!(try_match_substring("a1", "A1"), Some(true));
    assert_eq!(try_match_substring("a-b", "-B"), Some(true));
    assert_eq!(try_match_substring("a*", "aaa"), Some(true));
    assert_eq!(try_match_substring("ab+", "abbb"), Some(true));
    assert_eq!(try_match_substring("ab+", "ba"), Some(false));
    assert_eq!(try_match_substring("a\\d", "a1"), Some(true));
    assert_eq!(try_match_substring("a\\d", "ad"), Some(false));
}

#[test]
fn try_refuses_a_target_with_a_broken_pattern() {
    assert_eq!(try_match_substring("a(", "a"), None);
    assert_eq!(try_match_substring("a(b)", "ab"), None);
    assert_eq!(try_match_substring("[ab]", "a"), None);
    assert_eq!(try_match_substring("a)", "a"), None);
    assert_eq!(try_match_substring("(", ""), None);
}

#[test]
fn try_refuses_a_target_beyond_ascii() {
    assert_eq!(try_match_substring("\u{E9}", "\u{E9}"), None);
    assert_eq!(try_match_substring("caf\u{E9}", "caf"), None);
    assert_eq!(try_match_substring("\u{212A}", "k"), None);
}

#[test]
fn labels_are_the_lowercase_names() {
    assert_eq!(Menu::Ownership.label(), Some("ownership"));
    assert_eq!(Menu::Structs.label(), Some("structs"));
    assert_eq!(Menu::Enums.label(), Some("enums"));
    assert_eq!(Menu::Reliability.label(), Some("reliability"));
    assert_eq!(Menu::Quit.label(), Some("quit"));
    assert_eq!(Menu::Invalid.label(), None);
}

#[test]
fn each_label_matches_itself() {
    for choice in [Menu::Ownership, Menu::Structs, Menu::Enums, Menu::Reliability, Menu::Quit] {
        let label = choice.label().unwrap();
        assert!(match_substring(label, label));
        assert!(match_substring(label, &label.to_uppercase()));
    }
}

#[test]
fn pattern_is_anchored_and_ignores_case() {
    assert_eq!(anchored_pattern("own"), "(?i)^own$");
    assert_eq!(anchored_pattern("o"), "(?i)^o$");
    assert_eq!(anchored_pattern("a.c"), "(?i)^a.c$");
    assert_eq!(anchored_pattern(""), "(?i)^$");
}
