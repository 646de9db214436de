use edifact_parser::delimiters::CharRole;
use edifact_parser::tags::tag_role;
use edifact_parser::text::{chars_of, find_first, is_blank_line, is_space_char, split_lines, string_of};
use edifact_parser::{Delimiters, EdifactError, TagRole};

#[test]
fn lines_end_at_line_feeds() {
    assert_eq!(split_lines(""), Vec::<String>::new());
    assert_eq!(split_lines("a"), vec!["a"]);
    assert_eq!(split_lines("a\n"), vec!["a"]);
    assert_eq!(split_lines("a\nb"), vec!["a", "b"]);
    assert_eq!(split_lines("a\n\nb\n"), vec!["a", "", "b"]);
    assert_eq!(split_lines("\n"), vec![""]);
    assert_eq!(split_lines("\n\n"), vec!["", ""]);
}

#[test]
fn lines_lose_a_carriage_return_before_the_line_feed() {
    assert_eq!(split_lines("a\r\nb\r\n"), vec!["a", "b"]);
    assert_eq!(split_lines("a\r\r\nb"), vec!["a\r", "b"]);
    assert_eq!(split_lines("a\rb\n"), vec!["a\rb"]);
    assert_eq!(split_lines("\r\n"), vec![""]);
    // without a line feed behind it the carriage return stays
    assert_eq!(split_lines("a\nb\r"), vec!["a", "b\r"]);
}

#[test]
fn lines_agree_with_the_standard_library() {
    for text in [
        "",
        "\n",
        "\r",
        "\r\n",
        "a\r\n\r\nb",
        "foo\nbar\n\r\nbaz\r",
        "UNA:+.?*'\nUNB+1'\n\n",
        "\u{e9}t\u{e9}\n\u{2028}x\n",
    ] {
        let expected: Vec<String> = text.lines().map(|l| l.to_string()).collect();
        assert_eq!(split_lines(text), expected, "{:?}", text);
    }
}

#[test]
fn blank_lines_hold_only_white_space() {
    assert!(is_blank_line(""));
    assert!(is_blank_line(" \t\r"));
    assert!(is_blank_line("\u{a0}\u{2003}\u{3000}"));
    assert!(!is_blank_line(" x "));
    assert!(!is_blank_line("'"));
    assert!(!is_blank_line("\u{200b}"));
}

#[test]
fn white_space_agrees_with_the_standard_library() {
    let mut u: u32 = 0;
    while u <= 0x3100 {
        if let Some(c) = char::from_u32(u) {
            assert_eq!(is_space_char(c), c.is_whitespace(), "{:x}", u);
        }
        u += 1;
    }
    assert!(!is_space_char('\u{feff}'));
    assert!(!is_space_char('\u{10ffff}'));
}

#[test]
fn characters_and_back() {
    let v = chars_of("a\u{e9}+'");
    assert_eq!(v, vec!['a', '\u{e9}', '+', '\'']);
    assert_eq!(string_of(&v, 0, 4), "a\u{e9}+'");
    assert_eq!(string_of(&v, 1, 3), "\u{e9}+");
    assert_eq!(string_of(&v, 2, 2), "");
    assert_eq!(find_first(&v, 0, '+'), 2);
    assert_eq!(find_first(&v, 3, '+'), 4);
    assert_eq!(find_first(&v, 0, 'a'), 0);
    assert_eq!(find_first(&v, 1, 'a'), 4);
    assert_eq!(find_first(&v, 4, 'a'), 4);
}

#[test]
fn tags_have_roles() {
    assert_eq!(tag_role("UNB"), TagRole::InterchangeHeader);
    assert_eq!(tag_role("UNH"), TagRole::MessageHeader);
    assert_eq!(tag_role("LIN"), TagRole::Line);
    assert_eq!(tag_role("IMD"), TagRole::Description);
    assert_eq!(tag_role("QTY"), TagRole::Quantity);
    assert_eq!(tag_role("MOA"), TagRole::Amount);
    assert_eq!(tag_role("PRI"), TagRole::Price);
    assert_eq!(tag_role("RFF"), TagRole::Reference);
    assert_eq!(tag_role("BGM"), TagRole::Other);
    assert_eq!(tag_role(""), TagRole::Other);
    assert_eq!(tag_role("UN"), TagRole::Other);
    assert_eq!(tag_role("UNBX"), TagRole::Other);
    assert_eq!(tag_role("unb"), TagRole::Other);
    assert_eq!(tag_role("LI\u{d1}"), TagRole::Other);
}

#[test]
fn characters_have_roles() {
    let d = Delimiters::default();
    assert_eq!(d.role('?'), CharRole::Escape);
    assert_eq!(d.role(':'), CharRole::Component);
    assert_eq!(d.role('+'), CharRole::Data);
    assert_eq!(d.role('\''), CharRole::Terminator);
    assert_eq!(d.role('.'), CharRole::Literal);
    assert_eq!(d.role('*'), CharRole::Literal);
    assert_eq!(d.role('a'), CharRole::Literal);
    for c in [':', '+', '.', '\'', '*'] {
        assert!(d.must_escape(c));
    }
    assert!(!d.must_escape('?'));
    assert!(!d.must_escape('a'));
    assert!(d.is_standard());

    // where two delimiters are one character, the escape comes first
    let same = Delimiters { component: '#', data: '#', decimal: '.', escape: '#', segment: '#', reserved: '*' };
    assert_eq!(same.role('#'), CharRole::Escape);
    assert!(same.must_escape('#'));
    assert!(!same.is_standard());
    let two = Delimiters { component: '#', data: '#', decimal: '.', escape: '?', segment: '#', reserved: '*' };
    assert_eq!(two.role('#'), CharRole::Component);
}

#[test]
fn errors_are_told_apart() {
    assert_ne!(EdifactError::MalformedUnaHeader, EdifactError::IncompleteSegment);
    assert_ne!(EdifactError::IncompleteSegment, EdifactError::InvalidEscape);
    assert_eq!(
        EdifactError::MalformedUnaHeader.message(),
        "EDIFACT Error: service line UNA is shorter than nine characters"
    );
    assert_eq!(
        EdifactError::IncompleteSegment.message(),
        "EDIFACT Error: segment has no terminator"
    );
    assert_eq!(
        EdifactError::InvalidEscape.message(),
        "EDIFACT Error: escape character at the end of the text"
    );
}
