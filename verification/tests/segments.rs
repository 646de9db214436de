use edifact_parser::{Delimiters, EdifactError, Parser, Segment};

// A parser set up from the service line of the standard delimiters.
fn setup_test_parser() -> Parser {
    let mut parser = Parser::new();
    parser.set_delimiters("UNA:+.?*'").unwrap();
    parser
}

fn strings(items: &[&str]) -> Vec<String> {
    items.iter().map(|s| s.to_string()).collect()
}

#[test]
fn test_default_delimiters() {
    let parser = Parser::new();
    assert_eq!(parser.delimiters.component, ':');
    assert_eq!(parser.delimiters.data, '+');
    assert_eq!(parser.delimiters.decimal, '.');
    assert_eq!(parser.delimiters.escape, '?');
    assert_eq!(parser.delimiters.segment, '\'');
    assert_eq!(parser.delimiters.reserved, '*');
}

#[test]
fn test_custom_delimiters() {
    let mut parser = Parser::new();
    parser.set_delimiters("UNA|^.?@~").unwrap();
    assert_eq!(parser.delimiters.component, '|');
    assert_eq!(parser.delimiters.data, '^');
    assert_eq!(parser.delimiters.decimal, '.');
    assert_eq!(parser.delimiters.escape, '?');
    assert_eq!(parser.delimiters.reserved, '@');
    assert_eq!(parser.delimiters.segment, '~');
}

#[test]
fn test_basic_segment_parsing() {
    let parser = setup_test_parser();
    let segment = parser.parse_segment("BGM+220+123456+9'", 0).unwrap();

    assert_eq!(segment.tag, "BGM");
    assert_eq!(segment.elements.len(), 3);
    assert_eq!(segment.elements[0][0], "220");
    assert_eq!(segment.elements[1][0], "123456");
    assert_eq!(segment.elements[2][0], "9");
}

#[test]
fn test_component_parsing() {
    let parser = setup_test_parser();
    let segment = parser.parse_segment("NAD+BY+5021376940009::9'", 0).unwrap();

    assert_eq!(segment.tag, "NAD");
    assert_eq!(segment.elements[1].len(), 3);
    assert_eq!(segment.elements[1][0], "5021376940009");
    assert_eq!(segment.elements[1][1], "");
    assert_eq!(segment.elements[1][2], "9");
}

#[test]
fn test_escaped_characters() {
    let parser = setup_test_parser();

    // Test basic escape
    let segment = parser.parse_segment("FTX+AAA+BBB?+CCC'", 0).unwrap();
    assert_eq!(segment.tag, "FTX");
    assert_eq!(segment.elements[1][0], "BBB+CCC");

    // Test escaping data separator
    let segment = parser.parse_segment("FTX+AAA+BBB?+CCC+DDD'", 0).unwrap();
    assert_eq!(segment.elements[1][0], "BBB+CCC");
    assert_eq!(segment.elements[2][0], "DDD");

    // Test escaping component separator
    let segment = parser.parse_segment("FTX+AAA+BBB?:CCC'", 0).unwrap();
    assert_eq!(segment.elements[1][0], "BBB:CCC");

    // Test escaping segment terminator
    let segment = parser.parse_segment("FTX+AAA+BBB?\'CCC'", 0).unwrap();
    assert_eq!(segment.elements[1][0], "BBB'CCC");

    // Test multiple escapes
    let segment = parser
        .parse_segment("FTX+AAA+BBB?+CCC?:DDD?\'EEE'", 0)
        .unwrap();
    assert_eq!(segment.elements[1][0], "BBB+CCC:DDD'EEE");
}

#[test]
fn test_complex_escape_sequences() {
    let parser = setup_test_parser();

    // Test multiple consecutive escapes
    let segment = parser.parse_segment("FTX+AAA+BBB?+?:?\'CCC'", 0).unwrap();
    assert_eq!(segment.elements[1][0], "BBB+:'CCC");

    // Test escape at end of component
    let segment = parser.parse_segment("FTX+AAA+BBB?++CCC'", 0).unwrap();
    assert_eq!(segment.elements[1][0], "BBB+");
    assert_eq!(segment.elements[2][0], "CCC");

    // Test empty components with escapes
    let segment = parser.parse_segment("FTX+AAA+?++?:+CCC'", 0).unwrap();
    assert_eq!(segment.elements[1][0], "+");
    assert_eq!(segment.elements[2][0], ":");
    assert_eq!(segment.elements[3][0], "CCC");
}

#[test]
fn test_segment_to_edifact() {
    let delimiters = Delimiters::default();
    let segment = Segment::new(
        "DTM".to_string(),
        vec![
            vec!["137".to_string()],
            vec!["20240119".to_string()],
            vec!["102".to_string()],
        ],
        0,
    );

    assert_eq!(segment.to_edifact(&delimiters), "DTM+137+20240119+102'");
}

#[test]
fn test_get_component() {
    let segment = Segment::new(
        "NAD".to_string(),
        vec![
            vec!["BY".to_string()],
            vec!["12345".to_string(), "92".to_string()],
        ],
        0,
    );

    assert_eq!(segment.get_component(1, 1), Some(&"92".to_string()));
    assert_eq!(segment.get_component(1, 2), None);
    assert_eq!(segment.get_component(2, 0), None);
}

#[test]
fn get_element_in_and_out_of_range() {
    let segment = Segment::new(
        "NAD".to_string(),
        vec![strings(&["BY"]), strings(&["12345", "92"])],
        7,
    );
    assert_eq!(segment.position, 7);
    assert_eq!(segment.get_element(0), Some(&strings(&["BY"])));
    assert_eq!(segment.get_element(1), Some(&strings(&["12345", "92"])));
    assert_eq!(segment.get_element(2), None);
    assert_eq!(segment.get_component(0, 0), Some(&"BY".to_string()));
    assert_eq!(segment.get_component(0, 1), None);
}

#[test]
fn empty_component_between_two_separators() {
    let parser = Parser::new();
    let segment = parser.parse_segment("NAD+BY+5021376940009::9'", 0).unwrap();
    assert_eq!(segment.elements[1], strings(&["5021376940009", "", "9"]));
}

#[test]
fn three_leading_component_separators() {
    let parser = Parser::new();
    let segment = parser.parse_segment("NAD+BY+:::9'", 0).unwrap();
    assert_eq!(segment.elements[1], strings(&["", "", "", "9"]));
}

#[test]
fn consecutive_data_separators_give_an_empty_component() {
    let parser = Parser::new();
    let segment = parser.parse_segment("COM++TE'", 0).unwrap();
    assert_eq!(segment.tag, "COM");
    assert_eq!(segment.elements, vec![strings(&[""]), strings(&["TE"])]);

    let segment = parser.parse_segment("COM+++TE'", 0).unwrap();
    assert_eq!(
        segment.elements,
        vec![strings(&[""]), strings(&[""]), strings(&["TE"])]
    );
}

#[test]
fn missing_terminator_is_incomplete() {
    let parser = Parser::new();
    let r = parser.parse_segment("BGM+220+123456", 0);
    assert_eq!(r.unwrap_err(), EdifactError::IncompleteSegment);
    assert_eq!(
        parser.parse_segment("", 0).unwrap_err(),
        EdifactError::IncompleteSegment
    );
    assert_eq!(
        parser.parse_segment("BGM+", 0).unwrap_err(),
        EdifactError::IncompleteSegment
    );
}

#[test]
fn text_without_data_separator_has_no_body() {
    let parser = Parser::new();
    assert_eq!(
        parser.parse_segment("BGM", 0).unwrap_err(),
        EdifactError::IncompleteSegment
    );
    assert_eq!(
        parser.parse_segment("BGM'", 0).unwrap_err(),
        EdifactError::IncompleteSegment
    );
}

#[test]
fn trailing_escape_is_invalid() {
    let parser = Parser::new();
    let r = parser.parse_segment("BGM+220?", 0);
    assert_eq!(r.unwrap_err(), EdifactError::InvalidEscape);
    assert_eq!(
        parser.parse_segment("BGM+?", 0).unwrap_err(),
        EdifactError::InvalidEscape
    );
}

#[test]
fn escaped_escape_is_literal() {
    let parser = Parser::new();
    let segment = parser.parse_segment("FTX+A??B'", 0).unwrap();
    assert_eq!(segment.elements, vec![strings(&["A?B"])]);
    // the second escape character is literal, so the text ends unterminated
    assert_eq!(
        parser.parse_segment("FTX+A??", 0).unwrap_err(),
        EdifactError::IncompleteSegment
    );
}

#[test]
fn terminator_after_data_separator_adds_no_element() {
    let parser = Parser::new();
    let segment = parser.parse_segment("BGM+220+'", 3).unwrap();
    assert_eq!(segment.elements, vec![strings(&["220"])]);
    assert_eq!(segment.position, 3);

    let segment = parser.parse_segment("BGM+'", 0).unwrap();
    assert_eq!(segment.tag, "BGM");
    assert!(segment.elements.is_empty());
}

#[test]
fn terminator_keeps_empty_component_of_a_started_element() {
    let parser = Parser::new();
    let segment = parser.parse_segment("NAD+BY+A:'", 0).unwrap();
    assert_eq!(segment.elements, vec![strings(&["BY"]), strings(&["A", ""])]);
}

#[test]
fn text_after_the_terminator_is_not_read() {
    let parser = Parser::new();
    let segment = parser.parse_segment("BGM+220'+rest?", 0).unwrap();
    assert_eq!(segment.elements, vec![strings(&["220"])]);
}

#[test]
fn tag_is_taken_as_it_stands() {
    let parser = Parser::new();
    let segment = parser.parse_segment("A?:B'C+1'", 0).unwrap();
    assert_eq!(segment.tag, "A?:B'C");
    assert_eq!(segment.elements, vec![strings(&["1"])]);
}

#[test]
fn custom_delimiters_give_the_same_segment() {
    let mut custom = Parser::new();
    custom.set_delimiters("UNA|^.?@~").unwrap();
    let a = custom.parse_segment("NAD^BY^5021376940009||9~", 0).unwrap();
    let b = Parser::new()
        .parse_segment("NAD+BY+5021376940009::9'", 0)
        .unwrap();
    assert_eq!(a.tag, b.tag);
    assert_eq!(a.elements, b.elements);
    assert_eq!(a.elements[1], strings(&["5021376940009", "", "9"]));
    // under the custom set the standard delimiters are plain characters
    let c = custom.parse_segment("FTX^a+b:c'd~", 0).unwrap();
    assert_eq!(c.elements, vec![strings(&["a+b:c'd"])]);
}

#[test]
fn set_delimiters_refuses_a_short_service_line() {
    let mut parser = Parser::new();
    let r = parser.set_delimiters("UNA:+.?");
    assert_eq!(r.unwrap_err(), EdifactError::MalformedUnaHeader);
    assert_eq!(parser.delimiters, Delimiters::default());
    assert_eq!(
        parser.set_delimiters("UNA").unwrap_err(),
        EdifactError::MalformedUnaHeader
    );
}

#[test]
fn set_delimiters_passes_over_other_lines() {
    let mut parser = Parser::new();
    parser.set_delimiters("UNB|^.?@~").unwrap();
    assert_eq!(parser.delimiters, Delimiters::default());
    parser.set_delimiters("").unwrap();
    assert_eq!(parser.delimiters, Delimiters::default());
}

#[test]
fn set_delimiters_reads_nine_characters_of_a_longer_line() {
    let mut parser = Parser::new();
    parser.set_delimiters("UNA|^,!@~ and more").unwrap();
    assert_eq!(
        parser.delimiters,
        Delimiters {
            component: '|',
            data: '^',
            decimal: ',',
            escape: '!',
            reserved: '@',
            segment: '~',
        }
    );
}

#[test]
fn serializer_escapes_five_delimiters_but_not_the_escape() {
    let d = Delimiters::default();
    let segment = Segment::new(
        "FTX".to_string(),
        vec![strings(&["a+b", "c:d"]), strings(&["1.5", "e'f", "g*h", "i?j"])],
        0,
    );
    assert_eq!(
        segment.to_edifact(&d),
        "FTX+a?+b:c?:d+1?.5:e?'f:g?*h:i?j'"
    );
}

#[test]
fn serializer_writes_empty_elements_and_components() {
    let d = Delimiters::default();
    let segment = Segment::new(
        "LIN".to_string(),
        vec![strings(&["1"]), vec![], strings(&["", "BP"]), strings(&[""])],
        0,
    );
    assert_eq!(segment.to_edifact(&d), "LIN+1++:BP+'");
    let bare = Segment::new("UNT".to_string(), vec![], 0);
    assert_eq!(bare.to_edifact(&d), "UNT'");
}

#[test]
fn serializer_uses_the_given_delimiters() {
    let mut parser = Parser::new();
    parser.set_delimiters("UNA|^.?@~").unwrap();
    let segment = Segment::new(
        "NAD".to_string(),
        vec![strings(&["BY"]), strings(&["a|b", "c+d", "e@f"])],
        0,
    );
    assert_eq!(
        segment.to_edifact(&parser.delimiters),
        "NAD^BY^a?|b|c+d|e?@f~"
    );
}

#[test]
fn plain_segment_round_trips() {
    let parser = Parser::new();
    let segment = Segment::new(
        "NAD".to_string(),
        vec![strings(&["BY"]), strings(&["5021376940009", "", "9"]), strings(&["", "x"])],
        4,
    );
    let text = segment.to_edifact(&parser.delimiters);
    assert_eq!(text, "NAD+BY+5021376940009::9+:x'");
    let back = parser.parse_segment(&text, 4).unwrap();
    assert_eq!(back.tag, segment.tag);
    assert_eq!(back.elements, segment.elements);
    assert_eq!(back.position, 4);
}

#[test]
fn each_escaped_delimiter_round_trips() {
    let parser = Parser::new();
    for c in [':', '+', '.', '\'', '*'] {
        let component = format!("a{}b{}", c, c);
        let segment = Segment::new(
            "FTX".to_string(),
            vec![strings(&["AAA"]), vec![component.clone(), c.to_string()]],
            0,
        );
        let text = segment.to_edifact(&parser.delimiters);
        assert_eq!(text, format!("FTX+AAA+a?{c}b?{c}:?{c}'", c = c));
        let back = parser.parse_segment(&text, 0).unwrap();
        assert_eq!(back.tag, "FTX");
        assert_eq!(back.elements, segment.elements);
    }
}

#[test]
fn escape_character_does_not_round_trip() {
    let parser = Parser::new();
    let segment = Segment::new("FTX".to_string(), vec![strings(&["a?b"])], 0);
    let text = segment.to_edifact(&parser.delimiters);
    assert_eq!(text, "FTX+a?b'");
    let back = parser.parse_segment(&text, 0).unwrap();
    assert_eq!(back.elements, vec![strings(&["ab"])]);
}

#[test]
fn clone_is_a_segment_of_its_own() {
    let segment = Segment::new("NAD".to_string(), vec![strings(&["BY", "1"])], 2);
    let mut copy = segment.clone();
    copy.elements[0][0].push('X');
    copy.tag.push('Y');
    assert_eq!(segment.tag, "NAD");
    assert_eq!(segment.elements, vec![strings(&["BY", "1"])]);
    assert_eq!(copy.elements, vec![strings(&["BYX", "1"])]);
    assert_eq!(copy.position, 2);
}

#[test]
fn one_character_in_two_roles_is_read_in_the_first() {
    // the component separator doubles as data separator: a single element
    // still reads back, two elements do not
    let d = Delimiters {
        component: '+',
        data: '+',
        decimal: '.',
        escape: '?',
        segment: '\'',
        reserved: '*',
    };
    let parser = Parser { delimiters: d };
    let one = Segment::new("NAD".to_string(), vec![strings(&["a", "b"])], 0);
    let text = one.to_edifact(&d);
    assert_eq!(text, "NAD+a+b'");
    assert_eq!(parser.parse_segment(&text, 0).unwrap().elements, one.elements);

    let two = Segment::new("NAD".to_string(), vec![strings(&["a"]), strings(&["b"])], 0);
    assert_eq!(two.to_edifact(&d), "NAD+a+b'");
    assert_eq!(
        parser.parse_segment("NAD+a+b'", 0).unwrap().elements,
        vec![strings(&["a", "b"])]
    );

    // a terminator that is also the escape character never ends a segment
    let d = Delimiters { segment: '?', ..Delimiters::default() };
    let parser = Parser { delimiters: d };
    assert_eq!(
        parser.parse_segment("NAD+a?", 0).unwrap_err(),
        EdifactError::InvalidEscape
    );
}

#[test]
fn segments_outside_the_written_shape_do_not_read_back() {
    let parser = Parser::new();
    let d = parser.delimiters;

    let no_elements = Segment::new("UNT".to_string(), vec![], 0);
    assert_eq!(
        parser.parse_segment(&no_elements.to_edifact(&d), 0).unwrap_err(),
        EdifactError::IncompleteSegment
    );

    let empty_element = Segment::new("LIN".to_string(), vec![strings(&["1"]), vec![], strings(&["x"])], 0);
    assert_eq!(
        parser.parse_segment(&empty_element.to_edifact(&d), 0).unwrap().elements,
        vec![strings(&["1"]), strings(&[""]), strings(&["x"])]
    );

    let empty_last = Segment::new("LIN".to_string(), vec![strings(&["1"]), strings(&[""])], 0);
    assert_eq!(empty_last.to_edifact(&d), "LIN+1+'");
    assert_eq!(
        parser.parse_segment("LIN+1+'", 0).unwrap().elements,
        vec![strings(&["1"])]
    );

    let split_tag = Segment::new("A+B".to_string(), vec![strings(&["1"])], 0);
    let back = parser.parse_segment(&split_tag.to_edifact(&d), 0).unwrap();
    assert_eq!(back.tag, "A");
    assert_eq!(back.elements, vec![strings(&["B"]), strings(&["1"])]);
}
