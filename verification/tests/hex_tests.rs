use parsekit::combinators::chars_of;
use parsekit::cursor::Cursor;
use parsekit::errors::ErrorKind;
use parsekit::hex::{
    parse_hex_color_no_alpha, parse_hex_color_no_alpha_2, parse_hex_rgb, parse_hex_segment, Color,
};
use parsekit::outcome::{ParseResult, Value};
use parsekit::render::render_report;
use parsekit::scan::{
    parse_first_encountered_hex_color_no_alpha, slices_around_successful_parse, ScanResult,
};

fn text_of(s: &str) -> Vec<char> {
    s.chars().collect()
}

fn rest_of(text: &[char], pos: usize) -> String {
    text[pos..].iter().collect()
}

fn prefix_of(text: &[char], end: usize) -> String {
    text[..end].iter().collect()
}

#[test]
fn parse_hex_segment_works() {
    let text = text_of("FFAA00");
    let (parsed, rest) = match parse_hex_segment(&text, Cursor { pos: 0 }) {
        ParseResult::Success { value, remainder } => (value, remainder),
        _ => panic!("FF should parse"),
    };
    assert_eq!("AA00", rest_of(&text, rest.pos));
    assert_eq!(0xFF, parsed);
    let (parsed, rest) = match parse_hex_segment(&text, rest) {
        ParseResult::Success { value, remainder } => (value, remainder),
        _ => panic!("AA should parse"),
    };
    assert_eq!("00", rest_of(&text, rest.pos));
    assert_eq!(0xAA, parsed);
    let (parsed, rest) = match parse_hex_segment(&text, rest) {
        ParseResult::Success { value, remainder } => (value, remainder),
        _ => panic!("00 should parse"),
    };
    assert_eq!("", rest_of(&text, rest.pos));
    assert_eq!(0x00, parsed);

    let result = match parse_hex_segment(&text, rest) {
        ParseResult::RecoverableFailure { error } => error,
        _ => panic!("the empty remainder should fail"),
    };
    assert!(
        rest_of(&text, result.base.input.pos) == ""
            && result.base.kind == ErrorKind::BoundedRepetition
    );
}

#[test]
fn parse_hex_color_no_alpha_works() {
    // both implementations, the chained and the combinator-built one,
    // agree case by case
    let parsers: [fn(&Vec<char>, Cursor) -> ParseResult<Color>; 2] =
        [parse_hex_color_no_alpha, parse_hex_color_no_alpha_2];
    for parse in parsers {
        let text = text_of("#FFAA00");
        match parse(&text, Cursor { pos: 0 }) {
            ParseResult::Success { value, remainder } => {
                assert_eq!("", rest_of(&text, remainder.pos));
                assert_eq!(Color { r: 0xFF, g: 0xAA, b: 0x00 }, value);
            }
            _ => panic!("a well-formed color must parse"),
        }

        let text = text_of("#123456foo");
        match parse(&text, Cursor { pos: 0 }) {
            ParseResult::Success { value, remainder } => {
                assert_eq!("foo", rest_of(&text, remainder.pos));
                assert_eq!(Color { r: 0x12, g: 0x34, b: 0x56 }, value);
            }
            _ => panic!("a color with a suffix must parse"),
        }

        let text = text_of("FFAA00");
        match parse(&text, Cursor { pos: 0 }) {
            ParseResult::RecoverableFailure { error } => {
                assert_eq!(rest_of(&text, error.base.input.pos), "FFAA00");
                assert_eq!(error.base.kind, ErrorKind::Tag);
            }
            _ => panic!("a missing # must fail"),
        }

        let text = text_of("#FFAA");
        match parse(&text, Cursor { pos: 0 }) {
            ParseResult::RecoverableFailure { error } => {
                assert_eq!(rest_of(&text, error.base.input.pos), "");
                assert_eq!(error.base.kind, ErrorKind::BoundedRepetition);
            }
            _ => panic!("a short color must fail"),
        }

        let text = text_of("#FFAA0");
        match parse(&text, Cursor { pos: 0 }) {
            ParseResult::RecoverableFailure { error } => {
                assert_eq!(rest_of(&text, error.base.input.pos), "0");
                assert_eq!(error.base.kind, ErrorKind::BoundedRepetition);
            }
            _ => panic!("a short blue segment must fail"),
        }

        let text = text_of("#FFAA0G");
        match parse(&text, Cursor { pos: 0 }) {
            ParseResult::RecoverableFailure { error } => {
                assert_eq!(rest_of(&text, error.base.input.pos), "0G");
                assert_eq!(error.base.kind, ErrorKind::BoundedRepetition);
            }
            _ => panic!("a non-hex digit in the blue segment must fail"),
        }
    }
}

#[test]
fn parse_hex_rgb_works() {
    let text = text_of("#FFAA00");
    match parse_hex_rgb(&text, Cursor { pos: 0 }) {
        ParseResult::Success { value, remainder } => {
            assert_eq!("", rest_of(&text, remainder.pos));
            assert_eq!(Color { r: 0xFF, g: 0xAA, b: 0x00 }, value);
        }
        _ => panic!("a well-formed color must parse"),
    }

    let input = "x#FFAA00";
    let text = text_of(input);
    match parse_hex_rgb(&text, Cursor { pos: 0 }) {
        ParseResult::RecoverableFailure { error } | ParseResult::FatalFailure { error } => {
            let user_friendly_error: String =
                render_report(&text, &error).into_iter().collect();
            println!("Could not parse hex color because:\n{user_friendly_error}");
        }
        _ => unreachable!("invalid hex color should not return Ok()"),
    }

    let input = "#FFAG00";
    let text = text_of(input);
    match parse_hex_rgb(&text, Cursor { pos: 0 }) {
        ParseResult::RecoverableFailure { error } | ParseResult::FatalFailure { error } => {
            let user_friendly_error: String =
                render_report(&text, &error).into_iter().collect();
            println!("Could not parse hex color because:\n{user_friendly_error}");
        }
        _ => unreachable!("invalid hex color should not return Ok()"),
    }
}

#[test]
fn context_labels_point_at_the_failure() {
    // parsing `x#FFAA00` fails right at the start; the outermost label of
    // the rendered report is the start-of-color context, pinned at the
    // first line and column
    let text = text_of("x#FFAA00");
    let error = match parse_hex_rgb(&text, Cursor { pos: 0 }) {
        ParseResult::RecoverableFailure { error } => error,
        _ => panic!("x#FFAA00 must fail"),
    };
    assert_eq!(error.base.input.pos, 0);
    assert_eq!(error.base.kind, ErrorKind::Tag);
    assert_eq!(error.context.len(), 1);
    assert_eq!(error.context[0].label, "start of hex color");
    assert_eq!(error.context[0].input.pos, 0);

    let report: String = render_report(&text, &error).into_iter().collect();
    assert!(
        report.starts_with("at line 1, column 1: start of hex color\nx#FFAA00\n^\n"),
        "{report}"
    );

    // rendering is idempotent: a second rendering is identical
    let again: String = render_report(&text, &error).into_iter().collect();
    assert_eq!(report, again);
}

#[test]
fn parse_first_encountered_hex_color_no_alpha_works() {
    let text = text_of("\n☀️\n#FFA#\n#FFAA00\n🌙\n");
    match parse_first_encountered_hex_color_no_alpha(&text) {
        ScanResult::Found { prefix_end, value, suffix_start } => {
            assert_eq!("\n☀️\n#FFA#\n", prefix_of(&text, prefix_end));
            assert_eq!("\n🌙\n", rest_of(&text, suffix_start));
            assert_eq!(Color { r: 0xFF, g: 0xAA, b: 0x00 }, value);
        }
        _ => panic!("the second # starts a well-formed color"),
    }

    let text = text_of("\n☀️\n#FFA#\n\n🌙\n#FFAA00");
    match parse_first_encountered_hex_color_no_alpha(&text) {
        ScanResult::Found { prefix_end, value, suffix_start } => {
            assert_eq!("\n☀️\n#FFA#\n\n🌙\n", prefix_of(&text, prefix_end));
            assert_eq!("", rest_of(&text, suffix_start));
            assert_eq!(Color { r: 0xFF, g: 0xAA, b: 0x00 }, value);
        }
        _ => panic!("the color at the end must be found"),
    }

    let text = text_of("#FFAA00\n☀️\n#FFA#\n\n🌙\n");
    match parse_first_encountered_hex_color_no_alpha(&text) {
        ScanResult::Found { prefix_end, value, suffix_start } => {
            assert_eq!("", prefix_of(&text, prefix_end));
            assert_eq!("\n☀️\n#FFA#\n\n🌙\n", rest_of(&text, suffix_start));
            assert_eq!(Color { r: 0xFF, g: 0xAA, b: 0x00 }, value);
        }
        _ => panic!("the color at the start must be found"),
    }

    // no offset matches: the scan hands back only the last error seen,
    // with no prefix/suffix split (the split exists only on success)
    let text = text_of("#FFAA0G\n☀️\n#FFA#\n\n🌙\n");
    match parse_first_encountered_hex_color_no_alpha(&text) {
        ScanResult::NotFound { error } => {
            assert_eq!(rest_of(&text, error.base.input.pos), "\n\n🌙\n");
            assert_eq!(error.base.kind, ErrorKind::BoundedRepetition);
        }
        _ => panic!("no well-formed color stands in this input"),
    }

    let text = text_of("#FFAA0G\n☀️\n#FFA\n\n🌙\n");
    match parse_first_encountered_hex_color_no_alpha(&text) {
        ScanResult::NotFound { error } => {
            assert_eq!(rest_of(&text, error.base.input.pos), "A\n\n🌙\n");
            assert_eq!(error.base.kind, ErrorKind::BoundedRepetition);
        }
        _ => panic!("no well-formed color stands in this input"),
    }
}

#[test]
fn scan_splits_around_the_first_match() {
    let text = text_of("xxabcyy");
    let g = parsekit::combinators::tag(chars_of("abc"));
    match slices_around_successful_parse(&g, &text) {
        ScanResult::Found { prefix_end, value, suffix_start } => {
            assert_eq!("xx", prefix_of(&text, prefix_end));
            assert_eq!("yy", rest_of(&text, suffix_start));
            assert_eq!(value.len(), 1);
            match value[0] {
                Value::Span(sp) => {
                    assert_eq!(sp.start, 2);
                    assert_eq!(sp.end, 5);
                }
                _ => panic!("a tag yields a span"),
            }
        }
        _ => panic!("abc stands in the input"),
    }
}

#[test]
fn scan_with_no_candidate_reports_the_seed_error() {
    // an input with no # has no candidate offset at all: the scan reports
    // its seed error at the start of the input
    let text = text_of("nothing here");
    match parse_first_encountered_hex_color_no_alpha(&text) {
        ScanResult::NotFound { error } => {
            assert_eq!(error.base.input.pos, 0);
            match &error.base.kind {
                ErrorKind::Custom(s) => assert_eq!(s, "scan found no match"),
                other => panic!("expected the scan's own failure, got {other:?}"),
            }
        }
        _ => panic!("no color stands in this input"),
    }
}
