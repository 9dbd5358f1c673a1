use parsekit::classes::CharClass;
use parsekit::combinators::{alternation, chars_of, cut, many0, tag, take_while0, take_while1};
use parsekit::cursor::Cursor;
use parsekit::errors::ErrorKind;
use parsekit::grammar::run;
use parsekit::outcome::{ParseResult, Span, Value};
use parsekit::parsers::{
    do_nothing_parser, many_abc, parse_abc_case_or_def_no_case, parse_alpha1, parse_bool,
    parse_coordinates, parse_def_or_ghi, parse_input, parse_pair_base, parse_sentence,
    parse_space, parser, Coordinates,
};

fn text_of(s: &str) -> Vec<char> {
    s.chars().collect()
}

fn slice(text: &[char], sp: Span) -> String {
    text[sp.start..sp.end].iter().collect()
}

fn rest_of(text: &[char], pos: usize) -> String {
    text[pos..].iter().collect()
}

#[test]
fn composition_works() {
    let text = text_of("sometext ghidef");
    let (alpha_span, rest) = match parse_alpha1(&text, Cursor { pos: 0 }) {
        ParseResult::Success { value, remainder } => (value, remainder),
        _ => panic!("alpha1 should match"),
    };
    let (_, rest) = match parse_space(&text, rest) {
        ParseResult::Success { value, remainder } => (value, remainder),
        _ => panic!("space0 should match"),
    };
    let (def_or_ghi_span, rest) = match parse_def_or_ghi(&text, rest) {
        ParseResult::Success { value, remainder } => (value, remainder),
        _ => panic!("def-or-ghi should match"),
    };
    assert_eq!("sometext", slice(&text, alpha_span));
    assert_eq!("ghi", slice(&text, def_or_ghi_span));
    assert_eq!("def", rest_of(&text, rest.pos));
}

#[test]
fn tuple_works() {
    let text = text_of("acfoo");
    let (parsed, rest) = match parse_pair_base(&text, Cursor { pos: 0 }) {
        ParseResult::Success { value, remainder } => (value, remainder),
        _ => panic!("base pair should match"),
    };
    assert_eq!("foo", rest_of(&text, rest.pos));
    let shown = (slice(&text, parsed.0), slice(&text, parsed.1));
    assert!(shown == ("a".to_string(), "c".to_string()), "{shown:?}");
}

#[test]
fn tuple_fails() {
    let text = text_of("adfoo");
    let result = match parse_pair_base(&text, Cursor { pos: 0 }) {
        ParseResult::RecoverableFailure { error } => error,
        _ => panic!("base pair should fail"),
    };
    assert!(
        rest_of(&text, result.base.input.pos) == "dfoo" && result.base.kind == ErrorKind::Tag,
        "{result:?}"
    );
}

#[test]
fn custom_output_it_works() {
    let text = text_of("falsetruefoo");
    let (parsed, rest) = match parse_bool(&text, Cursor { pos: 0 }) {
        ParseResult::Success { value, remainder } => (value, remainder),
        _ => panic!("bool should match"),
    };
    assert!(!parsed);
    let (parsed, rest) = match parse_bool(&text, rest) {
        ParseResult::Success { value, remainder } => (value, remainder),
        _ => panic!("bool should match"),
    };
    assert!(parsed);
    let result = match parse_bool(&text, rest) {
        ParseResult::RecoverableFailure { error } => error,
        _ => panic!("bool should fail on foo"),
    };
    assert!(
        rest_of(&text, result.base.input.pos) == "foo" && result.base.kind == ErrorKind::Tag,
        "{result:?}"
    );
}

#[test]
fn parse_coordinates_works() {
    for input in ["(   3 ,    -2)", "(3,-2)", "(3 ,-2)"] {
        let text = text_of(input);
        let (coordinates, rest) = match parse_coordinates(&text, Cursor { pos: 0 }) {
            ParseResult::Success { value, remainder } => (value, remainder),
            other => panic!("coordinates should match: {other:?}"),
        };
        assert_eq!(
            ("".to_string(), Coordinates { x: 3, y: -2 }),
            (rest_of(&text, rest.pos), coordinates)
        );
    }

    let text = text_of("(3  -2)");
    let result = match parse_coordinates(&text, Cursor { pos: 0 }) {
        ParseResult::RecoverableFailure { error } => error,
        _ => panic!("missing comma should fail"),
    };
    assert!(
        rest_of(&text, result.base.input.pos) == "-2)" && result.base.kind == ErrorKind::Tag,
        "{result:?}"
    );
}

#[test]
fn alternatives_it_works() {
    let text = text_of("abcDeF");
    let (parsed, rest) = match parse_abc_case_or_def_no_case(&text, Cursor { pos: 0 }) {
        ParseResult::Success { value, remainder } => (value, remainder),
        _ => panic!("abc should match"),
    };
    assert_eq!("DeF", rest_of(&text, rest.pos));
    assert_eq!("abc", slice(&text, parsed));

    let text = text_of("DeFbla");
    let (parsed, rest) = match parse_abc_case_or_def_no_case(&text, Cursor { pos: 0 }) {
        ParseResult::Success { value, remainder } => (value, remainder),
        _ => panic!("DeF should match case-insensitively"),
    };
    assert_eq!("bla", rest_of(&text, rest.pos));
    assert_eq!("DeF", slice(&text, parsed));
}

#[test]
fn it_fails() {
    let text = text_of("AbcDeF");
    let result = match parse_abc_case_or_def_no_case(&text, Cursor { pos: 0 }) {
        ParseResult::RecoverableFailure { error } => error,
        _ => panic!("AbcDeF should fail both branches"),
    };
    assert!(
        rest_of(&text, result.base.input.pos) == "AbcDeF" && result.base.kind == ErrorKind::Tag,
        "{result:?}"
    );
}

#[test]
fn intro_it_works() {
    let input = "my_input";
    let text = text_of(input);
    let (parsed, rest) = match do_nothing_parser(&text, Cursor { pos: 0 }) {
        ParseResult::Success { value, remainder } => (value, remainder),
        _ => panic!("do-nothing always succeeds"),
    };
    assert_eq!(input, rest_of(&text, rest.pos));
    assert_eq!("", slice(&text, parsed));
}

#[test]
fn many_abc_woks() {
    let text = text_of("abcabcabcabC");
    let (parsed, rest) = match many_abc(&text, Cursor { pos: 0 }) {
        ParseResult::Success { value, remainder } => (value, remainder),
        _ => panic!("many0 always succeeds"),
    };
    assert_eq!("abC", rest_of(&text, rest.pos));
    let shown: Vec<String> = parsed.iter().map(|sp| slice(&text, *sp)).collect();
    assert_eq!(vec!["abc", "abc", "abc"], shown);

    let text = text_of("abCabcabcabC");
    let (parsed, rest) = match many_abc(&text, Cursor { pos: 0 }) {
        ParseResult::Success { value, remainder } => (value, remainder),
        _ => panic!("many0 always succeeds"),
    };
    assert_eq!("abCabcabcabC", rest_of(&text, rest.pos));
    assert!(parsed.is_empty());
}

#[test]
fn parse_sentence_works() {
    let text = text_of("I am tom. I write Rust.");
    let (parsed, rest) = match parse_sentence(&text, Cursor { pos: 0 }) {
        ParseResult::Success { value, remainder } => (value, remainder),
        _ => panic!("sentence should match"),
    };
    assert_eq!("I write Rust.", rest_of(&text, rest.pos));
    assert_eq!("I am tom", slice(&text, parsed));

    let text = text_of("I am tom, I write Rust.");
    let (parsed, rest) = match parse_sentence(&text, Cursor { pos: 0 }) {
        ParseResult::Success { value, remainder } => (value, remainder),
        _ => panic!("sentence should match"),
    };
    assert_eq!("", rest_of(&text, rest.pos));
    assert_eq!("I am tom, I write Rust", slice(&text, parsed));

    let text = text_of("I am tom, I write Rust");
    let result = match parse_sentence(&text, Cursor { pos: 0 }) {
        ParseResult::RecoverableFailure { error } => error,
        _ => panic!("no full stop should fail"),
    };
    assert!(
        rest_of(&text, result.base.input.pos) == "I am tom, I write Rust"
            && result.base.kind == ErrorKind::UnboundedRepetition,
        "{result:?}"
    );
}

#[test]
fn alpha0_works() {
    let text = text_of("abc123");
    let (parsed, rest) = match parser(&text, Cursor { pos: 0 }) {
        ParseResult::Success { value, remainder } => (value, remainder),
        _ => panic!("alpha0 always succeeds"),
    };
    assert_eq!("123", rest_of(&text, rest.pos));
    assert_eq!("abc", slice(&text, parsed));

    let text = text_of("123abc");
    let (parsed, rest) = match parser(&text, Cursor { pos: 0 }) {
        ParseResult::Success { value, remainder } => (value, remainder),
        _ => panic!("alpha0 always succeeds"),
    };
    assert_eq!("123abc", rest_of(&text, rest.pos));
    assert_eq!("", slice(&text, parsed));
}

#[test]
fn tag_works() {
    let text = text_of("abcWorld");
    let (parsed, leftover) = match parse_input(&text, Cursor { pos: 0 }) {
        ParseResult::Success { value, remainder } => (value, remainder),
        _ => panic!("tag should match"),
    };
    assert_eq!("abc", slice(&text, parsed));
    assert_eq!("World", rest_of(&text, leftover.pos));

    let text = text_of("defWorld");
    let result = parse_input(&text, Cursor { pos: 0 });
    assert!(!result.is_success());
    match result {
        ParseResult::RecoverableFailure { error } => {
            assert!(matches!(error.base.kind, ErrorKind::Tag));
            assert!(rest_of(&text, error.base.input.pos) == "defWorld");
        }
        _ => panic!("tag mismatch must be a recoverable failure"),
    }
}

#[test]
fn tag_no_case_works() {
    let run_tag_no_case = |pattern: &str, input: &str| {
        let text = text_of(input);
        let g = parsekit::combinators::tag_no_case(chars_of(pattern));
        let r = run(&g, &text, 0);
        (text, r)
    };

    let (text, r) = run_tag_no_case("abc", "abcWorld");
    match r {
        ParseResult::Success { value, remainder } => {
            assert_eq!(rest_of(&text, remainder.pos), "World");
            assert_eq!(value.len(), 1);
            match value[0] {
                Value::Span(sp) => assert_eq!(slice(&text, sp), "abc"),
                _ => panic!("a tag yields a span"),
            }
        }
        _ => panic!("abc should match"),
    }

    let (text, r) = run_tag_no_case("aBc", "AbCWorld");
    match r {
        ParseResult::Success { value, remainder } => {
            assert_eq!(rest_of(&text, remainder.pos), "World");
            match value[0] {
                Value::Span(sp) => assert_eq!(slice(&text, sp), "AbC"),
                _ => panic!("a tag yields a span"),
            }
        }
        _ => panic!("AbC should match aBc case-insensitively"),
    }

    let (text, r) = run_tag_no_case("aBc", "AdCWorld");
    match r {
        ParseResult::RecoverableFailure { error } => {
            assert!(matches!(error.base.kind, ErrorKind::Tag));
            assert_eq!(rest_of(&text, error.base.input.pos), "AdCWorld");
        }
        _ => panic!("AdC should not match aBc"),
    }
}

#[test]
fn same_parser_twice_is_deterministic() {
    let text = text_of("(  42 , -7)");
    let first = parse_coordinates(&text, Cursor { pos: 0 });
    let second = parse_coordinates(&text, Cursor { pos: 0 });
    match (first, second) {
        (
            ParseResult::Success { value: a, remainder: ra },
            ParseResult::Success { value: b, remainder: rb },
        ) => {
            assert_eq!(a, b);
            assert_eq!(ra.pos, rb.pos);
            assert_eq!(a, Coordinates { x: 42, y: -7 });
        }
        _ => panic!("both runs must succeed identically"),
    }
}

#[test]
fn alternation_returns_second_branch_error() {
    // both branches fail recoverably; the reported error must be the
    // second branch's (a character-class failure), not the first's tag
    // failure
    let text = text_of("zz");
    let g = alternation(tag(chars_of("xx")), take_while1(CharClass::Digit));
    match run(&g, &text, 0) {
        ParseResult::RecoverableFailure { error } => {
            assert_eq!(error.base.kind, ErrorKind::CharacterClass);
            assert_eq!(error.base.input.pos, 0);
        }
        _ => panic!("both branches should fail"),
    }
}

#[test]
fn fatal_failure_aborts_alternation() {
    // the first branch commits via cut, so its failure is fatal and the
    // second branch is never tried
    let text = text_of("zz");
    let g = alternation(cut(tag(chars_of("xx"))), tag(chars_of("zz")));
    match run(&g, &text, 0) {
        ParseResult::FatalFailure { error } => {
            assert_eq!(error.base.kind, ErrorKind::Tag);
            assert_eq!(error.base.input.pos, 0);
        }
        other => panic!("a committed branch must abort the whole parse: {other:?}"),
    }
}

#[test]
fn zero_width_repetition_terminates() {
    // the sub-parser succeeds consuming nothing; the repetition must stop
    // at once with an empty collection instead of looping
    let text = text_of("123");
    let g = many0(take_while0(CharClass::Alpha));
    match run(&g, &text, 0) {
        ParseResult::Success { value, remainder } => {
            assert!(value.is_empty());
            assert_eq!(remainder.pos, 0);
        }
        _ => panic!("repetition always succeeds"),
    }
}

#[test]
fn numeric_literal_rejects_overflow_and_missing_digits() {
    let text = text_of("(99999999999,0)");
    match parse_coordinates(&text, Cursor { pos: 0 }) {
        ParseResult::RecoverableFailure { error } => {
            assert_eq!(error.base.kind, ErrorKind::NumericConversion);
            assert_eq!(error.base.input.pos, 1);
        }
        _ => panic!("an over-wide coordinate must fail"),
    }

    let text = text_of("(a,b)");
    match parse_coordinates(&text, Cursor { pos: 0 }) {
        ParseResult::RecoverableFailure { error } => {
            assert_eq!(error.base.kind, ErrorKind::NumericConversion);
            assert_eq!(error.base.input.pos, 1);
        }
        _ => panic!("a missing coordinate must fail"),
    }

    let text = text_of("(-2147483648,2147483647)");
    match parse_coordinates(&text, Cursor { pos: 0 }) {
        ParseResult::Success { value, .. } => {
            assert_eq!(value, Coordinates { x: i32::MIN, y: i32::MAX });
        }
        _ => panic!("the extreme 32-bit values must parse"),
    }
}
