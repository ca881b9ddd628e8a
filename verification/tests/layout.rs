use cargo_light::layout::{clipped, decimal_text, padded_left, padded_right};
use cargo_light::{join, Binding, Case, Event, Function, Pattern, Span, Tone};

#[test]
fn decimal_text_writes_numerals_without_leading_zeros() {
    assert_eq!(decimal_text(0), "0");
    assert_eq!(decimal_text(7), "7");
    assert_eq!(decimal_text(10), "10");
    assert_eq!(decimal_text(405), "405");
    assert_eq!(decimal_text(1234567890), "1234567890");
    assert_eq!(decimal_text(usize::MAX), usize::MAX.to_string());
}

#[test]
fn padding_fills_up_to_the_width_in_characters() {
    assert_eq!(padded_left("7", 3), "  7");
    assert_eq!(padded_left("1234", 3), "1234");
    assert_eq!(padded_left("", 2), "  ");
    assert_eq!(padded_left("abc", 3), "abc");
    assert_eq!(padded_right("f", 4), "f   ");
    assert_eq!(padded_right("main", 4), "main");
    assert_eq!(padded_right("longer", 4), "longer");
    assert_eq!(padded_right("é", 3), "é  ");
    assert_eq!(padded_left("é", 3), "  é");
    assert_eq!(padded_right("x", 0), "x");
}

#[test]
fn clipping_keeps_the_first_characters() {
    assert_eq!(clipped("abcdef", 3), "abc");
    assert_eq!(clipped("abc", 3), "abc");
    assert_eq!(clipped("ab", 3), "ab");
    assert_eq!(clipped("éèàù", 2), "éè");
    assert_eq!(clipped("abc", 0), "");
}

#[test]
fn a_case_is_laid_out_as_its_line_in_its_tone() {
    let original = Case::new(12, true).span();
    assert_eq!(original.tone, Tone::Original);
    assert_eq!(original.text, "12");
    let shadow = Case::new(12, false).span();
    assert_eq!(shadow.tone, Tone::Shadow);
    assert_eq!(shadow.text, "12");
}

fn pairs(spans: &[Span]) -> Vec<(Tone, String)> {
    spans.iter().map(|s| (s.tone, s.text.clone())).collect()
}

#[test]
fn a_scope_is_laid_out_as_heading_and_repeated_identifiers() {
    let mut function = Function::new("main".to_string(), 3);
    function.record("x".to_string(), 4);
    function.record("once".to_string(), 5);
    function.record("x".to_string(), 6);
    function.record("x".to_string(), 10);
    let expected = vec![
        (Tone::Plain, "  ".to_string()),
        (Tone::Line, "line:".to_string()),
        (Tone::Plain, " ".to_string()),
        (Tone::Line, "  3".to_string()),
        (Tone::Plain, " ".to_string()),
        (Tone::Name, "main           ".to_string()),
        (Tone::Plain, "\n".to_string()),
        (Tone::Plain, "    ".to_string()),
        (Tone::Ident, "x              ".to_string()),
        (Tone::Plain, " ".to_string()),
        (Tone::Total, "    3".to_string()),
        (Tone::Plain, " ".to_string()),
        (Tone::At, "@".to_string()),
        (Tone::Plain, " ".to_string()),
        (Tone::Plain, "[".to_string()),
        (Tone::Original, "4".to_string()),
        (Tone::Plain, ", ".to_string()),
        (Tone::Shadow, "6".to_string()),
        (Tone::Plain, ", ".to_string()),
        (Tone::Shadow, "10".to_string()),
        (Tone::Plain, "]".to_string()),
        (Tone::Plain, "\n".to_string()),
    ];
    assert_eq!(pairs(&function.layout()), expected);
    assert!(function.vars()[1].layout().is_empty());
    assert_eq!(function.vars()[0].layout().len(), 15);
}

#[test]
fn a_long_identifier_is_clipped_to_its_column_and_a_long_name_is_not() {
    let mut function = Function::new("a_function_with_a_long_name".to_string(), 1234);
    function.record("an_identifier_that_is_long".to_string(), 1);
    function.record("an_identifier_that_is_long".to_string(), 2);
    let spans = function.layout();
    assert_eq!(spans[3].text, "1234");
    assert_eq!(spans[5].text, "a_function_with_a_long_name");
    assert_eq!(spans[8].text, "an_identifier_t");
    assert_eq!(spans[10].text, "    2");
}

#[test]
fn a_file_is_laid_out_as_heading_and_shadowed_scopes_only() {
    let events = vec![
        Event::ItemFn { name: "quiet".to_string(), line: 1 },
        Event::Local { patterns: vec![Pattern::Ident(Binding { name: "a".to_string(), line: 2 })] },
        Event::ItemFn { name: "loud".to_string(), line: 4 },
        Event::Local { patterns: vec![Pattern::Ident(Binding { name: "a".to_string(), line: 5 })] },
        Event::Local { patterns: vec![Pattern::Ident(Binding { name: "a".to_string(), line: 6 })] },
    ];
    let counter = cargo_light::analyze("src/x.rs", &events).unwrap();
    let spans = counter.layout();
    let texts: Vec<&str> = spans.iter().map(|s| s.text.as_str()).collect();
    assert_eq!(
        texts,
        vec![
            "src/x.rs",
            " contains shadowed variable(s):\n\n",
            "  ",
            "line:",
            " ",
            "  4",
            " ",
            "loud           ",
            "\n",
            "    ",
            "a              ",
            " ",
            "    2",
            " ",
            "@",
            " ",
            "[",
            "5",
            ", ",
            "6",
            "]",
            "\n",
            "\n",
        ]
    );
}

#[test]
fn join_puts_the_parts_one_after_the_other() {
    assert_eq!(join(&vec!["ab".to_string(), "".to_string(), "c".to_string()]), "abc");
    assert_eq!(join(&Vec::new()), "");
}
