use cargo_light::{analyze, paint_each, Binding, Case, Event, Function, Pattern, Span, Tone};

fn local(name: &str, line: usize) -> Event {
    Event::Local { patterns: vec![Pattern::Ident(Binding { name: name.to_string(), line })] }
}

#[test]
fn without_colours_a_case_is_its_line() {
    colored::control::set_override(false);
    assert_eq!(Case::new(31, true).render(), "31");
    assert_eq!(Case::new(31, false).render(), "31");
}

#[test]
fn without_colours_a_scope_is_rendered_in_columns() {
    colored::control::set_override(false);
    let mut function = Function::new("f".to_string(), 1);
    function.record("x".to_string(), 2);
    function.record("y".to_string(), 3);
    function.record("x".to_string(), 3);
    assert_eq!(
        function.render(),
        "  line:   1 f              \n    x                   2 @ [2, 3]\n"
    );
}

#[test]
fn without_colours_a_scope_without_shadow_is_only_its_heading() {
    colored::control::set_override(false);
    let mut function = Function::new("f".to_string(), 100);
    function.record("x".to_string(), 101);
    assert_eq!(function.render(), "  line: 100 f              \n");
}

#[test]
fn without_colours_a_file_is_rendered_with_its_shadowed_scopes() {
    colored::control::set_override(false);
    let events = vec![
        Event::ItemFn { name: "quiet".to_string(), line: 1 },
        local("a", 2),
        Event::ImplItemMethod { name: "loud".to_string(), line: 4 },
        local("a", 5),
        local("a", 6),
    ];
    let counter = analyze("x.rs", &events).unwrap();
    assert_eq!(
        counter.render(),
        "x.rs contains shadowed variable(s):\n\n  line:   4 loud           \n    a                   2 @ [5, 6]\n\n"
    );
    let none = analyze("y.rs", &events[..2].to_vec()).unwrap();
    assert_eq!(none.render(), "y.rs contains shadowed variable(s):\n\n");
}

#[test]
fn a_plain_span_is_painted_as_itself() {
    colored::control::set_override(false);
    let spans = vec![
        Span { tone: Tone::Plain, text: "[".to_string() },
        Span { tone: Tone::Shadow, text: "4".to_string() },
    ];
    assert_eq!(paint_each(&spans), vec!["[".to_string(), "4".to_string()]);
}
