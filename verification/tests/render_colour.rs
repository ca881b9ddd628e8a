use cargo_light::{paint_each, Case, Function, Span, Tone};

fn painted(tone: Tone, text: &str) -> String {
    Span { tone, text: text.to_string() }.paint()
}

#[test]
fn with_colours_an_original_is_cyan_and_a_shadow_yellow() {
    colored::control::set_override(true);
    assert_eq!(Case::new(5, true).render(), "\u{1b}[36m5\u{1b}[0m");
    assert_eq!(Case::new(5, false).render(), "\u{1b}[33m5\u{1b}[0m");
}

#[test]
fn with_colours_each_tone_has_its_own_code() {
    colored::control::set_override(true);
    assert_eq!(painted(Tone::Plain, "ab"), "ab");
    assert_eq!(painted(Tone::Original, "ab"), "\u{1b}[36mab\u{1b}[0m");
    assert_eq!(painted(Tone::Shadow, "ab"), "\u{1b}[33mab\u{1b}[0m");
    assert_eq!(painted(Tone::Line, "ab"), "\u{1b}[95mab\u{1b}[0m");
    assert_eq!(painted(Tone::Name, "ab"), "\u{1b}[92mab\u{1b}[0m");
    assert_eq!(painted(Tone::Ident, "ab"), "\u{1b}[1;97mab\u{1b}[0m");
    assert_eq!(painted(Tone::Total, "ab"), "\u{1b}[1;96mab\u{1b}[0m");
    assert_eq!(painted(Tone::At, "ab"), "\u{1b}[2mab\u{1b}[0m");
}

#[test]
fn with_colours_the_padding_stands_inside_the_colour() {
    colored::control::set_override(true);
    let mut function = Function::new("f".to_string(), 1);
    function.record("x".to_string(), 2);
    function.record("x".to_string(), 3);
    let expected = [
        "  ",
        "\u{1b}[95mline:\u{1b}[0m",
        " ",
        "\u{1b}[95m  1\u{1b}[0m",
        " ",
        "\u{1b}[92mf              \u{1b}[0m",
        "\n",
        "    ",
        "\u{1b}[1;97mx              \u{1b}[0m",
        " ",
        "\u{1b}[1;96m    2\u{1b}[0m",
        " ",
        "\u{1b}[2m@\u{1b}[0m",
        " ",
        "[",
        "\u{1b}[36m2\u{1b}[0m",
        ", ",
        "\u{1b}[33m3\u{1b}[0m",
        "]",
        "\n",
    ];
    assert_eq!(paint_each(&function.layout()), expected);
    assert_eq!(function.render(), expected.concat());
}
