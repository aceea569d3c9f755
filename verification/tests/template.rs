use turto::utils::template::{Template, Token};

fn text(s: &str) -> Token {
    Token::Text(s.to_string())
}

fn arg(s: &str) -> Token {
    Token::Arg(s.to_string())
}

#[test]
fn test_template_parse() {
    let no_arg = "Hello World!";
    let single_arg = "Hello {name}!";
    let multi_arg = "Hello {name1} and {name2}!";
    let brackets = "Hello {{{{name}}}}!";
    let unclosed = "}}{{arg1}{{{arg2}}{";

    let t = Template::parse(no_arg);
    assert_eq!(t.length(), 12);
    assert_eq!(t.tokens(), &vec![text("Hello World!")]);

    let t = Template::parse(single_arg);
    assert_eq!(t.length(), 13);
    assert_eq!(t.tokens(), &vec![text("Hello "), arg("name"), text("!")]);

    let t = Template::parse(multi_arg);
    assert_eq!(t.length(), 26);
    assert_eq!(
        t.tokens(),
        &vec![text("Hello "), arg("name1"), text(" and "), arg("name2"), text("!")]
    );

    let t = Template::parse(brackets);
    assert_eq!(t.length(), 19);
    assert_eq!(t.tokens(), &vec![text("Hello {{{"), arg("name"), text("}}}!")]);

    let t = Template::parse(unclosed);
    assert_eq!(t.length(), 19);
    assert_eq!(
        t.tokens(),
        &vec![text("}}{"), arg("arg1"), text("{{"), arg("arg2"), text("}{")]
    );
}

#[test]
fn rendering_fills_in_the_arguments() {
    let t = Template::parse("Hello {name} and {other}!");
    let mut r = t.renderer();
    r.add_arg("name", "Alice").add_arg("other", "Bob");
    assert_eq!(r.render(), "Hello Alice and Bob!");
}

#[test]
fn an_argument_given_twice_takes_the_last_value() {
    let t = Template::parse("Hi {name}");
    let mut r = t.renderer();
    r.add_arg("name", "first").add_arg("name", "second");
    assert_eq!(r.render(), "Hi second");
}

#[test]
fn an_empty_template_is_one_empty_text() {
    let t = Template::parse("");
    assert_eq!(t.length(), 0);
    assert_eq!(t.tokens(), &vec![text("")]);
}

#[test]
fn a_missing_argument_renders_as_nothing() {
    let t = Template::parse("{a}-{b}");
    assert_eq!(t.tokens(), &vec![text(""), arg("a"), text("-"), arg("b"), text("")]);
    let mut r = t.renderer();
    r.add_arg("b", "B");
    assert_eq!(r.render(), "-B");
}

#[test]
fn the_length_counts_bytes() {
    assert_eq!(Template::parse("é{x}").length(), 5);
}
