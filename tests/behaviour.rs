use envsubst::{default_delimiter, Environment, ParseError, Parser, SyntaxKind};

fn env_of(pairs: &[(&str, &str)]) -> Environment {
    let mut env = Environment::new();
    for (name, value) in pairs {
        env.set(name, value);
    }
    env
}

fn rendered(env: Environment, template: &str, fail_when_not_found: bool) -> String {
    let mut parser = Parser::new(env, fail_when_not_found, None);
    assert!(parser.process(template).is_ok());
    parser.output()
}

fn failure(env: Environment, template: &str, fail_when_not_found: bool) -> (ParseError, String) {
    let mut parser = Parser::new(env, fail_when_not_found, None);
    match parser.process(template) {
        Ok(()) => panic!("expected a failure"),
        Err(e) => (e, parser.output()),
    }
}

fn syntax_kind(e: &ParseError) -> (SyntaxKind, usize, String) {
    match e {
        ParseError::Syntax { kind, line, name } => (*kind, *line, name.clone()),
        _ => panic!("expected a syntax error"),
    }
}

#[test]
fn default_delimiter_is_dollar() {
    assert_eq!(default_delimiter(), '$');
}

#[test]
fn literal_text_is_copied() {
    let text = "plain {text} with braces\n\tand } lines\r\n";
    assert_eq!(rendered(Environment::new(), text, true), text);
}

#[test]
fn empty_input_gives_empty_output() {
    assert_eq!(rendered(Environment::new(), "", true), "");
}

#[test]
fn literal_text_twice_is_unchanged() {
    let text = "no references {here}\n";
    let once = rendered(Environment::new(), text, false);
    let twice = rendered(Environment::new(), &once, false);
    assert_eq!(once, twice);
    assert_eq!(once, text);
}

#[test]
fn bound_reference_forms() {
    let env = || env_of(&[("NAME", "value")]);
    assert_eq!(rendered(env(), "$NAME", true), "value");
    assert_eq!(rendered(env(), "${NAME}", true), "value");
    assert_eq!(rendered(env(), "$NAME ", true), "value ");
    assert_eq!(rendered(env(), "a${NAME}b", true), "avalueb");
}

#[test]
fn braced_and_unbraced_agree() {
    let env = || env_of(&[("N", "v")]);
    assert_eq!(rendered(env(), "$N", true), rendered(env(), "${N}", true));
}

#[test]
fn multiple_references_on_lines() {
    let env = env_of(&[("A", "x"), ("B", "y")]);
    assert_eq!(rendered(env, "simple: $A\nbraces: ${B}", true), "simple: x\nbraces: y");
}

#[test]
fn unbraced_reference_ends_at_other_characters() {
    let env = || env_of(&[("A", "x")]);
    assert_eq!(rendered(env(), "$A1", true), "x1");
    assert_eq!(rendered(env(), "$A-$A", true), "x-x");
    assert_eq!(rendered(env(), "$A\nb", true), "x\nb");
}

#[test]
fn later_binding_hides_earlier() {
    let env = env_of(&[("A", "old"), ("A", "new")]);
    assert_eq!(rendered(env, "$A", true), "new");
}

#[test]
fn unbound_name_is_empty_when_tolerated() {
    assert_eq!(rendered(Environment::new(), "<$MISSING>", false), "<>");
    assert_eq!(rendered(Environment::new(), "${}", false), "");
}

#[test]
fn unbound_name_fails_when_required() {
    let (e, _) = failure(Environment::new(), "$TEST_MISSING", true);
    assert!(matches!(&e, ParseError::NotSet { name } if name == "TEST_MISSING"));
    assert_eq!(e.message(), "The variable TEST_MISSING is not set");
    let (e, _) = failure(Environment::new(), "${TEST_MISSING}", true);
    assert!(matches!(&e, ParseError::NotSet { name } if name == "TEST_MISSING"));
}

#[test]
fn unreadable_value_fails() {
    let mut env = Environment::new();
    env.set_unreadable("BAD", "not valid unicode");
    let (e, _) = failure(env, "$BAD", false);
    assert!(matches!(&e, ParseError::Unreadable { name, cause } if name == "BAD" && cause == "not valid unicode"));
    assert_eq!(e.message(), "failed to read contents of variable BAD: not valid unicode");
}

#[test]
fn failed_lookup_clears_pending_name() {
    let mut parser = Parser::new(Environment::new(), true, None);
    let fed = parser.feed("a $MISSING b");
    assert!(matches!(&fed, Err(ParseError::NotSet { name }) if name == "MISSING"));
    assert!(parser.finish().is_ok());
    assert_eq!(parser.output(), "a ");

    let mut env = Environment::new();
    env.set_unreadable("BAD", "cause");
    let mut parser = Parser::new(env, false, None);
    assert!(parser.feed("${BAD}").is_err());
    assert!(parser.finish().is_ok());
}

#[test]
fn open_braces_reports_line_and_name() {
    let (e, _) = failure(Environment::new(), "${OPEN_BRACES", true);
    assert_eq!(syntax_kind(&e), (SyntaxKind::MissingClosingBrace, 1, "OPEN_BRACES".to_string()));
    let (e, _) = failure(Environment::new(), "a\nb\n${X", true);
    assert_eq!(syntax_kind(&e), (SyntaxKind::MissingClosingBrace, 3, "X".to_string()));
}

#[test]
fn line_numbers_above_nine_in_message() {
    let text = format!("{}${{LATE", "\n".repeat(11));
    let (e, _) = failure(Environment::new(), &text, true);
    assert_eq!(e.message(), "Failed to parse a variable on line 12 missing a '}' after 'LATE'");
}

#[test]
fn doubled_delimiter_fails() {
    let (e, out) = failure(env_of(&[("A", "x")]), "ab$$A", false);
    assert_eq!(syntax_kind(&e).0, SyntaxKind::AlreadyParsing);
    assert_eq!(e.message(), "Variable is already being parsed");
    assert_eq!(out, "ab");
}

#[test]
fn double_open_braces_fails() {
    let (e, _) = failure(Environment::new(), "${{A}}", false);
    assert_eq!(syntax_kind(&e).0, SyntaxKind::DoubleOpenBraces);
    assert_eq!(e.message(), "Double open braces");
}

#[test]
fn closing_without_opening_fails() {
    let (e, _) = failure(Environment::new(), "$A}", false);
    assert_eq!(syntax_kind(&e), (SyntaxKind::ClosingWithoutOpening, 1, "A".to_string()));
    assert_eq!(e.message(), "Closing braces without opening");
}

#[test]
fn whitespace_inside_braces_fails() {
    let (e, _) = failure(Environment::new(), "x\n${A B}", false);
    assert_eq!(syntax_kind(&e), (SyntaxKind::BracesNotClosed, 2, "A".to_string()));
    assert_eq!(e.message(), "Braces not closed");
}

#[test]
fn extra_character_inside_braces_fails() {
    let (e, _) = failure(Environment::new(), "${A1}", false);
    assert_eq!(syntax_kind(&e), (SyntaxKind::ExtraCharacter('1'), 1, "A".to_string()));
    assert_eq!(e.message(), "Failed to parse variable A with extra character '1'");
    let (e, _) = failure(Environment::new(), "${A$}", false);
    assert_eq!(syntax_kind(&e).0, SyntaxKind::ExtraCharacter('$'));
}

#[test]
fn output_before_failure_is_kept() {
    let (_, out) = failure(env_of(&[("A", "x")]), "$A and ${B C}", false);
    assert_eq!(out, "x and ");
}

#[test]
fn streaming_by_lines() {
    let mut parser = Parser::new(env_of(&[("A", "x")]), true, None);
    assert!(parser.feed("one $A\n").is_ok());
    assert_eq!(parser.take_output(), "one x\n");
    assert!(parser.feed("two $A").is_ok());
    assert!(parser.finish().is_ok());
    assert_eq!(parser.take_output(), "two x");
    assert_eq!(parser.output(), "");
}
