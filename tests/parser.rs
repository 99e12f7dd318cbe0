use envsubst::{Environment, ParseError, Parser};

fn render_in(env: Environment, template: &str, expected: &str, fail_when_not_found: bool, delimiter: Option<char>) {
    let mut parser = Parser::new(env, fail_when_not_found, delimiter);
    let result = parser.process(template);
    assert!(result.is_ok());
    assert_eq!(parser.output(), expected);
}

fn env_of(pairs: &[(&str, &str)]) -> Environment {
    let mut env = Environment::new();
    for (name, value) in pairs {
        env.set(name, value);
    }
    env
}

#[test]
fn test_simple_variable() {
    let env = env_of(&[("TEST_SIMPLE", "simple return")]);
    render_in(env, "$TEST_SIMPLE", "simple return", true, None);
}

#[test]
fn test_simple_variable_with_delimiter() {
    let env = env_of(&[("TEST_SIMPLE", "simple return")]);
    render_in(env, "\u{1F47B}TEST_SIMPLE", "simple return", true, Some('\u{1F47B}'));
}

#[test]
fn test_simple_quoted_variable() {
    let env = env_of(&[("TEST_SIMPLE", "simple return")]);
    render_in(env, "'$TEST_SIMPLE'", "'simple return'", true, None);
}

#[test]
fn test_with_braces() {
    let env = env_of(&[("TEST_BRACES", "braces return")]);
    render_in(env, "${TEST_BRACES}", "braces return", true, None);
}

#[test]
fn test_with_quoted_braces() {
    let env = env_of(&[("TEST_BRACES", "braces return")]);
    render_in(env, "'${TEST_BRACES}'", "'braces return'", true, None);
}

#[test]
fn test_mixed() {
    let env = env_of(&[("TEST_SIMPLE", "simple return"), ("TEST_BRACES", "braces return")]);
    render_in(
        env,
        "simple: $TEST_SIMPLE\nbraces: ${TEST_BRACES}",
        "simple: simple return\nbraces: braces return",
        true,
        None,
    );
}

#[test]
fn test_missing() {
    for template in &["$TEST_MISSING", "${TEST_MISSING}"] {
        render_in(Environment::new(), template, "", false, None);
    }
}

#[test]
fn test_open_braces() {
    let mut parser = Parser::new(Environment::new(), true, None);
    let result = parser.process("${OPEN_BRACES");
    assert!(result.is_err());
    let error = result.unwrap_err();
    assert_eq!(
        error.message(),
        "Failed to parse a variable on line 1 missing a '}' after 'OPEN_BRACES'"
    );
}
