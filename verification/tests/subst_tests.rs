use router_config::{EnvVars, RouterConfig, SubstEvent};

fn env_of(pairs: &[(&str, &str)]) -> EnvVars {
    let mut env = EnvVars::new();
    for (name, value) in pairs {
        env.push(name.to_string(), value.to_string());
    }
    env
}

#[test]
fn resolved_text_is_unchanged() {
    let env = env_of(&[("FOO", "bar")]);
    let text = "policies:\n  - name: p1\n    url: http://x\n";
    assert_eq!(RouterConfig::expand_env_vars(text, &env), text);
}

#[test]
fn empty_text_is_unchanged() {
    let env = env_of(&[("FOO", "bar")]);
    assert_eq!(RouterConfig::expand_env_vars("", &env), "");
}

#[test]
fn substitution_is_deterministic() {
    let env = env_of(&[("A", "1"), ("B", "2")]);
    let text = "x${A}y${B}z${C}";
    let first = RouterConfig::expand_env_vars(text, &env);
    let second = RouterConfig::expand_env_vars(text, &env);
    assert_eq!(first, second);
}

#[test]
fn defined_variable_is_substituted() {
    let env = env_of(&[("FOO", "bar")]);
    assert_eq!(RouterConfig::expand_env_vars("x${FOO}y", &env), "xbary");
}

#[test]
fn undefined_placeholder_is_preserved() {
    let env = env_of(&[]);
    assert_eq!(RouterConfig::expand_env_vars("${FOO}", &env), "${FOO}");
}

#[test]
fn mixed_defined_and_undefined() {
    let env = env_of(&[("A", "1")]);
    assert_eq!(RouterConfig::expand_env_vars("${A}-${B}", &env), "1-${B}");
}

#[test]
fn empty_braces_are_not_a_placeholder() {
    let env = env_of(&[("FOO", "bar")]);
    assert_eq!(RouterConfig::expand_env_vars("${}x", &env), "${}x");
}

#[test]
fn unterminated_placeholder_is_preserved() {
    let env = env_of(&[("FOO", "bar")]);
    assert_eq!(RouterConfig::expand_env_vars("a${FOO", &env), "a${FOO");
}

#[test]
fn name_runs_to_first_closing_brace() {
    // The name is the shortest span up to the next '}', so a second
    // "${" inside it is part of the name.
    let env = env_of(&[("a${b", "v")]);
    assert_eq!(RouterConfig::expand_env_vars("${a${b}", &env), "v");
    let empty = env_of(&[]);
    assert_eq!(RouterConfig::expand_env_vars("${a${b}", &empty), "${a${b}");
}

#[test]
fn substituted_value_is_not_rescanned() {
    let env = env_of(&[("A", "${B}"), ("B", "z")]);
    assert_eq!(RouterConfig::expand_env_vars("${A}", &env), "${B}");
}

#[test]
fn adjacent_placeholders() {
    let env = env_of(&[("A", "1"), ("B", "2")]);
    assert_eq!(RouterConfig::expand_env_vars("${A}${B}", &env), "12");
}

#[test]
fn dollar_without_brace_is_plain_text() {
    let env = env_of(&[("A", "1")]);
    assert_eq!(RouterConfig::expand_env_vars("cost: $5 and $A", &env), "cost: $5 and $A");
}

#[test]
fn first_binding_wins_in_snapshot() {
    let env = env_of(&[("A", "first"), ("A", "second")]);
    assert_eq!(RouterConfig::expand_env_vars("${A}", &env), "first");
}

#[test]
fn substitution_reports_events_in_order() {
    let env = env_of(&[("A", "1")]);
    let (out, events) = RouterConfig::expand_env_vars_with_events("${A}-${B}", &env);
    assert_eq!(out, "1-${B}");
    assert_eq!(
        events,
        vec![
            SubstEvent::Substituted { name: "A".to_string() },
            SubstEvent::Undefined { name: "B".to_string() },
        ]
    );
}

#[test]
fn plain_text_reports_no_events() {
    let env = env_of(&[("A", "1")]);
    let (out, events) = RouterConfig::expand_env_vars_with_events("no placeholders here", &env);
    assert_eq!(out, "no placeholders here");
    assert!(events.is_empty());
}
