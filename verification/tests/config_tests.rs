use router_config::{ConfigError, EnvVars, Llm, Policy, RouterConfig, validate_config};

fn llm(name: &str, api_base: &str, api_key: &str, model: &str) -> Llm {
    Llm {
        name: name.to_string(),
        api_base: api_base.to_string(),
        api_key: api_key.to_string(),
        model: model.to_string(),
    }
}

fn policy(name: &str, url: &str, llms: Vec<Llm>) -> Policy {
    Policy { name: name.to_string(), url: url.to_string(), llms }
}

fn sample_config() -> RouterConfig {
    RouterConfig {
        policies: vec![
            policy(
                "prod",
                "http://prod",
                vec![
                    llm("gpt", "http://api", "k1", "gpt-4"),
                    llm("mistral", "http://api2", "k2", "mixtral-8x7b"),
                ],
            ),
            policy("dev", "http://dev", vec![llm("small", "http://api3", "k3", "tiny")]),
        ],
    }
}

#[test]
fn policy_lookup_by_name() {
    let cfg = sample_config();
    let p = cfg.get_policy_by_name("dev").expect("dev policy exists");
    assert_eq!(p.name, "dev");
    assert_eq!(p.url, "http://dev");
    assert!(cfg.get_policy_by_name("missing").is_none());
}

#[test]
fn policy_lookup_trims_both_sides() {
    let cfg = sample_config();
    let p = cfg.get_policy_by_name("  prod  ").expect("trimmed query matches");
    assert_eq!(p.name, "prod");

    let cfg2 = RouterConfig { policies: vec![policy("  prod  ", "u", vec![])] };
    let p2 = cfg2.get_policy_by_name("prod").expect("trimmed stored name matches");
    assert_eq!(p2.name, "  prod  ");
}

#[test]
fn policy_lookup_returns_first_match() {
    let cfg = RouterConfig {
        policies: vec![policy("a", "first", vec![]), policy("a", "second", vec![])],
    };
    let p = cfg.get_policy_by_name("a").expect("duplicate name is reachable");
    assert_eq!(p.url, "first");
}

#[test]
fn policy_lookup_by_index() {
    let cfg = sample_config();
    let p = cfg.get_policy_by_index(1).expect("index 1 in range");
    assert_eq!(p.name, "dev");
    assert!(cfg.get_policy_by_index(2).is_none());
}

#[test]
fn round_trip_lookup() {
    let cfg = sample_config();
    for i in 0..cfg.policies.len() {
        let by_index = cfg.get_policy_by_index(i).expect("in range");
        let by_name = cfg.get_policy_by_name(&by_index.name).expect("found by own name");
        assert_eq!(by_name.name.trim(), by_index.name.trim());
    }
}

#[test]
fn llm_lookup_by_name_and_index() {
    let cfg = sample_config();
    let p = cfg.get_policy_by_name("prod").unwrap();
    let l = p.get_llm_by_name(" mistral ").expect("trimmed query matches");
    assert_eq!(l.model, "mixtral-8x7b");
    assert!(p.get_llm_by_name("missing").is_none());

    let l0 = p.get_llm_by_index(0).expect("in range");
    assert_eq!(l0.name, "gpt");
    assert!(p.get_llm_by_index(2).is_none());

    assert_eq!(p.get_llm_name_by_index(1).as_deref(), Some("mistral"));
    assert!(p.get_llm_name_by_index(2).is_none());
}

#[test]
fn lookups_return_independent_copies() {
    let cfg = sample_config();
    let mut p = cfg.get_policy_by_index(0).unwrap();
    p.name = "changed".to_string();
    p.llms[0].api_key = "changed".to_string();
    assert_eq!(cfg.policies[0].name, "prod");
    assert_eq!(cfg.policies[0].llms[0].api_key, "k1");
}

#[test]
fn sanitized_redacts_every_key_and_nothing_else() {
    let cfg = sample_config();
    let clean = cfg.sanitized();
    assert_eq!(clean.policies.len(), cfg.policies.len());
    for (sp, p) in clean.policies.iter().zip(cfg.policies.iter()) {
        assert_eq!(sp.name, p.name);
        assert_eq!(sp.url, p.url);
        assert_eq!(sp.llms.len(), p.llms.len());
        for (sl, l) in sp.llms.iter().zip(p.llms.iter()) {
            assert_eq!(sl.name, l.name);
            assert_eq!(sl.api_base, l.api_base);
            assert_eq!(sl.model, l.model);
            assert_eq!(sl.api_key, "[REDACTED]");
        }
    }
    // The original still holds the true secrets.
    assert_eq!(cfg.policies[0].llms[0].api_key, "k1");
}

#[test]
fn valid_config_passes_validation() {
    assert!(validate_config(&sample_config()).is_ok());
}

#[test]
fn empty_config_passes_validation() {
    assert!(validate_config(&RouterConfig { policies: vec![] }).is_ok());
}

#[test]
fn empty_policy_name_fails_validation() {
    let cfg = RouterConfig {
        policies: vec![policy("", "http://x", vec![llm("l", "b", "k", "m")])],
    };
    match validate_config(&cfg) {
        Err(ConfigError::MissingPolicyField { policy, field }) => {
            assert_eq!(policy, "");
            assert_eq!(field, "name");
        }
        other => panic!("expected MissingPolicyField, got {:?}", other),
    }
}

#[test]
fn empty_api_base_fails_validation() {
    let cfg = RouterConfig {
        policies: vec![policy("p1", "http://x", vec![llm("gpt", "", "k", "m")])],
    };
    match validate_config(&cfg) {
        Err(ConfigError::MissingLlmField { llm, field }) => {
            assert_eq!(llm, "gpt");
            assert_eq!(field, "api_base");
        }
        other => panic!("expected MissingLlmField, got {:?}", other),
    }
}

#[test]
fn empty_model_fails_validation() {
    let cfg = RouterConfig {
        policies: vec![policy("p1", "http://x", vec![llm("gpt", "b", "k", "")])],
    };
    match validate_config(&cfg) {
        Err(ConfigError::MissingLlmField { llm, field }) => {
            assert_eq!(llm, "gpt");
            assert_eq!(field, "model");
        }
        other => panic!("expected MissingLlmField, got {:?}", other),
    }
}

#[test]
fn empty_api_key_fails_validation() {
    let cfg = RouterConfig {
        policies: vec![policy("p1", "http://x", vec![llm("gpt", "b", "", "m")])],
    };
    match validate_config(&cfg) {
        Err(ConfigError::MissingLlmField { llm, field }) => {
            assert_eq!(llm, "gpt");
            assert_eq!(field, "api_key");
        }
        other => panic!("expected MissingLlmField, got {:?}", other),
    }
}

#[test]
fn validation_reports_first_offending_field_in_order() {
    // First endpoint misses api_base, a later one misses model: the
    // api_base violation is the one reported.
    let cfg = RouterConfig {
        policies: vec![policy(
            "p1",
            "http://x",
            vec![llm("first", "", "k", "m"), llm("second", "b", "k", "")],
        )],
    };
    match validate_config(&cfg) {
        Err(ConfigError::MissingLlmField { llm, field }) => {
            assert_eq!(llm, "first");
            assert_eq!(field, "api_base");
        }
        other => panic!("expected MissingLlmField, got {:?}", other),
    }
}

#[test]
fn api_base_is_checked_before_model_within_one_llm() {
    let cfg = RouterConfig {
        policies: vec![policy("p1", "http://x", vec![llm("gpt", "", "k", "")])],
    };
    match validate_config(&cfg) {
        Err(ConfigError::MissingLlmField { field, .. }) => assert_eq!(field, "api_base"),
        other => panic!("expected MissingLlmField, got {:?}", other),
    }
}

#[test]
fn placeholder_api_key_passes_validation() {
    let cfg = RouterConfig {
        policies: vec![policy("p1", "http://x", vec![llm("gpt", "b", "${KEY}", "m")])],
    };
    assert!(validate_config(&cfg).is_ok());
}

#[test]
fn resolved_key_scenario() {
    // YAML-equivalent structure with api_key "${KEY}" and KEY bound.
    let mut env = EnvVars::new();
    env.push("KEY".to_string(), "secret123".to_string());
    let key = RouterConfig::expand_env_vars("${KEY}", &env);
    let cfg = RouterConfig {
        policies: vec![policy(
            "p1",
            "http://x",
            vec![llm("gpt", "http://api", &key, "gpt-4")],
        )],
    };
    assert!(validate_config(&cfg).is_ok());
    let p = cfg.get_policy_by_name("p1").unwrap();
    let l = p.get_llm_by_name("gpt").unwrap();
    assert_eq!(l.api_key, "secret123");
    let clean = cfg.sanitized();
    assert_eq!(clean.policies[0].llms[0].api_key, "[REDACTED]");
}

#[test]
fn unresolved_key_scenario() {
    // The same structure with KEY unbound: the load still succeeds and
    // the key keeps its placeholder form.
    let env = EnvVars::new();
    let key = RouterConfig::expand_env_vars("${KEY}", &env);
    let cfg = RouterConfig {
        policies: vec![policy(
            "p1",
            "http://x",
            vec![llm("gpt", "http://api", &key, "gpt-4")],
        )],
    };
    assert!(validate_config(&cfg).is_ok());
    let l = cfg.get_policy_by_name("p1").unwrap().get_llm_by_name("gpt").unwrap();
    assert_eq!(l.api_key, "${KEY}");
}

#[test]
fn describe_names_the_offending_field() {
    let err = ConfigError::MissingLlmField {
        llm: "gpt".to_string(),
        field: "api_base".to_string(),
    };
    let text = err.describe();
    assert!(text.contains("gpt"));
    assert!(text.contains("api_base"));
}

#[test]
fn unresolved_key_shape_is_detected() {
    assert!(llm("gpt", "b", "${KEY}", "m").has_unresolved_key());
    assert!(llm("gpt", "b", "${}", "m").has_unresolved_key());
    assert!(!llm("gpt", "b", "secret123", "m").has_unresolved_key());
    assert!(!llm("gpt", "b", "${KEY", "m").has_unresolved_key());
    assert!(!llm("gpt", "b", "", "m").has_unresolved_key());
    assert!(!llm("gpt", "b", "${", "m").has_unresolved_key());
}
