use containerd_shim_spin::app::{LockedApp, LockedComponent, LockedTrigger, Variable};
use containerd_shim_spin::variables::{
    bind_variables, env_name, lookup, BindError, SPIN_APPLICATION_VARIABLE_PREFIX,
};

fn variable(name: &str, default: Option<&str>) -> Variable {
    Variable {
        name: name.to_string(),
        default: default.map(|d| d.to_string()),
        value: None,
    }
}

fn app_with_variables(variables: Vec<Variable>) -> LockedApp {
    LockedApp {
        components: vec![LockedComponent {
            id: "hello".to_string(),
            source: "sha256:abcd".to_string(),
        }],
        triggers: vec![LockedTrigger {
            trigger_type: "http".to_string(),
            component: "hello".to_string(),
        }],
        variables,
    }
}

fn env(pairs: &[(&str, &str)]) -> Vec<(String, String)> {
    pairs
        .iter()
        .map(|(name, value)| (name.to_string(), value.to_string()))
        .collect()
}

#[test]
fn environment_names_are_prefix_and_upper_case_key() {
    assert_eq!(SPIN_APPLICATION_VARIABLE_PREFIX, "SPIN_VARIABLE");
    assert_eq!(env_name("api_key"), "SPIN_VARIABLE_API_KEY");
    assert_eq!(env_name("Api_Key2"), "SPIN_VARIABLE_API_KEY2");
    assert_eq!(env_name(""), "SPIN_VARIABLE_");
    assert_eq!(env_name("cl\u{e9}"), "SPIN_VARIABLE_CL\u{e9}");
}

#[test]
fn lookup_takes_the_first_pair_of_a_name() {
    let env = env(&[("A", "1"), ("B", "2"), ("A", "3")]);
    assert_eq!(lookup(&env, &"A".to_string()), Some(&"1".to_string()));
    assert_eq!(lookup(&env, &"B".to_string()), Some(&"2".to_string()));
    assert_eq!(lookup(&env, &"a".to_string()), None);
    assert_eq!(lookup(&vec![], &"A".to_string()), None);
}

#[test]
fn environment_wins_over_default() {
    let app = app_with_variables(vec![
        variable("api_key", None),
        variable("region", Some("eu")),
        variable("mode", Some("fast")),
    ]);
    let env = env(&[
        ("SPIN_VARIABLE_API_KEY", "secret"),
        ("SPIN_VARIABLE_MODE", "slow"),
        ("api_key", "ignored"),
    ]);
    let bound = bind_variables(app.clone(), &env).expect("bound");
    assert_eq!(bound.components, app.components);
    assert_eq!(bound.triggers, app.triggers);
    assert_eq!(
        bound.variables,
        vec![
            Variable {
                name: "api_key".to_string(),
                default: None,
                value: Some("secret".to_string())
            },
            Variable {
                name: "region".to_string(),
                default: Some("eu".to_string()),
                value: Some("eu".to_string())
            },
            Variable {
                name: "mode".to_string(),
                default: Some("fast".to_string()),
                value: Some("slow".to_string())
            },
        ]
    );
    assert!(bound.is_resolved());
    assert!(!app.is_resolved());
}

#[test]
fn missing_required_variable() {
    let app = app_with_variables(vec![
        variable("region", Some("eu")),
        variable("api_key", None),
        variable("token", None),
    ]);
    assert_eq!(
        bind_variables(app, &env(&[("SPIN_VARIABLE_REGION", "us")])),
        Err(BindError::MissingRequired {
            name: "api_key".to_string()
        })
    );
}

#[test]
fn binding_without_variables_changes_nothing() {
    let app = app_with_variables(vec![]);
    assert_eq!(bind_variables(app.clone(), &env(&[("X", "1")])), Ok(app));
}
