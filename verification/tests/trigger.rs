use containerd_shim_spin::app::{LockedApp, LockedComponent, LockedTrigger};
use containerd_shim_spin::trigger::{
    get_supported_triggers, select_triggers, unique_kinds, TriggerError, TriggerKind,
    COMMAND_TRIGGER_TYPE,
    HTTP_TRIGGER_TYPE, MQTT_TRIGGER_TYPE, REDIS_TRIGGER_TYPE, SQS_TRIGGER_TYPE,
};

fn app_with_triggers(kinds: &[&str]) -> LockedApp {
    LockedApp {
        components: vec![LockedComponent {
            id: "hello".to_string(),
            source: "sha256:abcd".to_string(),
        }],
        triggers: kinds
            .iter()
            .map(|kind| LockedTrigger {
                trigger_type: kind.to_string(),
                component: "hello".to_string(),
            })
            .collect(),
        variables: vec![],
    }
}

#[test]
fn labels_name_their_kinds() {
    assert_eq!(HTTP_TRIGGER_TYPE, "http");
    assert_eq!(REDIS_TRIGGER_TYPE, "redis");
    assert_eq!(SQS_TRIGGER_TYPE, "sqs");
    assert_eq!(COMMAND_TRIGGER_TYPE, "command");
    assert_eq!(MQTT_TRIGGER_TYPE, "mqtt");
    let all = [
        TriggerKind::Http,
        TriggerKind::Redis,
        TriggerKind::Sqs,
        TriggerKind::Command,
        TriggerKind::Mqtt,
    ];
    for kind in all {
        assert_eq!(TriggerKind::from_label(kind.label()), Some(kind));
    }
    assert_eq!(TriggerKind::from_label("foo"), None);
    assert_eq!(TriggerKind::from_label("HTTP"), None);
    assert_eq!(TriggerKind::from_label(""), None);
    assert_eq!(TriggerKind::from_label("http "), None);
}

#[test]
fn distinct_kinds_in_order_of_first_declaration() {
    let app = app_with_triggers(&["redis", "http", "redis", "command", "http", "mqtt", "sqs"]);
    assert_eq!(
        get_supported_triggers(&app),
        Ok(vec![
            TriggerKind::Redis,
            TriggerKind::Http,
            TriggerKind::Command,
            TriggerKind::Mqtt,
            TriggerKind::Sqs,
        ])
    );
    assert_eq!(select_triggers(&app), get_supported_triggers(&app));
}

#[test]
fn single_http_trigger_is_selected() {
    let app = app_with_triggers(&["http"]);
    assert_eq!(select_triggers(&app), Ok(vec![TriggerKind::Http]));
}

#[test]
fn unsupported_kind_is_named_in_the_error() {
    let app = app_with_triggers(&["http", "foo", "bar"]);
    let error = get_supported_triggers(&app).unwrap_err();
    assert_eq!(
        error,
        TriggerError::Unsupported {
            kind: "foo".to_string()
        }
    );
    assert_eq!(
        error.message(),
        "Only Http, Redis, MQTT, SQS, and Command triggers are currently supported. Found unsupported trigger: foo"
    );
    assert_eq!(select_triggers(&app), Err(error));
}

#[test]
fn no_triggers_is_an_empty_set_and_a_selection_error() {
    let app = app_with_triggers(&[]);
    assert_eq!(get_supported_triggers(&app), Ok(vec![]));
    let error = select_triggers(&app).unwrap_err();
    assert_eq!(error, TriggerError::NoTriggers);
    assert_eq!(error.message(), "no triggers declared");
}

#[test]
fn repeats_are_left_out_in_place() {
    assert_eq!(
        unique_kinds(&vec![
            TriggerKind::Mqtt,
            TriggerKind::Http,
            TriggerKind::Mqtt,
            TriggerKind::Mqtt,
            TriggerKind::Sqs,
            TriggerKind::Http,
        ]),
        vec![TriggerKind::Mqtt, TriggerKind::Http, TriggerKind::Sqs]
    );
    assert_eq!(unique_kinds(&vec![]), vec![]);
    let set = vec![TriggerKind::Command, TriggerKind::Redis];
    assert_eq!(unique_kinds(&set), set);
}
