use containerd_shim_spin::app::{
    bare_module_app, LockedApp, LockedComponent, LockedTrigger, Variable,
};
use containerd_shim_spin::driver::{
    exit_status, prepare, Outcome, Pipeline, PipelineAction, PipelineEvent, PipelinePhase,
    RunError,
};
use containerd_shim_spin::engine::{cache_key, compiled_slot, PrecompileError, SpinEngine};
use containerd_shim_spin::source::ResolveError;
use containerd_shim_spin::supervisor::SupervisorError;
use containerd_shim_spin::trigger::{TriggerError, TriggerKind};
use containerd_shim_spin::variables::BindError;

fn hello_app(kinds: &[&str], variables: Vec<Variable>) -> LockedApp {
    LockedApp {
        components: vec![LockedComponent {
            id: "hello".to_string(),
            source: "sha256:abcd".to_string(),
        }],
        triggers: kinds
            .iter()
            .map(|kind| LockedTrigger {
                trigger_type: kind.to_string(),
                component: "hello".to_string(),
            })
            .collect(),
        variables,
    }
}

fn api_key() -> Variable {
    Variable {
        name: "api_key".to_string(),
        default: None,
        value: None,
    }
}

fn resolving() -> Pipeline {
    let pipeline = Pipeline::new(vec![(
        "SPIN_VARIABLE_API_KEY".to_string(),
        "secret".to_string(),
    )]);
    assert_eq!(pipeline.phase(), PipelinePhase::Idle);
    let (pipeline, action) = pipeline.step(PipelineEvent::Begin);
    assert_eq!(action, PipelineAction::InitializeCache);
    assert_eq!(pipeline.phase(), PipelinePhase::Cache);
    let (pipeline, action) = pipeline.step(PipelineEvent::CacheReady);
    assert_eq!(action, PipelineAction::ResolveSource);
    assert_eq!(pipeline.phase(), PipelinePhase::Resolving);
    pipeline
}

#[test]
fn exit_status_of_each_outcome() {
    assert_eq!(exit_status(Outcome::Finished { result: Ok(()) }), Ok(0));
    assert_eq!(exit_status(Outcome::Aborted), Ok(0));
    let error = RunError::Supervisor {
        error: SupervisorError::Trigger {
            kind: TriggerKind::Http,
            reason: "boom".to_string(),
        },
    };
    assert_eq!(
        exit_status(Outcome::Finished {
            result: Err(error.clone())
        }),
        Err(error)
    );
}

#[test]
fn interrupt_during_resolution_exits_with_zero() {
    let pipeline = resolving();
    assert_eq!(pipeline.phase(), PipelinePhase::Resolving);
    // The interrupt drops the pipeline where it stands: no trigger was asked for.
    assert_eq!(exit_status(Outcome::Aborted), Ok(0));
}

#[test]
fn pipeline_runs_its_steps_in_order() {
    let pipeline = resolving();
    let (pipeline, action) = pipeline.step(PipelineEvent::Resolved {
        app: hello_app(&["http", "command", "http"], vec![api_key()]),
    });
    assert_eq!(action, PipelineAction::InitializeTelemetry);
    assert_eq!(pipeline.phase(), PipelinePhase::Telemetry);
    let (pipeline, action) = pipeline.step(PipelineEvent::TelemetryReady);
    let mut bound = hello_app(&["http", "command", "http"], vec![api_key()]);
    bound.variables[0].value = Some("secret".to_string());
    assert_eq!(
        action,
        PipelineAction::Supervise {
            app: bound,
            kinds: vec![TriggerKind::Http, TriggerKind::Command]
        }
    );
    assert_eq!(pipeline.phase(), PipelinePhase::Supervising);
    let (pipeline, action) = pipeline.step(PipelineEvent::Supervised { result: Ok(()) });
    assert_eq!(action, PipelineAction::Finish { result: Ok(()) });
    assert_eq!(pipeline.phase(), PipelinePhase::Finished);
}

#[test]
fn supervisor_error_is_the_pipelines() {
    let pipeline = resolving();
    let (pipeline, _) = pipeline.step(PipelineEvent::Resolved {
        app: hello_app(&["redis"], vec![]),
    });
    let (pipeline, _) = pipeline.step(PipelineEvent::TelemetryReady);
    let error = SupervisorError::Trigger {
        kind: TriggerKind::Redis,
        reason: "connection refused".to_string(),
    };
    let (_, action) = pipeline.step(PipelineEvent::Supervised {
        result: Err(error.clone()),
    });
    assert_eq!(
        action,
        PipelineAction::Finish {
            result: Err(RunError::Supervisor { error })
        }
    );
}

#[test]
fn failed_steps_end_the_pipeline_with_their_error() {
    let setup = RunError::Setup {
        reason: "cache".to_string(),
    };
    let pipeline = Pipeline::new(vec![]);
    let (pipeline, _) = pipeline.step(PipelineEvent::Begin);
    let (pipeline, action) = pipeline.step(PipelineEvent::StepFailed {
        error: setup.clone(),
    });
    assert_eq!(action, PipelineAction::Finish { result: Err(setup) });
    assert_eq!(pipeline.phase(), PipelinePhase::Finished);

    let layout = RunError::Resolution {
        error: ResolveError::UnrecognizedLayout,
    };
    let (_, action) = resolving().step(PipelineEvent::StepFailed {
        error: layout.clone(),
    });
    assert_eq!(action, PipelineAction::Finish { result: Err(layout) });

    let telemetry = RunError::Setup {
        reason: "telemetry".to_string(),
    };
    let (pipeline, _) = resolving().step(PipelineEvent::Resolved {
        app: hello_app(&["http"], vec![]),
    });
    let (_, action) = pipeline.step(PipelineEvent::StepFailed {
        error: telemetry.clone(),
    });
    assert_eq!(
        action,
        PipelineAction::Finish {
            result: Err(telemetry)
        }
    );
}

#[test]
fn events_out_of_turn_end_the_pipeline() {
    let unexpected = PipelineAction::Finish {
        result: Err(RunError::Setup {
            reason: "unexpected event".to_string(),
        }),
    };
    let (pipeline, action) = Pipeline::new(vec![]).step(PipelineEvent::CacheReady);
    assert_eq!(action, unexpected);
    let (_, action) = pipeline.step(PipelineEvent::Begin);
    assert_eq!(action, unexpected);
    let (_, action) = resolving().step(PipelineEvent::TelemetryReady);
    assert_eq!(action, unexpected);
    let (_, action) = resolving().step(PipelineEvent::Supervised { result: Ok(()) });
    assert_eq!(action, unexpected);
}

#[test]
fn unsupported_trigger_kind() {
    let (pipeline, action) = resolving().step(PipelineEvent::Resolved {
        app: hello_app(&["foo"], vec![]),
    });
    let error = TriggerError::Unsupported {
        kind: "foo".to_string(),
    };
    assert!(error.message().contains("foo"));
    assert_eq!(
        action,
        PipelineAction::Finish {
            result: Err(RunError::Trigger { error })
        }
    );
    assert_eq!(pipeline.phase(), PipelinePhase::Finished);
}

#[test]
fn missing_required_variable_fails_before_any_trigger() {
    let pipeline = Pipeline::new(vec![]);
    let (pipeline, _) = pipeline.step(PipelineEvent::Begin);
    let (pipeline, _) = pipeline.step(PipelineEvent::CacheReady);
    let (pipeline, action) = pipeline.step(PipelineEvent::Resolved {
        app: hello_app(&["http"], vec![api_key()]),
    });
    assert_eq!(
        action,
        PipelineAction::Finish {
            result: Err(RunError::Binding {
                error: BindError::MissingRequired {
                    name: "api_key".to_string()
                }
            })
        }
    );
    assert_eq!(pipeline.phase(), PipelinePhase::Finished);
}

#[test]
fn bare_module_has_no_triggers() {
    let (_, action) = resolving().step(PipelineEvent::Resolved {
        app: bare_module_app("sha256:1234".to_string()),
    });
    let error = TriggerError::NoTriggers;
    assert_eq!(error.message(), "no triggers declared");
    assert_eq!(
        action,
        PipelineAction::Finish {
            result: Err(RunError::Trigger { error })
        }
    );
}

#[test]
fn trigger_of_a_missing_component_is_a_malformed_manifest() {
    let mut app = hello_app(&["http"], vec![]);
    app.triggers[0].component = "goodbye".to_string();
    assert!(!app.is_well_formed());
    assert_eq!(
        prepare(app, &vec![]),
        Err(RunError::Resolution {
            error: ResolveError::MalformedManifest
        })
    );
}

#[test]
fn binding_comes_before_trigger_selection() {
    assert_eq!(
        prepare(hello_app(&["foo"], vec![api_key()]), &vec![]),
        Err(RunError::Binding {
            error: BindError::MissingRequired {
                name: "api_key".to_string()
            }
        })
    );
}

#[test]
fn cache_key_is_the_digest_in_decimal() {
    assert_eq!(cache_key(0), "0");
    assert_eq!(cache_key(7), "7");
    assert_eq!(cache_key(10), "10");
    assert_eq!(cache_key(1234567890), "1234567890");
    assert_eq!(cache_key(u64::MAX), "18446744073709551615");
    for digest in [1u64, 9, 99, 100, 101, 4096, 1 << 40, u64::MAX - 1] {
        assert_eq!(cache_key(digest), digest.to_string());
    }
}

#[test]
fn compiled_slot_of_each_compiler_answer() {
    assert_eq!(compiled_slot(3, Ok(vec![1, 2])), Ok(Some(vec![1, 2])));
    assert_eq!(
        compiled_slot(3, Err("bad magic".to_string())),
        Err(PrecompileError::Compiler {
            index: 3,
            message: "bad magic".to_string()
        })
    );
}

#[test]
fn engine_name_and_handling() {
    assert_eq!(SpinEngine::name(), "spin");
    let engine = SpinEngine::new().expect("engine");
    assert_eq!(engine.can_handle(), Ok(()));
    assert_eq!(
        SpinEngine::supported_layers_types(),
        containerd_shim_spin::media::supported_layers_types()
    );
}
