//! The execution driver: the pipeline from image to running triggers, and
//! the exit status of a run.
//!
//! The pipeline is a state machine. Setting up the cache, reading the
//! application out of the image, setting up telemetry and supervising the
//! triggers are the caller's work; the machine says which of them is due
//! next, and does the steps in between itself.

use crate::app::{AppModel, LockedApp};
use crate::source::{ResolveError, ResolveErrorModel};
use crate::supervisor::{ErrorModel, SupervisorError};
use crate::trigger::{select_triggers, selection_of, TriggerError, TriggerErrorModel, TriggerKind};
use crate::variables::{
    bind_variables, binding_result_of, env_model, BindError, BindErrorModel,
};
use vstd::prelude::*;

verus! {

/// Why a run failed.
#[derive(Clone, Debug, PartialEq, Eq)]
pub enum RunError {
    /// A step of setting up failed: standard I/O, the runtime, the interrupt
    /// hook, the cache or telemetry.
    Setup { reason: String },
    /// No application could be had from the image.
    Resolution { error: ResolveError },
    /// The application's variables could not be bound.
    Binding { error: BindError },
    /// No set of triggers could be had from the application.
    Trigger { error: TriggerError },
    /// The supervisor ended with an error.
    Supervisor { error: SupervisorError },
}

/// A run error, as plain values.
pub enum RunErrorModel {
    Setup { reason: Seq<char> },
    Resolution { error: ResolveErrorModel },
    Binding { error: BindErrorModel },
    Trigger { error: TriggerErrorModel },
    Supervisor { error: ErrorModel },
}

impl View for RunError {
    type V = RunErrorModel;

    open spec fn view(&self) -> RunErrorModel {
        match *self {
            RunError::Setup { reason } => RunErrorModel::Setup { reason: reason@ },
            RunError::Resolution { error } => RunErrorModel::Resolution { error: error@ },
            RunError::Binding { error } => RunErrorModel::Binding { error: error@ },
            RunError::Trigger { error } => RunErrorModel::Trigger { error: error@ },
            RunError::Supervisor { error } => RunErrorModel::Supervisor { error: error@ },
        }
    }
}

/// The result of a run that may have failed, as plain values.
pub open spec fn result_model(result: Result<(), RunError>) -> Result<(), RunErrorModel> {
    match result {
        Ok(_) => Ok(()),
        Err(e) => Err(e@),
    }
}

/// How a run ended.
#[derive(Debug, PartialEq, Eq)]
pub enum Outcome {
    /// The pipeline ran to its end, with this result.
    Finished { result: Result<(), RunError> },
    /// An interrupt cancelled the pipeline.
    Aborted,
}

/// The exit status of a run: 0 where the pipeline succeeded, the pipeline's
/// error where it failed, and 0 where an interrupt cancelled it, which is a
/// graceful stop and no error.
pub fn exit_status(outcome: Outcome) -> (status: Result<i32, RunError>)
    ensures
        match outcome {
            Outcome::Finished { result: Ok(_) } => status == Ok::<i32, RunError>(0),
            Outcome::Finished { result: Err(error) } => status == Err::<i32, RunError>(error),
            Outcome::Aborted => status == Ok::<i32, RunError>(0),
        },
{
    match outcome {
        Outcome::Finished { result: Ok(_) } => Ok(0),
        Outcome::Finished { result: Err(error) } => Err(error),
        Outcome::Aborted => Ok(0),
    }
}

/// What the pipeline makes of a resolved application before any trigger
/// starts: the application with its variables bound, and the trigger kinds
/// to run. An application that is not well-formed is refused as a malformed
/// manifest; then binding must succeed; then the triggers must be selected.
pub open spec fn preparation_of(app: AppModel, env: Seq<(Seq<char>, Seq<char>)>) -> Result<
    (AppModel, Seq<TriggerKind>),
    RunErrorModel,
> {
    if !app.well_formed() {
        Err(RunErrorModel::Resolution { error: ResolveErrorModel::MalformedManifest })
    } else {
        match binding_result_of(app, env) {
            Err(error) => Err(RunErrorModel::Binding { error }),
            Ok(bound) => match selection_of(bound.trigger_labels()) {
                Err(error) => Err(RunErrorModel::Trigger { error }),
                Ok(kinds) => Ok((bound, kinds)),
            },
        }
    }
}

/// A prepared application is well-formed and resolved, and its trigger kinds
/// are a set with at least one member.
pub proof fn lemma_preparation_is_sound(app: AppModel, env: Seq<(Seq<char>, Seq<char>)>)
    requires
        preparation_of(app, env) is Ok,
    ensures
        ({
            let (bound, kinds) = preparation_of(app, env)->Ok_0;
            &&& bound.well_formed()
            &&& bound.resolved()
            &&& kinds.len() > 0
            &&& kinds.no_duplicates()
            &&& selection_of(bound.trigger_labels()) == Ok::<Seq<TriggerKind>, TriggerErrorModel>(
                kinds,
            )
        }),
{
    let bound = binding_result_of(app, env)->Ok_0;
    crate::variables::lemma_bound_app_is_resolved(app, env);
    crate::trigger::lemma_selection_is_a_nonempty_set(bound.trigger_labels());
}

/// Prepares a resolved application for its triggers: checks it, binds its
/// variables from `env`, and selects its triggers.
pub fn prepare(app: LockedApp, env: &Vec<(String, String)>) -> (prepared: Result<
    (LockedApp, Vec<TriggerKind>),
    RunError,
>)
    ensures
        match prepared {
            Ok((bound, kinds)) => preparation_of(app@, env_model(env@)) == Ok::<
                (AppModel, Seq<TriggerKind>),
                RunErrorModel,
            >((bound@, kinds@)),
            Err(error) => preparation_of(app@, env_model(env@)) == Err::<
                (AppModel, Seq<TriggerKind>),
                RunErrorModel,
            >(error@),
        },
{
    if !app.is_well_formed() {
        return Err(RunError::Resolution { error: ResolveError::MalformedManifest });
    }
    let bound = match bind_variables(app, env) {
        Ok(bound) => bound,
        Err(error) => {
            return Err(RunError::Binding { error });
        },
    };
    match select_triggers(&bound) {
        Ok(kinds) => Ok((bound, kinds)),
        Err(error) => Err(RunError::Trigger { error }),
    }
}

/// Where the pipeline stands.
#[derive(Clone, Copy, Debug, PartialEq, Eq, Structural)]
pub enum PipelinePhase {
    /// Nothing has happened yet.
    Idle,
    /// The cache is being set up.
    Cache,
    /// The application is being read out of the image.
    Resolving,
    /// Telemetry is being set up; the application is prepared.
    Telemetry,
    /// The triggers are running under the supervisor.
    Supervising,
    /// The pipeline has ended.
    Finished,
}

/// What happened, as the caller reports it to the pipeline.
#[derive(Debug, PartialEq, Eq)]
pub enum PipelineEvent {
    /// The pipeline is asked to begin.
    Begin,
    /// The cache is set up.
    CacheReady,
    /// The application was read out of the image.
    Resolved { app: LockedApp },
    /// Telemetry is set up.
    TelemetryReady,
    /// The supervisor ended.
    Supervised { result: Result<(), SupervisorError> },
    /// The step that was due failed.
    StepFailed { error: RunError },
}

/// An event, as plain values.
pub enum PipelineEventModel {
    Begin,
    CacheReady,
    Resolved { app: AppModel },
    TelemetryReady,
    Supervised { result: Result<(), ErrorModel> },
    StepFailed { error: RunErrorModel },
}

impl View for PipelineEvent {
    type V = PipelineEventModel;

    open spec fn view(&self) -> PipelineEventModel {
        match *self {
            PipelineEvent::Begin => PipelineEventModel::Begin,
            PipelineEvent::CacheReady => PipelineEventModel::CacheReady,
            PipelineEvent::Resolved { app } => PipelineEventModel::Resolved { app: app@ },
            PipelineEvent::TelemetryReady => PipelineEventModel::TelemetryReady,
            PipelineEvent::Supervised { result } => PipelineEventModel::Supervised {
                result: match result {
                    Ok(_) => Ok(()),
                    Err(e) => Err(e@),
                },
            },
            PipelineEvent::StepFailed { error } => PipelineEventModel::StepFailed { error: error@ },
        }
    }
}

/// What the caller is to do next.
#[derive(Debug, PartialEq, Eq)]
pub enum PipelineAction {
    /// Set up the cache, then report `CacheReady` or `StepFailed`.
    InitializeCache,
    /// Read the application out of the image, then report `Resolved` or
    /// `StepFailed`.
    ResolveSource,
    /// Set up telemetry, then report `TelemetryReady` or `StepFailed`.
    InitializeTelemetry,
    /// Run the triggers of `kinds` for `app` under a supervisor, then report
    /// `Supervised`.
    Supervise { app: LockedApp, kinds: Vec<TriggerKind> },
    /// Return `result`.
    Finish { result: Result<(), RunError> },
}

/// An action, as plain values.
pub enum PipelineActionModel {
    InitializeCache,
    ResolveSource,
    InitializeTelemetry,
    Supervise { app: AppModel, kinds: Seq<TriggerKind> },
    Finish { result: Result<(), RunErrorModel> },
}

impl View for PipelineAction {
    type V = PipelineActionModel;

    open spec fn view(&self) -> PipelineActionModel {
        match *self {
            PipelineAction::InitializeCache => PipelineActionModel::InitializeCache,
            PipelineAction::ResolveSource => PipelineActionModel::ResolveSource,
            PipelineAction::InitializeTelemetry => PipelineActionModel::InitializeTelemetry,
            PipelineAction::Supervise { app, kinds } => PipelineActionModel::Supervise {
                app: app@,
                kinds: kinds@,
            },
            PipelineAction::Finish { result } => PipelineActionModel::Finish {
                result: result_model(result),
            },
        }
    }
}

/// The state of a pipeline, as plain values.
pub struct PipelineModel {
    /// The host environment, as pairs of name and value.
    pub env: Seq<(Seq<char>, Seq<char>)>,
    /// Where the pipeline stands.
    pub phase: PipelinePhase,
    /// The prepared application and its trigger kinds, while telemetry is
    /// being set up.
    pub prepared: Option<(AppModel, Seq<TriggerKind>)>,
}

impl PipelineModel {
    /// The state before anything has happened.
    pub open spec fn initial(env: Seq<(Seq<char>, Seq<char>)>) -> PipelineModel {
        PipelineModel { env, phase: PipelinePhase::Idle, prepared: None }
    }

    /// The pipeline holds a prepared application exactly while telemetry is
    /// being set up, and what it holds is well-formed, resolved, and has at
    /// least one trigger kind.
    pub open spec fn well_formed(self) -> bool {
        &&& self.phase == PipelinePhase::Telemetry <==> self.prepared is Some
        &&& self.prepared matches Some((app, kinds)) ==> {
            &&& app.well_formed()
            &&& app.resolved()
            &&& kinds.len() > 0
            &&& selection_of(app.trigger_labels()) == Ok::<Seq<TriggerKind>, TriggerErrorModel>(
                kinds,
            )
        }
    }

    /// The state after the pipeline has ended.
    pub open spec fn finished(self) -> PipelineModel {
        PipelineModel { phase: PipelinePhase::Finished, prepared: None, ..self }
    }

    /// The state in the given phase, holding no application.
    pub open spec fn at(self, phase: PipelinePhase) -> PipelineModel {
        PipelineModel { phase, prepared: None, ..self }
    }

    /// The pipeline's answer to an event: the next state and what the caller
    /// is to do.
    ///
    /// The steps follow one another strictly: cache, resolution, preparation,
    /// telemetry, supervision. A step that fails ends the pipeline with its
    /// error, and so does an application that cannot be prepared; nothing is
    /// supervised then. The supervisor's result is the pipeline's. An event
    /// that is not due ends the pipeline with a setup error.
    pub open spec fn next(self, event: PipelineEventModel) -> (PipelineModel, PipelineActionModel) {
        let unexpected = (
            self.finished(),
            PipelineActionModel::Finish {
                result: Err(RunErrorModel::Setup { reason: UNEXPECTED_EVENT@ }),
            },
        );
        match (self.phase, event) {
            (PipelinePhase::Idle, PipelineEventModel::Begin) => (
                self.at(PipelinePhase::Cache),
                PipelineActionModel::InitializeCache,
            ),
            (PipelinePhase::Cache, PipelineEventModel::CacheReady) => (
                self.at(PipelinePhase::Resolving),
                PipelineActionModel::ResolveSource,
            ),
            (PipelinePhase::Resolving, PipelineEventModel::Resolved { app }) => match preparation_of(
                app,
                self.env,
            ) {
                Ok(prepared) => (
                    PipelineModel {
                        phase: PipelinePhase::Telemetry,
                        prepared: Some(prepared),
                        ..self
                    },
                    PipelineActionModel::InitializeTelemetry,
                ),
                Err(error) => (self.finished(), PipelineActionModel::Finish { result: Err(error) }),
            },
            (PipelinePhase::Telemetry, PipelineEventModel::TelemetryReady) => match self.prepared {
                Some((app, kinds)) => (
                    self.at(PipelinePhase::Supervising),
                    PipelineActionModel::Supervise { app, kinds },
                ),
                None => unexpected,
            },
            (PipelinePhase::Supervising, PipelineEventModel::Supervised { result }) => (
                self.finished(),
                PipelineActionModel::Finish {
                    result: match result {
                        Ok(_) => Ok(()),
                        Err(error) => Err(RunErrorModel::Supervisor { error }),
                    },
                },
            ),
            (PipelinePhase::Cache, PipelineEventModel::StepFailed { error }) => (
                self.finished(),
                PipelineActionModel::Finish { result: Err(error) },
            ),
            (PipelinePhase::Resolving, PipelineEventModel::StepFailed { error }) => (
                self.finished(),
                PipelineActionModel::Finish { result: Err(error) },
            ),
            (PipelinePhase::Telemetry, PipelineEventModel::StepFailed { error }) => (
                self.finished(),
                PipelineActionModel::Finish { result: Err(error) },
            ),
            _ => unexpected,
        }
    }
}

/// The reason given where an event arrives that the pipeline was not waiting
/// for.
pub const UNEXPECTED_EVENT: &'static str = "unexpected event";

/// Whatever the event, a well-formed pipeline stays well-formed.
pub proof fn lemma_pipeline_stays_well_formed(state: PipelineModel, event: PipelineEventModel)
    requires
        state.well_formed(),
    ensures
        state.next(event).0.well_formed(),
        state.next(event).0.env == state.env,
{
    if state.phase == PipelinePhase::Resolving {
        if let PipelineEventModel::Resolved { app } = event {
            if preparation_of(app, state.env) is Ok {
                lemma_preparation_is_sound(app, state.env);
            }
        }
    }
}

/// Triggers are supervised only after telemetry is set up, and then for an
/// application that is well-formed and whose variables are all bound, with
/// exactly the trigger kinds that it declares, of which there is at least
/// one.
pub proof fn lemma_supervises_only_prepared(state: PipelineModel, event: PipelineEventModel)
    requires
        state.well_formed(),
        state.next(event).1 is Supervise,
    ensures
        state.phase == PipelinePhase::Telemetry,
        event is TelemetryReady,
        state.next(event).0.phase == PipelinePhase::Supervising,
        ({
            let app = state.next(event).1->app;
            let kinds = state.next(event).1->kinds;
            &&& app.well_formed()
            &&& app.resolved()
            &&& kinds.len() > 0
            &&& selection_of(app.trigger_labels()) == Ok::<Seq<TriggerKind>, TriggerErrorModel>(
                kinds,
            )
        }),
{
}

/// An application with a trigger of an unsupported kind is never
/// supervised: resolution ends the pipeline with an error, and where the
/// application is well-formed and its variables can be bound, the error
/// carries the label of the first unsupported trigger.
pub proof fn lemma_unsupported_kind_is_refused(state: PipelineModel, app: AppModel)
    requires
        state.phase == PipelinePhase::Resolving,
        !crate::trigger::all_supported(app.trigger_labels()),
    ensures
        state.next(PipelineEventModel::Resolved { app }).0.phase == PipelinePhase::Finished,
        state.next(PipelineEventModel::Resolved { app }).1 matches PipelineActionModel::Finish {
            result: Err(_),
        },
        app.well_formed() && crate::variables::all_bindable(app, state.env) ==> state.next(
            PipelineEventModel::Resolved { app },
        ).1 == (PipelineActionModel::Finish {
            result: Err(
                RunErrorModel::Trigger {
                    error: TriggerErrorModel::Unsupported {
                        kind: app.trigger_labels()[crate::trigger::first_unsupported(
                            app.trigger_labels(),
                        )],
                    },
                },
            ),
        }),
{
    if app.well_formed() && crate::variables::all_bindable(app, state.env) {
        crate::variables::lemma_bound_app_is_resolved(app, state.env);
    }
}

/// The steps of a run follow one another strictly. Where nothing fails, the
/// pipeline asks in turn for the cache, the application, telemetry and the
/// supervision of the prepared application, and ends with the supervisor's
/// result.
pub proof fn lemma_steps_in_order(
    env: Seq<(Seq<char>, Seq<char>)>,
    app: AppModel,
    result: Result<(), ErrorModel>,
)
    requires
        preparation_of(app, env) is Ok,
    ensures
        ({
            let begun = PipelineModel::initial(env).next(PipelineEventModel::Begin);
            let cached = begun.0.next(PipelineEventModel::CacheReady);
            let resolved = cached.0.next(PipelineEventModel::Resolved { app });
            let ready = resolved.0.next(PipelineEventModel::TelemetryReady);
            let ended = ready.0.next(PipelineEventModel::Supervised { result });
            &&& begun.1 == PipelineActionModel::InitializeCache
            &&& cached.1 == PipelineActionModel::ResolveSource
            &&& resolved.1 == PipelineActionModel::InitializeTelemetry
            &&& ready.1 == (PipelineActionModel::Supervise {
                app: preparation_of(app, env)->Ok_0.0,
                kinds: preparation_of(app, env)->Ok_0.1,
            })
            &&& ended.1 == (PipelineActionModel::Finish {
                result: match result {
                    Ok(_) => Ok(()),
                    Err(error) => Err(RunErrorModel::Supervisor { error }),
                },
            })
            &&& ended.0.phase == PipelinePhase::Finished
        }),
{
}

/// The pipeline of one run.
pub struct Pipeline {
    env: Vec<(String, String)>,
    phase: PipelinePhase,
    prepared: Option<(LockedApp, Vec<TriggerKind>)>,
}

impl View for Pipeline {
    type V = PipelineModel;

    closed spec fn view(&self) -> PipelineModel {
        PipelineModel {
            env: env_model(self.env@),
            phase: self.phase,
            prepared: match self.prepared {
                Some((app, kinds)) => Some((app@, kinds@)),
                None => None,
            },
        }
    }
}

impl Pipeline {
    #[verifier::type_invariant]
    spec fn holds(self) -> bool {
        self@.well_formed()
    }

    /// A pipeline that binds variables from the environment `env`.
    pub fn new(env: Vec<(String, String)>) -> (pipeline: Pipeline)
        ensures
            pipeline@ == PipelineModel::initial(env_model(env@)),
            pipeline@.well_formed(),
    {
        Pipeline { env, phase: PipelinePhase::Idle, prepared: None }
    }

    /// Where the pipeline stands.
    pub fn phase(&self) -> (phase: PipelinePhase)
        ensures
            phase == self@.phase,
    {
        self.phase
    }

    /// Ends the pipeline with a result.
    fn finish(self, result: Result<(), RunError>) -> (answer: (Pipeline, PipelineAction))
        ensures
            answer.0@ == self@.finished(),
            answer.1@ == (PipelineActionModel::Finish { result: result_model(result) }),
    {
        let Pipeline { env, phase, prepared } = self;
        (
            Pipeline { env, phase: PipelinePhase::Finished, prepared: None },
            PipelineAction::Finish { result },
        )
    }

    /// Ends the pipeline because an event arrived that was not due.
    fn refuse(self) -> (answer: (Pipeline, PipelineAction))
        ensures
            answer.0@ == self@.finished(),
            answer.1@ == (PipelineActionModel::Finish {
                result: Err(RunErrorModel::Setup { reason: UNEXPECTED_EVENT@ }),
            }),
    {
        self.finish(Err(RunError::Setup { reason: UNEXPECTED_EVENT.to_owned() }))
    }

    /// Moves the pipeline to a phase in which it holds no application.
    fn advance(self, to: PipelinePhase, action: PipelineAction) -> (answer: (Pipeline, PipelineAction))
        requires
            to != PipelinePhase::Telemetry,
        ensures
            answer.0@ == self@.at(to),
            answer.1 == action,
    {
        let Pipeline { env, phase, prepared } = self;
        (Pipeline { env, phase: to, prepared: None }, action)
    }

    /// Takes an event and answers with what is to be done next.
    pub fn step(self, event: PipelineEvent) -> (answer: (Pipeline, PipelineAction))
        ensures
            self@.well_formed(),
            answer.0@.well_formed(),
            (answer.0@, answer.1@) == self@.next(event@),
    {
        proof {
            use_type_invariant(&self);
        }
        match self.phase {
            PipelinePhase::Idle => match event {
                PipelineEvent::Begin => self.advance(
                    PipelinePhase::Cache,
                    PipelineAction::InitializeCache,
                ),
                _ => self.refuse(),
            },
            PipelinePhase::Cache => match event {
                PipelineEvent::CacheReady => self.advance(
                    PipelinePhase::Resolving,
                    PipelineAction::ResolveSource,
                ),
                PipelineEvent::StepFailed { error } => self.finish(Err(error)),
                _ => self.refuse(),
            },
            PipelinePhase::Resolving => match event {
                PipelineEvent::Resolved { app } => {
                    proof {
                        if preparation_of(app@, self@.env) is Ok {
                            lemma_preparation_is_sound(app@, self@.env);
                        }
                    }
                    match prepare(app, &self.env) {
                        Ok(prepared) => {
                            let Pipeline { env, phase, prepared: nothing } = self;
                            (
                                Pipeline {
                                    env,
                                    phase: PipelinePhase::Telemetry,
                                    prepared: Some(prepared),
                                },
                                PipelineAction::InitializeTelemetry,
                            )
                        },
                        Err(error) => self.finish(Err(error)),
                    }
                },
                PipelineEvent::StepFailed { error } => self.finish(Err(error)),
                _ => self.refuse(),
            },
            PipelinePhase::Telemetry => match event {
                PipelineEvent::TelemetryReady => {
                    let Pipeline { env, phase, prepared } = self;
                    match prepared {
                        Some((app, kinds)) => (
                            Pipeline { env, phase: PipelinePhase::Supervising, prepared: None },
                            PipelineAction::Supervise { app, kinds },
                        ),
                        None => (
                            Pipeline { env, phase: PipelinePhase::Finished, prepared: None },
                            PipelineAction::Finish {
                                result: Err(
                                    RunError::Setup { reason: UNEXPECTED_EVENT.to_owned() },
                                ),
                            },
                        ),
                    }
                },
                PipelineEvent::StepFailed { error } => self.finish(Err(error)),
                _ => self.refuse(),
            },
            PipelinePhase::Supervising => match event {
                PipelineEvent::Supervised { result } => self.finish(
                    match result {
                        Ok(_) => Ok(()),
                        Err(error) => Err(RunError::Supervisor { error }),
                    },
                ),
                _ => self.refuse(),
            },
            PipelinePhase::Finished => self.refuse(),
        }
    }
}

} // verus!
