//! The trigger supervisor: one executor per declared trigger kind, all run
//! concurrently, the first to finish decides the result.
//!
//! The supervisor is a state machine. Building an executor, obtaining its run
//! task and waiting for the first task to complete are the caller's work; the
//! machine says which of them is due next and what to hand to it.

use crate::address::{
    listen_address_of, listen_text_of, parse_listen_address, ListenAddress, SPIN_ADDR_DEFAULT,
};
use crate::text::{clone_texts, text_of, texts_of};
use crate::trigger::{unique_kinds, without_repeats, TriggerKind};
use vstd::prelude::*;

verus! {

/// The startup arguments of an executor.
#[derive(Clone, Debug, PartialEq, Eq)]
pub enum TriggerArgs {
    /// HTTP: the address to listen on, and TLS material.
    Http { address: ListenAddress, tls_cert: Option<String>, tls_key: Option<String> },
    /// Redis and SQS take no arguments.
    NoArgs,
    /// Command: the argument vector of the guest.
    Command { guest_args: Vec<String> },
    /// MQTT: whether the executor runs in test mode.
    Mqtt { test: bool },
}

/// The startup arguments of an executor, as plain values.
pub enum ArgsModel {
    Http { host: Seq<char>, port: u16, tls_cert: Option<Seq<char>>, tls_key: Option<Seq<char>> },
    NoArgs,
    Command { guest_args: Seq<Seq<char>> },
    Mqtt { test: bool },
}

impl View for TriggerArgs {
    type V = ArgsModel;

    open spec fn view(&self) -> ArgsModel {
        match *self {
            TriggerArgs::Http { address, tls_cert, tls_key } => ArgsModel::Http {
                host: address.host@,
                port: address.port,
                tls_cert: text_of(tls_cert),
                tls_key: text_of(tls_key),
            },
            TriggerArgs::NoArgs => ArgsModel::NoArgs,
            TriggerArgs::Command { guest_args } => ArgsModel::Command {
                guest_args: texts_of(guest_args@),
            },
            TriggerArgs::Mqtt { test } => ArgsModel::Mqtt { test },
        }
    }
}

/// Why the supervisor ended without a trigger's own success.
#[derive(Clone, Debug, PartialEq, Eq)]
pub enum SupervisorError {
    /// There is no trigger kind to run.
    NoTriggers,
    /// The executor of `kind` could not be built.
    Build { kind: TriggerKind, reason: String },
    /// The HTTP listen address is not of the form `host:port`.
    InvalidListenAddress { address: String },
    /// The run task of the executor of `kind` could not be had.
    Start { kind: TriggerKind, reason: String },
    /// The executor of `kind` was the first to finish, and it failed.
    Trigger { kind: TriggerKind, reason: String },
    /// An event arrived that the supervisor was not waiting for.
    UnexpectedEvent,
}

/// A supervisor error, as plain values.
pub enum ErrorModel {
    NoTriggers,
    Build { kind: TriggerKind, reason: Seq<char> },
    InvalidListenAddress { address: Seq<char> },
    Start { kind: TriggerKind, reason: Seq<char> },
    Trigger { kind: TriggerKind, reason: Seq<char> },
    UnexpectedEvent,
}

impl View for SupervisorError {
    type V = ErrorModel;

    open spec fn view(&self) -> ErrorModel {
        match *self {
            SupervisorError::NoTriggers => ErrorModel::NoTriggers,
            SupervisorError::Build { kind, reason } => ErrorModel::Build { kind, reason: reason@ },
            SupervisorError::InvalidListenAddress { address } => ErrorModel::InvalidListenAddress {
                address: address@,
            },
            SupervisorError::Start { kind, reason } => ErrorModel::Start { kind, reason: reason@ },
            SupervisorError::Trigger { kind, reason } => ErrorModel::Trigger {
                kind,
                reason: reason@,
            },
            SupervisorError::UnexpectedEvent => ErrorModel::UnexpectedEvent,
        }
    }
}

/// The startup arguments of an executor of `kind`.
///
/// HTTP listens on the configured address, or on the default where none is
/// configured, and has no TLS material; an address that is not of the form
/// `host:port` is an error that carries the text. Redis and SQS take no
/// arguments. Command is handed the container's arguments. MQTT does not run
/// in test mode.
pub open spec fn startup_args_of(
    kind: TriggerKind,
    listen: Option<Seq<char>>,
    container_args: Seq<Seq<char>>,
) -> Result<ArgsModel, ErrorModel> {
    match kind {
        TriggerKind::Http => match listen_address_of(listen_text_of(listen)) {
            Some((host, port)) => Ok(ArgsModel::Http { host, port, tls_cert: None, tls_key: None }),
            None => Err(ErrorModel::InvalidListenAddress { address: listen_text_of(listen) }),
        },
        TriggerKind::Redis => Ok(ArgsModel::NoArgs),
        TriggerKind::Sqs => Ok(ArgsModel::NoArgs),
        TriggerKind::Command => Ok(ArgsModel::Command { guest_args: container_args }),
        TriggerKind::Mqtt => Ok(ArgsModel::Mqtt { test: false }),
    }
}

/// Computes the startup arguments of an executor of `kind` from the
/// configured listen address and the container's arguments.
pub fn startup_args(kind: TriggerKind, listen: &Option<String>, container_args: &Vec<String>) -> (args:
    Result<TriggerArgs, SupervisorError>)
    ensures
        match args {
            Ok(a) => startup_args_of(kind, text_of(*listen), texts_of(container_args@)) == Ok::<
                ArgsModel,
                ErrorModel,
            >(a@),
            Err(e) => startup_args_of(kind, text_of(*listen), texts_of(container_args@)) == Err::<
                ArgsModel,
                ErrorModel,
            >(e@),
        },
{
    match kind {
        TriggerKind::Http => {
            let text: &str = match listen {
                Some(configured) => configured.as_str(),
                None => SPIN_ADDR_DEFAULT,
            };
            assert(text@ == listen_text_of(text_of(*listen)));
            match parse_listen_address(text) {
                Some(address) => Ok(TriggerArgs::Http { address, tls_cert: None, tls_key: None }),
                None => Err(SupervisorError::InvalidListenAddress { address: text.to_owned() }),
            }
        },
        TriggerKind::Redis => Ok(TriggerArgs::NoArgs),
        TriggerKind::Sqs => Ok(TriggerArgs::NoArgs),
        TriggerKind::Command => Ok(TriggerArgs::Command { guest_args: clone_texts(container_args) }),
        TriggerKind::Mqtt => Ok(TriggerArgs::Mqtt { test: false }),
    }
}

/// Where the supervisor stands.
#[derive(Clone, Copy, Debug, PartialEq, Eq, Structural)]
pub enum Phase {
    /// Nothing has happened yet.
    Idle,
    /// An executor is being built.
    Building,
    /// The run task of the executor just built is being obtained.
    Starting,
    /// Every run task is under way; the first to complete is awaited.
    Waiting,
    /// The supervisor has ended.
    Finished,
}

/// What happened, as the caller reports it to the supervisor.
#[derive(Debug, PartialEq, Eq)]
pub enum SupervisorEvent {
    /// The supervisor is asked to begin.
    Begin,
    /// The executor asked for was built.
    Built,
    /// The executor asked for could not be built.
    BuildFailed { reason: String },
    /// The run task asked for is in the task set.
    Started,
    /// The run task asked for could not be had.
    StartFailed { reason: String },
    /// The task at `index` of the task set was the first to complete.
    Completed { index: usize, outcome: Result<(), String> },
}

/// An event, as plain values.
pub enum EventModel {
    Begin,
    Built,
    BuildFailed { reason: Seq<char> },
    Started,
    StartFailed { reason: Seq<char> },
    Completed { index: usize, outcome: Result<(), Seq<char>> },
}

impl View for SupervisorEvent {
    type V = EventModel;

    open spec fn view(&self) -> EventModel {
        match *self {
            SupervisorEvent::Begin => EventModel::Begin,
            SupervisorEvent::Built => EventModel::Built,
            SupervisorEvent::BuildFailed { reason } => EventModel::BuildFailed { reason: reason@ },
            SupervisorEvent::Started => EventModel::Started,
            SupervisorEvent::StartFailed { reason } => EventModel::StartFailed { reason: reason@ },
            SupervisorEvent::Completed { index, outcome } => EventModel::Completed {
                index,
                outcome: match outcome {
                    Ok(_) => Ok(()),
                    Err(reason) => Err(reason@),
                },
            },
        }
    }
}

/// What the caller is to do next.
#[derive(Debug, PartialEq, Eq)]
pub enum SupervisorAction {
    /// Build the executor of `kind`, then report `Built` or `BuildFailed`.
    Build { kind: TriggerKind },
    /// Obtain the run task of the executor just built, with `args`, add it to
    /// the end of the task set, then report `Started` or `StartFailed`.
    Start { kind: TriggerKind, args: TriggerArgs },
    /// Wait until the first of the `tasks` tasks completes, then report
    /// `Completed`.
    AwaitFirst { tasks: usize },
    /// Drop what is left of the task set and return `result`. `winner` is the
    /// kind of the task that completed first, if one did.
    Finish { winner: Option<TriggerKind>, result: Result<(), SupervisorError> },
}

/// An action, as plain values.
pub enum ActionModel {
    Build { kind: TriggerKind },
    Start { kind: TriggerKind, args: ArgsModel },
    AwaitFirst { tasks: usize },
    Finish { winner: Option<TriggerKind>, result: Result<(), ErrorModel> },
}

impl View for SupervisorAction {
    type V = ActionModel;

    open spec fn view(&self) -> ActionModel {
        match *self {
            SupervisorAction::Build { kind } => ActionModel::Build { kind },
            SupervisorAction::Start { kind, args } => ActionModel::Start { kind, args: args@ },
            SupervisorAction::AwaitFirst { tasks } => ActionModel::AwaitFirst { tasks },
            SupervisorAction::Finish { winner, result } => ActionModel::Finish {
                winner,
                result: match result {
                    Ok(_) => Ok(()),
                    Err(e) => Err(e@),
                },
            },
        }
    }
}

/// The state of a supervisor, as plain values.
pub struct SupervisorModel {
    /// The trigger kinds to run, in launch order.
    pub kinds: Seq<TriggerKind>,
    /// The configured HTTP listen address, if any.
    pub listen: Option<Seq<char>>,
    /// The container's arguments.
    pub container_args: Seq<Seq<char>>,
    /// The kinds whose run tasks are in the task set, in the order of the set.
    pub running: Seq<TriggerKind>,
    /// Where the supervisor stands.
    pub phase: Phase,
}

impl SupervisorModel {
    /// The state before anything has happened.
    pub open spec fn initial(
        kinds: Seq<TriggerKind>,
        listen: Option<Seq<char>>,
        container_args: Seq<Seq<char>>,
    ) -> SupervisorModel {
        SupervisorModel {
            kinds,
            listen,
            container_args,
            running: Seq::empty(),
            phase: Phase::Idle,
        }
    }

    /// No kind is to be run twice, and the task set holds the first kinds,
    /// in order: some of them while executors are still being launched, all
    /// of them once the supervisor waits.
    pub open spec fn well_formed(self) -> bool {
        &&& self.kinds.no_duplicates()
        &&& self.kinds.len() <= usize::MAX
        &&& self.running.len() <= self.kinds.len()
        &&& self.running == self.kinds.take(self.running.len() as int)
        &&& self.phase == Phase::Idle ==> self.running.len() == 0
        &&& (self.phase == Phase::Building || self.phase == Phase::Starting)
            ==> self.running.len() < self.kinds.len()
        &&& self.phase == Phase::Waiting ==> self.running.len() == self.kinds.len()
            && self.kinds.len() > 0
    }

    /// The kind whose executor is being launched.
    pub open spec fn current(self) -> TriggerKind {
        self.kinds[self.running.len() as int]
    }

    /// The state after the supervisor has ended.
    pub open spec fn finished(self) -> SupervisorModel {
        SupervisorModel { phase: Phase::Finished, ..self }
    }

    /// The supervisor's answer to an event: the next state and what the
    /// caller is to do.
    ///
    /// Executors are built and started one kind at a time, in order. A build
    /// or a start that fails, or startup arguments that cannot be had, end
    /// the supervisor with that error. Once every run task is in the task set
    /// the supervisor waits; the first task to complete ends it with that
    /// task's outcome. An event that is not due ends it with
    /// `UnexpectedEvent`.
    pub open spec fn next(self, event: EventModel) -> (SupervisorModel, ActionModel) {
        let unexpected = (
            self.finished(),
            ActionModel::Finish { winner: None, result: Err(ErrorModel::UnexpectedEvent) },
        );
        match self.phase {
            Phase::Idle => match event {
                EventModel::Begin => if self.kinds.len() == 0 {
                    (
                        self.finished(),
                        ActionModel::Finish { winner: None, result: Err(ErrorModel::NoTriggers) },
                    )
                } else {
                    (
                        SupervisorModel { phase: Phase::Building, ..self },
                        ActionModel::Build { kind: self.current() },
                    )
                },
                _ => unexpected,
            },
            Phase::Building => match event {
                EventModel::Built => match startup_args_of(
                    self.current(),
                    self.listen,
                    self.container_args,
                ) {
                    Ok(args) => (
                        SupervisorModel { phase: Phase::Starting, ..self },
                        ActionModel::Start { kind: self.current(), args },
                    ),
                    Err(e) => (
                        self.finished(),
                        ActionModel::Finish { winner: None, result: Err(e) },
                    ),
                },
                EventModel::BuildFailed { reason } => (
                    self.finished(),
                    ActionModel::Finish {
                        winner: None,
                        result: Err(ErrorModel::Build { kind: self.current(), reason }),
                    },
                ),
                _ => unexpected,
            },
            Phase::Starting => match event {
                EventModel::Started => {
                    let running = self.running.push(self.current());
                    if running.len() < self.kinds.len() {
                        (
                            SupervisorModel { running, phase: Phase::Building, ..self },
                            ActionModel::Build { kind: self.kinds[running.len() as int] },
                        )
                    } else {
                        (
                            SupervisorModel { running, phase: Phase::Waiting, ..self },
                            ActionModel::AwaitFirst { tasks: running.len() as usize },
                        )
                    }
                },
                EventModel::StartFailed { reason } => (
                    self.finished(),
                    ActionModel::Finish {
                        winner: None,
                        result: Err(ErrorModel::Start { kind: self.current(), reason }),
                    },
                ),
                _ => unexpected,
            },
            Phase::Waiting => match event {
                EventModel::Completed { index, outcome } => if index < self.running.len() {
                    (
                        self.finished(),
                        ActionModel::Finish {
                            winner: Some(self.running[index as int]),
                            result: match outcome {
                                Ok(_) => Ok(()),
                                Err(reason) => Err(
                                    ErrorModel::Trigger { kind: self.running[index as int], reason },
                                ),
                            },
                        },
                    )
                } else {
                    unexpected
                },
                _ => unexpected,
            },
            Phase::Finished => unexpected,
        }
    }
}

/// The supervisor of one application's triggers.
pub struct Supervisor {
    kinds: Vec<TriggerKind>,
    listen: Option<String>,
    container_args: Vec<String>,
    running: Vec<TriggerKind>,
    phase: Phase,
}

impl View for Supervisor {
    type V = SupervisorModel;

    closed spec fn view(&self) -> SupervisorModel {
        SupervisorModel {
            kinds: self.kinds@,
            listen: text_of(self.listen),
            container_args: texts_of(self.container_args@),
            running: self.running@,
            phase: self.phase,
        }
    }
}

impl Supervisor {
    #[verifier::type_invariant]
    spec fn holds(self) -> bool {
        self@.well_formed()
    }

    /// A supervisor for the trigger kinds `kinds`, which it launches in the
    /// order given, each kind once however often the list names it. `listen`
    /// is the configured HTTP listen address, if any; `container_args` are
    /// the container's arguments.
    pub fn new(kinds: Vec<TriggerKind>, listen: Option<String>, container_args: Vec<String>) -> (supervisor:
        Supervisor)
        ensures
            supervisor@ == SupervisorModel::initial(
                without_repeats(kinds@),
                text_of(listen),
                texts_of(container_args@),
            ),
            supervisor@.well_formed(),
    {
        let kinds = unique_kinds(&kinds);
        let running: Vec<TriggerKind> = Vec::new();
        assert(running@ == kinds@.take(0));
        let count = kinds.len();
        assert(kinds@.len() == count);
        Supervisor { kinds, listen, container_args, running, phase: Phase::Idle }
    }

    /// Where the supervisor stands.
    pub fn phase(&self) -> (phase: Phase)
        ensures
            phase == self@.phase,
    {
        self.phase
    }

    /// The number of run tasks in the task set.
    pub fn launched(&self) -> (count: usize)
        ensures
            count == self@.running.len(),
            self@.well_formed(),
    {
        proof {
            use_type_invariant(self);
        }
        self.running.len()
    }

    /// Ends the supervisor with an error.
    fn fail(self, error: SupervisorError) -> (answer: (Supervisor, SupervisorAction))
        ensures
            answer.0@ == self@.finished(),
            answer.1@ == (ActionModel::Finish { winner: None, result: Err(error@) }),
    {
        proof {
            use_type_invariant(&self);
        }
        let Supervisor { kinds, listen, container_args, running, phase } = self;
        (
            Supervisor { kinds, listen, container_args, running, phase: Phase::Finished },
            SupervisorAction::Finish { winner: None, result: Err(error) },
        )
    }

    /// Takes an event and answers with what is to be done next.
    pub fn step(self, event: SupervisorEvent) -> (answer: (Supervisor, SupervisorAction))
        ensures
            self@.well_formed(),
            answer.0@.well_formed(),
            (answer.0@, answer.1@) == self@.next(event@),
    {
        proof {
            use_type_invariant(&self);
        }
        match self.phase {
            Phase::Idle => match event {
                SupervisorEvent::Begin => {
                    if self.kinds.len() == 0 {
                        self.fail(SupervisorError::NoTriggers)
                    } else {
                        let kind = self.kinds[0];
                        let Supervisor { kinds, listen, container_args, running, phase } = self;
                        (
                            Supervisor {
                                kinds,
                                listen,
                                container_args,
                                running,
                                phase: Phase::Building,
                            },
                            SupervisorAction::Build { kind },
                        )
                    }
                },
                _ => self.fail(SupervisorError::UnexpectedEvent),
            },
            Phase::Building => match event {
                SupervisorEvent::Built => {
                    let kind = self.kinds[self.running.len()];
                    match startup_args(kind, &self.listen, &self.container_args) {
                        Ok(args) => {
                            let Supervisor { kinds, listen, container_args, running, phase } = self;
                            (
                                Supervisor {
                                    kinds,
                                    listen,
                                    container_args,
                                    running,
                                    phase: Phase::Starting,
                                },
                                SupervisorAction::Start { kind, args },
                            )
                        },
                        Err(e) => self.fail(e),
                    }
                },
                SupervisorEvent::BuildFailed { reason } => {
                    let kind = self.kinds[self.running.len()];
                    self.fail(SupervisorError::Build { kind, reason })
                },
                _ => self.fail(SupervisorError::UnexpectedEvent),
            },
            Phase::Starting => match event {
                SupervisorEvent::Started => {
                    let Supervisor { kinds, listen, container_args, running, phase } = self;
                    let mut running = running;
                    running.push(kinds[running.len()]);
                    assert(running@ == kinds@.take(running@.len() as int));
                    if running.len() < kinds.len() {
                        let kind = kinds[running.len()];
                        (
                            Supervisor {
                                kinds,
                                listen,
                                container_args,
                                running,
                                phase: Phase::Building,
                            },
                            SupervisorAction::Build { kind },
                        )
                    } else {
                        let tasks = running.len();
                        (
                            Supervisor {
                                kinds,
                                listen,
                                container_args,
                                running,
                                phase: Phase::Waiting,
                            },
                            SupervisorAction::AwaitFirst { tasks },
                        )
                    }
                },
                SupervisorEvent::StartFailed { reason } => {
                    let kind = self.kinds[self.running.len()];
                    self.fail(SupervisorError::Start { kind, reason })
                },
                _ => self.fail(SupervisorError::UnexpectedEvent),
            },
            Phase::Waiting => match event {
                SupervisorEvent::Completed { index, outcome } => {
                    if index < self.running.len() {
                        let kind = self.running[index];
                        let Supervisor { kinds, listen, container_args, running, phase } = self;
                        (
                            Supervisor {
                                kinds,
                                listen,
                                container_args,
                                running,
                                phase: Phase::Finished,
                            },
                            SupervisorAction::Finish {
                                winner: Some(kind),
                                result: match outcome {
                                    Ok(_) => Ok(()),
                                    Err(reason) => Err(SupervisorError::Trigger { kind, reason }),
                                },
                            },
                        )
                    } else {
                        self.fail(SupervisorError::UnexpectedEvent)
                    }
                },
                _ => self.fail(SupervisorError::UnexpectedEvent),
            },
            Phase::Finished => self.fail(SupervisorError::UnexpectedEvent),
        }
    }
}

/// Whatever the event, a well-formed supervisor stays well-formed.
pub proof fn lemma_next_keeps_well_formed(state: SupervisorModel, event: EventModel)
    requires
        state.well_formed(),
    ensures
        state.next(event).0.well_formed(),
        state.next(event).0.kinds == state.kinds,
{
    let after = state.next(event).0;
    if state.phase == Phase::Starting && event is Started {
        assert(after.running == state.kinds.take(after.running.len() as int));
    }
}

/// The supervisor waits only once the run task of every kind is in the task
/// set: it then waits for exactly as many tasks as there are kinds.
pub proof fn lemma_waits_for_every_kind(state: SupervisorModel, event: EventModel)
    requires
        state.well_formed(),
        state.next(event).1 is AwaitFirst,
    ensures
        state.next(event).1->tasks == state.kinds.len(),
        state.next(event).0.running == state.kinds,
        state.next(event).0.phase == Phase::Waiting,
{
    let after = state.next(event).0;
    assert(after.running == state.kinds.take(after.running.len() as int));
    assert(state.kinds.take(state.kinds.len() as int) == state.kinds);
}

/// The state of a supervisor that was asked to begin and has then seen `n`
/// executors built and started.
pub open spec fn after_launches(start: SupervisorModel, n: nat) -> SupervisorModel
    decreases n,
{
    if n == 0 {
        start.next(EventModel::Begin).0
    } else {
        after_launches(start, (n - 1) as nat).next(EventModel::Built).0.next(
            EventModel::Started,
        ).0
    }
}

/// Whether the startup arguments of every kind can be had.
pub open spec fn all_startable(
    kinds: Seq<TriggerKind>,
    listen: Option<Seq<char>>,
    container_args: Seq<Seq<char>>,
) -> bool {
    forall|i: int|
        0 <= i < kinds.len() ==> startup_args_of(#[trigger] kinds[i], listen, container_args) is Ok
}

/// Where no listen address is configured, the startup arguments of every
/// kind can be had: the default address is of the form `host:port`.
pub proof fn lemma_startable_by_default(kinds: Seq<TriggerKind>, container_args: Seq<Seq<char>>)
    ensures
        all_startable(kinds, None, container_args),
{
    crate::address::lemma_default_address();
}

/// A supervisor of the set of kinds `kinds` launches one executor per kind,
/// in the order of `kinds`, and no other: after `n` launches the task set holds the
/// first `n` kinds, the supervisor goes on building while kinds are left, and
/// it waits once there are `kinds.len()` tasks.
pub proof fn lemma_launches_one_per_kind(
    kinds: Seq<TriggerKind>,
    listen: Option<Seq<char>>,
    container_args: Seq<Seq<char>>,
    n: nat,
)
    requires
        0 < kinds.len() <= usize::MAX,
        kinds.no_duplicates(),
        n <= kinds.len(),
        all_startable(kinds, listen, container_args),
    ensures
        ({
            let state = after_launches(SupervisorModel::initial(kinds, listen, container_args), n);
            &&& state.well_formed()
            &&& state.kinds == kinds
            &&& state.listen == listen
            &&& state.container_args == container_args
            &&& state.running == kinds.take(n as int)
            &&& state.phase == if n < kinds.len() {
                Phase::Building
            } else {
                Phase::Waiting
            }
        }),
    decreases n,
{
    let start = SupervisorModel::initial(kinds, listen, container_args);
    assert(start.running == kinds.take(0));
    if n > 0 {
        lemma_launches_one_per_kind(kinds, listen, container_args, (n - 1) as nat);
        let before = after_launches(start, (n - 1) as nat);
        assert(before.current() == kinds[n - 1]);
        let built = before.next(EventModel::Built).0;
        assert(built.phase == Phase::Starting);
        let started = built.next(EventModel::Started).0;
        assert(started.running == kinds.take(n as int));
    }
}

/// The first task to complete decides: the supervisor ends with the kind of
/// that task as the winner and with the task's own outcome.
pub proof fn lemma_first_completion_decides(
    state: SupervisorModel,
    index: usize,
    outcome: Result<(), Seq<char>>,
)
    requires
        state.well_formed(),
        state.phase == Phase::Waiting,
        index < state.kinds.len(),
    ensures
        state.next(EventModel::Completed { index, outcome }).0.phase == Phase::Finished,
        state.next(EventModel::Completed { index, outcome }).1 == (ActionModel::Finish {
            winner: Some(state.kinds[index as int]),
            result: match outcome {
                Ok(_) => Ok(()),
                Err(reason) => Err(ErrorModel::Trigger { kind: state.kinds[index as int], reason }),
            },
        }),
{
    assert(state.running == state.kinds.take(state.running.len() as int));
    assert(state.kinds.take(state.kinds.len() as int) == state.kinds);
}

} // verus!
