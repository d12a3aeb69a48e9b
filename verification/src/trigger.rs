//! Trigger kinds and the registry that reads them off a locked application.

use crate::app::LockedApp;
use crate::text::same_text;
use vstd::prelude::*;
use vstd::string::StringExecFns;

verus! {

/// Kind label of the HTTP trigger.
pub const HTTP_TRIGGER_TYPE: &'static str = "http";

/// Kind label of the Redis trigger.
pub const REDIS_TRIGGER_TYPE: &'static str = "redis";

/// Kind label of the SQS trigger.
pub const SQS_TRIGGER_TYPE: &'static str = "sqs";

/// Kind label of the command trigger.
pub const COMMAND_TRIGGER_TYPE: &'static str = "command";

/// Kind label of the MQTT trigger.
pub const MQTT_TRIGGER_TYPE: &'static str = "mqtt";

/// The event sources that the engine can run.
#[derive(Clone, Copy, Debug, PartialEq, Eq, Structural)]
pub enum TriggerKind {
    Http,
    Redis,
    Sqs,
    Command,
    Mqtt,
}

/// The label under which a locked application names a trigger kind.
pub open spec fn label_of(kind: TriggerKind) -> Seq<char> {
    match kind {
        TriggerKind::Http => HTTP_TRIGGER_TYPE@,
        TriggerKind::Redis => REDIS_TRIGGER_TYPE@,
        TriggerKind::Sqs => SQS_TRIGGER_TYPE@,
        TriggerKind::Command => COMMAND_TRIGGER_TYPE@,
        TriggerKind::Mqtt => MQTT_TRIGGER_TYPE@,
    }
}

/// The trigger kind that a label names, if it names a supported one.
pub open spec fn kind_of_label(label: Seq<char>) -> Option<TriggerKind> {
    if label == HTTP_TRIGGER_TYPE@ {
        Some(TriggerKind::Http)
    } else if label == REDIS_TRIGGER_TYPE@ {
        Some(TriggerKind::Redis)
    } else if label == SQS_TRIGGER_TYPE@ {
        Some(TriggerKind::Sqs)
    } else if label == COMMAND_TRIGGER_TYPE@ {
        Some(TriggerKind::Command)
    } else if label == MQTT_TRIGGER_TYPE@ {
        Some(TriggerKind::Mqtt)
    } else {
        None
    }
}

/// Every kind is named by its own label and by no other kind's.
pub proof fn lemma_label_round_trip(kind: TriggerKind)
    ensures
        kind_of_label(label_of(kind)) == Some(kind),
{
    reveal_strlit("http");
    reveal_strlit("redis");
    reveal_strlit("sqs");
    reveal_strlit("command");
    reveal_strlit("mqtt");
    assert(HTTP_TRIGGER_TYPE@.len() == 4 && HTTP_TRIGGER_TYPE@[0] == 'h');
    assert(REDIS_TRIGGER_TYPE@.len() == 5);
    assert(SQS_TRIGGER_TYPE@.len() == 3);
    assert(COMMAND_TRIGGER_TYPE@.len() == 7);
    assert(MQTT_TRIGGER_TYPE@.len() == 4 && MQTT_TRIGGER_TYPE@[0] == 'm');
}

impl TriggerKind {
    /// The kind that `label` names; `None` for a label outside the supported
    /// set.
    pub fn from_label(label: &str) -> (kind: Option<TriggerKind>)
        ensures
            kind == kind_of_label(label@),
    {
        if same_text(label, HTTP_TRIGGER_TYPE) {
            Some(TriggerKind::Http)
        } else if same_text(label, REDIS_TRIGGER_TYPE) {
            Some(TriggerKind::Redis)
        } else if same_text(label, SQS_TRIGGER_TYPE) {
            Some(TriggerKind::Sqs)
        } else if same_text(label, COMMAND_TRIGGER_TYPE) {
            Some(TriggerKind::Command)
        } else if same_text(label, MQTT_TRIGGER_TYPE) {
            Some(TriggerKind::Mqtt)
        } else {
            None
        }
    }

    /// The label of this kind.
    pub fn label(self) -> (label: &'static str)
        ensures
            label@ == label_of(self),
    {
        match self {
            TriggerKind::Http => HTTP_TRIGGER_TYPE,
            TriggerKind::Redis => REDIS_TRIGGER_TYPE,
            TriggerKind::Sqs => SQS_TRIGGER_TYPE,
            TriggerKind::Command => COMMAND_TRIGGER_TYPE,
            TriggerKind::Mqtt => MQTT_TRIGGER_TYPE,
        }
    }
}

/// Why no set of triggers could be had from an application.
#[derive(Clone, Debug, PartialEq, Eq)]
pub enum TriggerError {
    /// The application declares a trigger of a kind outside the supported set.
    Unsupported { kind: String },
    /// The application declares no trigger at all.
    NoTriggers,
}

/// A trigger error, as plain values.
pub enum TriggerErrorModel {
    Unsupported { kind: Seq<char> },
    NoTriggers,
}

impl View for TriggerError {
    type V = TriggerErrorModel;

    open spec fn view(&self) -> TriggerErrorModel {
        match *self {
            TriggerError::Unsupported { kind } => TriggerErrorModel::Unsupported { kind: kind@ },
            TriggerError::NoTriggers => TriggerErrorModel::NoTriggers,
        }
    }
}

/// The text that introduces an unsupported kind in an error message.
pub const UNSUPPORTED_TRIGGER_PREFIX: &'static str =
    "Only Http, Redis, MQTT, SQS, and Command triggers are currently supported. Found unsupported trigger: ";

/// The message for an application without triggers.
pub const NO_TRIGGERS_MESSAGE: &'static str = "no triggers declared";

impl TriggerError {
    /// The text of the error.
    pub open spec fn message_of(self) -> Seq<char> {
        match self {
            TriggerError::Unsupported { kind } => UNSUPPORTED_TRIGGER_PREFIX@ + kind@,
            TriggerError::NoTriggers => NO_TRIGGERS_MESSAGE@,
        }
    }

    /// The text of the error; for an unsupported kind it ends in that kind's
    /// label.
    pub fn message(&self) -> (text: String)
        ensures
            text@ == self.message_of(),
    {
        match self {
            TriggerError::Unsupported { kind } => {
                String::from_str(UNSUPPORTED_TRIGGER_PREFIX).concat(kind.as_str())
            },
            TriggerError::NoTriggers => String::from_str(NO_TRIGGERS_MESSAGE),
        }
    }
}

/// Whether every label names a supported kind.
pub open spec fn all_supported(labels: Seq<Seq<char>>) -> bool {
    forall|i: int| 0 <= i < labels.len() ==> kind_of_label(#[trigger] labels[i]) is Some
}

/// Whether `i` is the position of the first label that names no supported
/// kind.
pub open spec fn is_first_unsupported(labels: Seq<Seq<char>>, i: int) -> bool {
    &&& 0 <= i < labels.len()
    &&& kind_of_label(labels[i]) is None
    &&& forall|j: int| 0 <= j < i ==> kind_of_label(#[trigger] labels[j]) is Some
}

/// The position of the first label that names no supported kind, where there
/// is one.
pub open spec fn first_unsupported(labels: Seq<Seq<char>>) -> int {
    choose|i: int| is_first_unsupported(labels, i)
}

/// The first label that names no supported kind is one label.
pub proof fn lemma_first_unsupported_is_unique(labels: Seq<Seq<char>>, i: int)
    requires
        is_first_unsupported(labels, i),
    ensures
        !all_supported(labels),
        first_unsupported(labels) == i,
{
    let j = first_unsupported(labels);
    assert(is_first_unsupported(labels, j));
    if i < j {
        assert(kind_of_label(labels[i]) is Some);
    } else if j < i {
        assert(kind_of_label(labels[j]) is Some);
    }
}

/// The distinct kinds that the labels name, each at the place of its first
/// occurrence. Labels that name no kind are passed over.
pub open spec fn distinct_kinds(labels: Seq<Seq<char>>) -> Seq<TriggerKind>
    decreases labels.len(),
{
    if labels.len() == 0 {
        Seq::empty()
    } else {
        let earlier = distinct_kinds(labels.drop_last());
        match kind_of_label(labels.last()) {
            Some(kind) => if earlier.contains(kind) {
                earlier
            } else {
                earlier.push(kind)
            },
            None => earlier,
        }
    }
}

/// No kind occurs twice among the distinct kinds.
pub proof fn lemma_distinct_kinds_no_duplicates(labels: Seq<Seq<char>>)
    ensures
        distinct_kinds(labels).no_duplicates(),
    decreases labels.len(),
{
    if labels.len() > 0 {
        lemma_distinct_kinds_no_duplicates(labels.drop_last());
    }
}

/// A kind is among the distinct kinds exactly when some label names it.
pub proof fn lemma_distinct_kinds_membership(labels: Seq<Seq<char>>, kind: TriggerKind)
    ensures
        distinct_kinds(labels).contains(kind) <==> exists|i: int|
            0 <= i < labels.len() && kind_of_label(#[trigger] labels[i]) == Some(kind),
    decreases labels.len(),
{
    if labels.len() > 0 {
        let shorter = labels.drop_last();
        let earlier = distinct_kinds(shorter);
        lemma_distinct_kinds_membership(shorter, kind);
        if distinct_kinds(labels).contains(kind) {
            if earlier.contains(kind) {
                let i = choose|i: int|
                    0 <= i < shorter.len() && kind_of_label(#[trigger] shorter[i]) == Some(kind);
                assert(labels[i] == shorter[i]);
            } else {
                let at = choose|at: int|
                    0 <= at < distinct_kinds(labels).len() && distinct_kinds(labels)[at] == kind;
                assert(kind_of_label(labels[labels.len() - 1]) == Some(kind));
            }
        }
        if exists|i: int| 0 <= i < labels.len() && kind_of_label(#[trigger] labels[i]) == Some(kind) {
            let i = choose|i: int|
                0 <= i < labels.len() && kind_of_label(#[trigger] labels[i]) == Some(kind);
            if i < shorter.len() {
                assert(shorter[i] == labels[i]);
                assert(earlier.contains(kind));
                let at = choose|at: int| 0 <= at < earlier.len() && earlier[at] == kind;
                assert(distinct_kinds(labels)[at] == kind);
            } else {
                if !earlier.contains(kind) {
                    assert(earlier.push(kind)[earlier.len() as int] == kind);
                }
            }
        }
    }
}

/// There are at most as many distinct kinds as labels.
pub proof fn lemma_distinct_kinds_len(labels: Seq<Seq<char>>)
    ensures
        distinct_kinds(labels).len() <= labels.len(),
    decreases labels.len(),
{
    if labels.len() > 0 {
        lemma_distinct_kinds_len(labels.drop_last());
    }
}

/// Whether `kinds` holds `kind`.
fn holds_kind(kinds: &Vec<TriggerKind>, kind: TriggerKind) -> (found: bool)
    ensures
        found == kinds@.contains(kind),
{
    let mut i: usize = 0;
    while i < kinds.len()
        invariant
            i <= kinds@.len(),
            forall|j: int| 0 <= j < i ==> kinds@[j] != kind,
        decreases kinds@.len() - i,
    {
        if kinds[i] == kind {
            return true;
        }
        i = i + 1;
    }
    false
}

/// The kinds of a list with every repeat left out: each kind once, at the
/// place of its first occurrence.
pub open spec fn without_repeats(kinds: Seq<TriggerKind>) -> Seq<TriggerKind>
    decreases kinds.len(),
{
    if kinds.len() == 0 {
        Seq::empty()
    } else {
        let earlier = without_repeats(kinds.drop_last());
        if earlier.contains(kinds.last()) {
            earlier
        } else {
            earlier.push(kinds.last())
        }
    }
}

/// With the repeats left out, a list holds a kind exactly when it held the
/// kind before.
pub proof fn lemma_without_repeats_membership(kinds: Seq<TriggerKind>, kind: TriggerKind)
    ensures
        without_repeats(kinds).contains(kind) <==> kinds.contains(kind),
    decreases kinds.len(),
{
    if kinds.len() > 0 {
        let shorter = kinds.drop_last();
        let earlier = without_repeats(shorter);
        let result = without_repeats(kinds);
        lemma_without_repeats_membership(shorter, kind);
        if result.contains(kind) {
            if earlier.contains(kind) {
                assert(shorter.contains(kind));
                let at = choose|at: int| 0 <= at < shorter.len() && shorter[at] == kind;
                assert(kinds[at] == kind);
            } else {
                assert(kinds[kinds.len() - 1] == kind);
            }
        }
        if kinds.contains(kind) {
            let at = choose|at: int| 0 <= at < kinds.len() && kinds[at] == kind;
            if at < shorter.len() {
                assert(shorter[at] == kind);
                assert(earlier.contains(kind));
                let to = choose|to: int| 0 <= to < earlier.len() && earlier[to] == kind;
                assert(result[to] == kind);
            } else if !earlier.contains(kind) {
                assert(earlier.push(kind)[earlier.len() as int] == kind);
            }
        }
    }
}

/// With the repeats left out, a list holds no kind twice, and is no longer
/// than before.
pub proof fn lemma_without_repeats_is_a_set(kinds: Seq<TriggerKind>)
    ensures
        without_repeats(kinds).no_duplicates(),
        without_repeats(kinds).len() <= kinds.len(),
    decreases kinds.len(),
{
    if kinds.len() > 0 {
        lemma_without_repeats_is_a_set(kinds.drop_last());
    }
}

/// A list that holds no kind twice has no repeats to leave out.
pub proof fn lemma_a_set_has_no_repeats(kinds: Seq<TriggerKind>)
    requires
        kinds.no_duplicates(),
    ensures
        without_repeats(kinds) == kinds,
    decreases kinds.len(),
{
    if kinds.len() > 0 {
        let shorter = kinds.drop_last();
        lemma_a_set_has_no_repeats(shorter);
        if shorter.contains(kinds.last()) {
            let at = choose|at: int| 0 <= at < shorter.len() && shorter[at] == kinds.last();
            assert(kinds[at] == kinds[kinds.len() - 1]);
        }
        assert(shorter.push(kinds.last()) =~= kinds);
    }
}

/// Leaves the repeats out of a list of kinds.
pub fn unique_kinds(kinds: &Vec<TriggerKind>) -> (unique: Vec<TriggerKind>)
    ensures
        unique@ == without_repeats(kinds@),
        unique@.no_duplicates(),
{
    let mut unique: Vec<TriggerKind> = Vec::new();
    let mut i: usize = 0;
    assert(kinds@.take(0) =~= Seq::<TriggerKind>::empty());
    while i < kinds.len()
        invariant
            i <= kinds@.len(),
            unique@ == without_repeats(kinds@.take(i as int)),
        decreases kinds@.len() - i,
    {
        proof {
            assert(kinds@.take(i + 1).drop_last() =~= kinds@.take(i as int));
            assert(kinds@.take(i + 1).last() == kinds@[i as int]);
        }
        if !holds_kind(&unique, kinds[i]) {
            unique.push(kinds[i]);
        }
        i = i + 1;
    }
    proof {
        assert(kinds@.take(i as int) =~= kinds@);
        lemma_without_repeats_is_a_set(kinds@);
    }
    unique
}

/// Reads the set of trigger kinds off an application.
///
/// Where every trigger is of a supported kind, the result holds each declared
/// kind once, in the order of first declaration; it is empty for an
/// application without triggers. Otherwise the error names the label of the
/// first trigger whose kind is not supported.
pub fn get_supported_triggers(app: &LockedApp) -> (found: Result<Vec<TriggerKind>, TriggerError>)
    ensures
        match found {
            Ok(kinds) => all_supported(app@.trigger_labels()) && kinds@ == distinct_kinds(
                app@.trigger_labels(),
            ),
            Err(TriggerError::Unsupported { kind }) => exists|i: int|
                is_first_unsupported(app@.trigger_labels(), i) && kind@
                    == #[trigger] app@.trigger_labels()[i],
            Err(TriggerError::NoTriggers) => false,
        },
{
    let ghost labels = app@.trigger_labels();
    let mut kinds: Vec<TriggerKind> = Vec::new();
    let mut i: usize = 0;
    assert(labels.take(0) == Seq::<Seq<char>>::empty());
    while i < app.triggers.len()
        invariant
            i <= app.triggers@.len(),
            labels == app@.trigger_labels(),
            labels.len() == app.triggers@.len(),
            all_supported(labels.take(i as int)),
            kinds@ == distinct_kinds(labels.take(i as int)),
        decreases app.triggers@.len() - i,
    {
        let ghost before = labels.take(i as int);
        let ghost after = labels.take(i + 1);
        proof {
            assert(after.drop_last() == before);
            assert(after.last() == labels[i as int]);
            assert(labels[i as int] == app.triggers@[i as int].trigger_type@);
        }
        match TriggerKind::from_label(app.triggers[i].trigger_type.as_str()) {
            Some(kind) => {
                if !holds_kind(&kinds, kind) {
                    kinds.push(kind);
                }
                proof {
                    assert forall|j: int| 0 <= j < after.len() implies kind_of_label(
                        #[trigger] after[j],
                    ) is Some by {
                        if j < i {
                            assert(before[j] == after[j]);
                        }
                    }
                }
            },
            None => {
                proof {
                    assert forall|j: int| 0 <= j < i implies kind_of_label(
                        #[trigger] labels[j],
                    ) is Some by {
                        assert(before[j] == labels[j]);
                    }
                    assert(is_first_unsupported(labels, i as int));
                }
                return Err(TriggerError::Unsupported { kind: app.triggers[i].trigger_type.clone() });
            },
        }
        i = i + 1;
    }
    assert(labels.take(i as int) == labels);
    Ok(kinds)
}

/// The triggers to run for an application whose triggers bear the given
/// labels: the distinct kinds that the labels name. A label that names no
/// supported kind is an error that carries the first such label; no label
/// at all is an error too.
pub open spec fn selection_of(labels: Seq<Seq<char>>) -> Result<Seq<TriggerKind>, TriggerErrorModel> {
    if !all_supported(labels) {
        Err(TriggerErrorModel::Unsupported { kind: labels[first_unsupported(labels)] })
    } else if labels.len() == 0 {
        Err(TriggerErrorModel::NoTriggers)
    } else {
        Ok(distinct_kinds(labels))
    }
}

/// Where triggers are selected, there is at least one kind, and no kind
/// twice.
pub proof fn lemma_selection_is_a_nonempty_set(labels: Seq<Seq<char>>)
    requires
        selection_of(labels) is Ok,
    ensures
        selection_of(labels)->Ok_0.len() > 0,
        selection_of(labels)->Ok_0.no_duplicates(),
        selection_of(labels)->Ok_0.len() <= labels.len(),
{
    assert(kind_of_label(labels[0]) is Some);
    lemma_distinct_kinds_membership(labels, kind_of_label(labels[0])->0);
    lemma_distinct_kinds_no_duplicates(labels);
    lemma_distinct_kinds_len(labels);
}

/// Reads the set of trigger kinds off an application and refuses an empty set.
///
/// Fails with `Unsupported` exactly where `get_supported_triggers` does, and
/// with `NoTriggers` exactly where the application declares no trigger.
pub fn select_triggers(app: &LockedApp) -> (found: Result<Vec<TriggerKind>, TriggerError>)
    ensures
        match found {
            Ok(kinds) => all_supported(app@.trigger_labels()) && kinds@ == distinct_kinds(
                app@.trigger_labels(),
            ) && kinds@.len() > 0,
            Err(TriggerError::Unsupported { kind }) => exists|i: int|
                is_first_unsupported(app@.trigger_labels(), i) && kind@
                    == #[trigger] app@.trigger_labels()[i],
            Err(TriggerError::NoTriggers) => app@.trigger_labels().len() == 0,
        },
        match found {
            Ok(kinds) => selection_of(app@.trigger_labels()) == Ok::<
                Seq<TriggerKind>,
                TriggerErrorModel,
            >(kinds@),
            Err(e) => selection_of(app@.trigger_labels()) == Err::<
                Seq<TriggerKind>,
                TriggerErrorModel,
            >(e@),
        },
{
    let kinds = match get_supported_triggers(app) {
        Ok(kinds) => kinds,
        Err(e) => {
            proof {
                let labels = app@.trigger_labels();
                let i = choose|i: int|
                    is_first_unsupported(labels, i) && e->kind@ == #[trigger] labels[i];
                lemma_first_unsupported_is_unique(labels, i);
            }
            return Err(e);
        },
    };
    if kinds.len() == 0 {
        proof {
            let labels = app@.trigger_labels();
            if labels.len() > 0 {
                assert(kind_of_label(labels[0]) is Some);
                lemma_distinct_kinds_membership(labels, kind_of_label(labels[0])->0);
            }
        }
        return Err(TriggerError::NoTriggers);
    }
    Ok(kinds)
}

} // verus!
