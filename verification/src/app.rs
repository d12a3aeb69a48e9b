//! The locked application: the fully resolved description of what runs.

use crate::text::text_of;
use vstd::prelude::*;

verus! {

/// One component of a locked application.
#[derive(Clone, Debug, PartialEq, Eq)]
pub struct LockedComponent {
    /// The identity that triggers refer to.
    pub id: String,
    /// The digest of the component's code.
    pub source: String,
}

/// A component, as plain values.
pub struct ComponentModel {
    pub id: Seq<char>,
    pub source: Seq<char>,
}

impl View for LockedComponent {
    type V = ComponentModel;

    open spec fn view(&self) -> ComponentModel {
        ComponentModel { id: self.id@, source: self.source@ }
    }
}

/// One trigger of a locked application.
#[derive(Clone, Debug, PartialEq, Eq)]
pub struct LockedTrigger {
    /// The kind label of the event source.
    pub trigger_type: String,
    /// The identity of the component that the trigger drives.
    pub component: String,
}

/// A trigger, as plain values.
pub struct TriggerModel {
    pub trigger_type: Seq<char>,
    pub component: Seq<char>,
}

impl View for LockedTrigger {
    type V = TriggerModel;

    open spec fn view(&self) -> TriggerModel {
        TriggerModel { trigger_type: self.trigger_type@, component: self.component@ }
    }
}

/// One configuration variable of a locked application.
#[derive(Clone, Debug, PartialEq, Eq)]
pub struct Variable {
    /// The name under which components read the variable.
    pub name: String,
    /// The value the application declares for it, if any.
    pub default: Option<String>,
    /// The value bound to it, once bound.
    pub value: Option<String>,
}

/// A variable, as plain values.
pub struct VariableModel {
    pub name: Seq<char>,
    pub default: Option<Seq<char>>,
    pub value: Option<Seq<char>>,
}

impl View for Variable {
    type V = VariableModel;

    open spec fn view(&self) -> VariableModel {
        VariableModel { name: self.name@, default: text_of(self.default), value: text_of(self.value) }
    }
}

/// A locked application: components, triggers and variables, each in the
/// order of declaration.
#[derive(Clone, Debug, PartialEq, Eq)]
pub struct LockedApp {
    pub components: Vec<LockedComponent>,
    pub triggers: Vec<LockedTrigger>,
    pub variables: Vec<Variable>,
}

/// A locked application, as plain values.
pub struct AppModel {
    pub components: Seq<ComponentModel>,
    pub triggers: Seq<TriggerModel>,
    pub variables: Seq<VariableModel>,
}

impl View for LockedApp {
    type V = AppModel;

    open spec fn view(&self) -> AppModel {
        AppModel {
            components: Seq::new(self.components@.len(), |i: int| self.components@[i]@),
            triggers: Seq::new(self.triggers@.len(), |i: int| self.triggers@[i]@),
            variables: Seq::new(self.variables@.len(), |i: int| self.variables@[i]@),
        }
    }
}

impl AppModel {
    /// The kind labels of the triggers, in order.
    pub open spec fn trigger_labels(self) -> Seq<Seq<char>> {
        Seq::new(self.triggers.len(), |i: int| self.triggers[i].trigger_type)
    }

    /// Whether the application has a component of the given identity.
    pub open spec fn has_component(self, id: Seq<char>) -> bool {
        exists|i: int| 0 <= i < self.components.len() && (#[trigger] self.components[i]).id == id
    }

    /// Every trigger refers to a component that the application has.
    pub open spec fn well_formed(self) -> bool {
        forall|i: int|
            0 <= i < self.triggers.len() ==> self.has_component(
                (#[trigger] self.triggers[i]).component,
            )
    }

    /// Every variable has a value.
    pub open spec fn resolved(self) -> bool {
        forall|i: int| 0 <= i < self.variables.len() ==> (#[trigger] self.variables[i]).value is Some
    }
}

impl LockedApp {
    /// Whether the application has a component of the given identity.
    pub fn has_component(&self, id: &String) -> (found: bool)
        ensures
            found == self@.has_component(id@),
    {
        let mut i: usize = 0;
        while i < self.components.len()
            invariant
                i <= self.components@.len(),
                forall|j: int| 0 <= j < i ==> (#[trigger] self@.components[j]).id != id@,
            decreases self.components@.len() - i,
        {
            if self.components[i].id == *id {
                assert(self@.components[i as int].id == id@);
                return true;
            }
            i = i + 1;
        }
        false
    }

    /// Checks that every trigger refers to a component that the application
    /// has.
    pub fn is_well_formed(&self) -> (ok: bool)
        ensures
            ok == self@.well_formed(),
    {
        let mut i: usize = 0;
        while i < self.triggers.len()
            invariant
                i <= self.triggers@.len(),
                forall|j: int|
                    0 <= j < i ==> self@.has_component((#[trigger] self@.triggers[j]).component),
            decreases self.triggers@.len() - i,
        {
            if !self.has_component(&self.triggers[i].component) {
                assert(!self@.has_component(self@.triggers[i as int].component));
                return false;
            }
            i = i + 1;
        }
        true
    }

    /// Checks that every variable has a value.
    pub fn is_resolved(&self) -> (ok: bool)
        ensures
            ok == self@.resolved(),
    {
        let mut i: usize = 0;
        while i < self.variables.len()
            invariant
                i <= self.variables@.len(),
                forall|j: int| 0 <= j < i ==> (#[trigger] self@.variables[j]).value is Some,
            decreases self.variables@.len() - i,
        {
            if self.variables[i].value.is_none() {
                assert(self@.variables[i as int].value is None);
                return false;
            }
            i = i + 1;
        }
        true
    }
}

/// The identity of the one component of an application made from a bare
/// module.
pub const BARE_MODULE_COMPONENT_ID: &'static str = "main";

/// The application that stands for a bare WebAssembly module whose digest is
/// `digest`: one component, no trigger and no variable.
pub open spec fn bare_module_app_of(digest: Seq<char>) -> AppModel {
    AppModel {
        components: seq![ComponentModel { id: BARE_MODULE_COMPONENT_ID@, source: digest }],
        triggers: Seq::empty(),
        variables: Seq::empty(),
    }
}

/// Makes the application that stands for a bare WebAssembly module: one
/// component whose code is the module, no trigger and no variable.
pub fn bare_module_app(digest: String) -> (app: LockedApp)
    ensures
        app@ == bare_module_app_of(digest@),
        app@.well_formed(),
        app@.resolved(),
{
    let mut components: Vec<LockedComponent> = Vec::new();
    components.push(
        LockedComponent { id: BARE_MODULE_COMPONENT_ID.to_owned(), source: digest },
    );
    let app = LockedApp { components, triggers: Vec::new(), variables: Vec::new() };
    assert(app@.components =~= bare_module_app_of(digest@).components);
    assert(app@.triggers =~= bare_module_app_of(digest@).triggers);
    assert(app@.variables =~= bare_module_app_of(digest@).variables);
    app
}

} // verus!
