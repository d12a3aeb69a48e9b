//! The environment binder: values for an application's variables, taken
//! from the host environment or from the application's own defaults.

use crate::app::{AppModel, LockedApp, Variable, VariableModel};
use crate::text::text_of;
use vstd::prelude::*;
use vstd::string::StringExecFns;

verus! {

/// What the name of every environment variable that binds an application
/// variable starts with, before the underscore.
pub const SPIN_APPLICATION_VARIABLE_PREFIX: &'static str = "SPIN_VARIABLE";

/// What separates the prefix from the name of the variable.
pub const SPIN_APPLICATION_VARIABLE_SEPARATOR: &'static str = "_";

/// The upper-case form of an ASCII letter; any other character is itself.
pub open spec fn ascii_upper(c: char) -> char {
    if 'a' <= c && c <= 'z' {
        ((c as u32) - 32) as char
    } else {
        c
    }
}

/// A text with each of its characters in ASCII upper case.
pub open spec fn upper_text(text: Seq<char>) -> Seq<char> {
    Seq::new(text.len(), |i: int| ascii_upper(text[i]))
}

/// Calls `str::to_ascii_uppercase`. The contract states what the standard
/// library documents: the letters `a` to `z` become `A` to `Z`, every other
/// character stays, and so does the length.
#[verifier::external_body]
fn to_ascii_uppercase(text: &str) -> (upper: String)
    ensures
        upper@ == upper_text(text@),
{
    text.to_ascii_uppercase()
}

/// The name of the environment variable that binds the application variable
/// `key`: the prefix, an underscore, and the key in upper case.
pub open spec fn env_name_of(key: Seq<char>) -> Seq<char> {
    SPIN_APPLICATION_VARIABLE_PREFIX@ + SPIN_APPLICATION_VARIABLE_SEPARATOR@ + upper_text(key)
}

/// Computes the name of the environment variable that binds the application
/// variable `key`.
pub fn env_name(key: &str) -> (name: String)
    ensures
        name@ == env_name_of(key@),
{
    let upper = to_ascii_uppercase(key);
    String::from_str(SPIN_APPLICATION_VARIABLE_PREFIX).concat(
        SPIN_APPLICATION_VARIABLE_SEPARATOR,
    ).concat(upper.as_str())
}

/// An environment, as plain values: pairs of name and value.
pub open spec fn env_model(env: Seq<(String, String)>) -> Seq<(Seq<char>, Seq<char>)> {
    Seq::new(env.len(), |i: int| (env[i].0@, env[i].1@))
}

/// The value that an environment gives to a name: that of the first pair
/// with the name.
pub open spec fn env_value(env: Seq<(Seq<char>, Seq<char>)>, name: Seq<char>) -> Option<Seq<char>>
    decreases env.len(),
{
    if env.len() == 0 {
        None
    } else if env[0].0 == name {
        Some(env[0].1)
    } else {
        env_value(env.drop_first(), name)
    }
}

/// Looks a name up in an environment.
pub fn lookup<'a>(env: &'a Vec<(String, String)>, name: &String) -> (value: Option<&'a String>)
    ensures
        text_of(
            match value {
                Some(v) => Some(*v),
                None => None,
            },
        ) == env_value(env_model(env@), name@),
{
    let ghost model = env_model(env@);
    let mut i: usize = 0;
    assert(model.skip(0) =~= model);
    while i < env.len()
        invariant
            i <= env@.len(),
            model == env_model(env@),
            env_value(model, name@) == env_value(model.skip(i as int), name@),
        decreases env@.len() - i,
    {
        proof {
            assert(model.skip(i as int).drop_first() =~= model.skip(i + 1));
            assert(model.skip(i as int)[0] == model[i as int]);
        }
        if env[i].0 == *name {
            return Some(&env[i].1);
        }
        i = i + 1;
    }
    None
}

/// The value that binding gives to a variable: what the environment holds
/// under the variable's name, else the variable's default, else nothing.
pub open spec fn binding_of(variable: VariableModel, env: Seq<(Seq<char>, Seq<char>)>) -> Option<
    Seq<char>,
> {
    match env_value(env, env_name_of(variable.name)) {
        Some(value) => Some(value),
        None => variable.default,
    }
}

/// Whether binding gives every variable of the application a value.
pub open spec fn all_bindable(app: AppModel, env: Seq<(Seq<char>, Seq<char>)>) -> bool {
    forall|i: int| 0 <= i < app.variables.len() ==> binding_of(#[trigger] app.variables[i], env) is Some
}

/// Whether the variable at `i` is the first to which binding gives no
/// value.
pub open spec fn is_first_unbound(app: AppModel, env: Seq<(Seq<char>, Seq<char>)>, i: int) -> bool {
    &&& 0 <= i < app.variables.len()
    &&& binding_of(app.variables[i], env) is None
    &&& forall|j: int| 0 <= j < i ==> binding_of(#[trigger] app.variables[j], env) is Some
}

/// The application with each variable bound: components and triggers as
/// they were, and each variable with the value that binding gives it.
pub open spec fn bound_app(app: AppModel, env: Seq<(Seq<char>, Seq<char>)>) -> AppModel {
    AppModel {
        components: app.components,
        triggers: app.triggers,
        variables: Seq::new(
            app.variables.len(),
            |i: int|
                VariableModel {
                    name: app.variables[i].name,
                    default: app.variables[i].default,
                    value: binding_of(app.variables[i], env),
                },
        ),
    }
}

/// Where binding gives every variable a value, the bound application is
/// resolved, and it is well-formed if the application was.
pub proof fn lemma_bound_app_is_resolved(app: AppModel, env: Seq<(Seq<char>, Seq<char>)>)
    requires
        all_bindable(app, env),
    ensures
        bound_app(app, env).resolved(),
        app.well_formed() ==> bound_app(app, env).well_formed(),
        bound_app(app, env).trigger_labels() == app.trigger_labels(),
{
    let bound = bound_app(app, env);
    assert forall|i: int| 0 <= i < bound.variables.len() implies (#[trigger] bound.variables[i]).value
        is Some by {
        assert(binding_of(app.variables[i], env) is Some);
    }
    if app.well_formed() {
        assert forall|i: int| 0 <= i < bound.triggers.len() implies bound.has_component(
            (#[trigger] bound.triggers[i]).component,
        ) by {
            let id = app.triggers[i].component;
            assert(app.has_component(id));
            let k = choose|k: int|
                0 <= k < app.components.len() && (#[trigger] app.components[k]).id == id;
            assert(bound.components[k].id == id);
        }
    }
    assert(bound.trigger_labels() =~= app.trigger_labels());
}

/// Why an application's variables could not be bound.
#[derive(Clone, Debug, PartialEq, Eq)]
pub enum BindError {
    /// The variable `name` has no default, and the environment holds no
    /// value for it.
    MissingRequired { name: String },
}

/// A binding error, as plain values.
pub enum BindErrorModel {
    MissingRequired { name: Seq<char> },
}

impl View for BindError {
    type V = BindErrorModel;

    open spec fn view(&self) -> BindErrorModel {
        match *self {
            BindError::MissingRequired { name } => BindErrorModel::MissingRequired { name: name@ },
        }
    }
}

/// The position of the first variable to which binding gives no value,
/// where there is one.
pub open spec fn first_unbound(app: AppModel, env: Seq<(Seq<char>, Seq<char>)>) -> int {
    choose|i: int| is_first_unbound(app, env, i)
}

/// The first variable to which binding gives no value is one variable.
pub proof fn lemma_first_unbound_is_unique(app: AppModel, env: Seq<(Seq<char>, Seq<char>)>, i: int)
    requires
        is_first_unbound(app, env, i),
    ensures
        !all_bindable(app, env),
        first_unbound(app, env) == i,
{
    let j = first_unbound(app, env);
    assert(is_first_unbound(app, env, j));
    if i < j {
        assert(binding_of(app.variables[i], env) is Some);
    } else if j < i {
        assert(binding_of(app.variables[j], env) is Some);
    }
}

/// What binding makes of an application: the bound application where every
/// variable gets a value, else an error that names the first variable that
/// gets none.
pub open spec fn binding_result_of(app: AppModel, env: Seq<(Seq<char>, Seq<char>)>) -> Result<
    AppModel,
    BindErrorModel,
> {
    if all_bindable(app, env) {
        Ok(bound_app(app, env))
    } else {
        Err(BindErrorModel::MissingRequired { name: app.variables[first_unbound(app, env)].name })
    }
}

/// A copy of a text that may be absent.
fn clone_optional(text: &Option<String>) -> (copy: Option<String>)
    ensures
        text_of(copy) == text_of(*text),
{
    match text {
        Some(t) => Some(t.clone()),
        None => None,
    }
}

/// Binds the variables of an application.
///
/// Succeeds exactly where binding gives every variable a value; the result
/// is then the bound application, which is resolved. Otherwise the error
/// names the first variable that is left without a value.
pub fn bind_variables(app: LockedApp, env: &Vec<(String, String)>) -> (bound: Result<
    LockedApp,
    BindError,
>)
    ensures
        match bound {
            Ok(result) => all_bindable(app@, env_model(env@)) && result@ == bound_app(
                app@,
                env_model(env@),
            ) && result@.resolved(),
            Err(BindError::MissingRequired { name }) => exists|i: int|
                is_first_unbound(app@, env_model(env@), i) && name@ == (
                #[trigger] app@.variables[i]).name,
        },
        match bound {
            Ok(result) => binding_result_of(app@, env_model(env@)) == Ok::<AppModel, BindErrorModel>(
                result@,
            ),
            Err(e) => binding_result_of(app@, env_model(env@)) == Err::<AppModel, BindErrorModel>(
                e@,
            ),
        },
{
    let ghost before = app@;
    let ghost environment = env_model(env@);
    let LockedApp { components, triggers, variables } = app;
    let mut bound: Vec<Variable> = Vec::new();
    let mut i: usize = 0;
    while i < variables.len()
        invariant
            i <= variables@.len(),
            environment == env_model(env@),
            before == app@,
            before.variables.len() == variables@.len(),
            forall|j: int| 0 <= j < variables@.len() ==> before.variables[j] == variables@[j]@,
            bound@.len() == i,
            forall|j: int|
                0 <= j < i ==> binding_of(#[trigger] before.variables[j], environment) is Some,
            forall|j: int|
                0 <= j < i ==> (#[trigger] bound@[j])@ == bound_app(before, environment).variables[j],
        decreases variables@.len() - i,
    {
        let variable = &variables[i];
        assert(before.variables[i as int] == variable@);
        let name = env_name(variable.name.as_str());
        let value = match lookup(env, &name) {
            Some(found) => Some(found.clone()),
            None => clone_optional(&variable.default),
        };
        assert(text_of(value) == binding_of(before.variables[i as int], environment));
        if value.is_none() {
            let name = variable.name.clone();
            proof {
                assert(is_first_unbound(before, environment, i as int));
                assert(name@ == before.variables[i as int].name);
                assert(exists|k: int|
                    is_first_unbound(before, environment, k) && name@ == (
                    #[trigger] before.variables[k]).name);
                lemma_first_unbound_is_unique(before, environment, i as int);
            }
            return Err(BindError::MissingRequired { name });
        }
        bound.push(
            Variable { name: variable.name.clone(), default: clone_optional(&variable.default), value },
        );
        i = i + 1;
    }
    let result = LockedApp { components, triggers, variables: bound };
    proof {
        let expected = bound_app(before, environment);
        assert(result@.components =~= expected.components);
        assert(result@.triggers =~= expected.triggers);
        assert(result@.variables =~= expected.variables);
        lemma_bound_app_is_resolved(before, environment);
    }
    Ok(result)
}

} // verus!
