//! The compiler engine: what the library takes from wasmtime, and on what
//! terms. Nothing in this file is proved; each contract states what
//! wasmtime's documentation and source show of the function that the item
//! calls.

use std::collections::hash_map::DefaultHasher;
use std::hash::Hash;
use std::hash::Hasher;
use vstd::prelude::*;

verus! {

/// wasmtime's engine: a compiler with its configuration. Opaque here.
#[verifier::external_type_specification]
#[verifier::external_body]
pub struct ExWasmtimeEngine(wasmtime::Engine);

/// The error type of wasmtime's fallible functions. Opaque here.
#[verifier::external_type_specification]
#[verifier::external_body]
pub struct ExCompilerError(anyhow::Error);

/// `Clone` for wasmtime's engine. An engine is a shared handle to one
/// compiler with its settings, and a clone is another handle to the same:
/// the contract says that the two are equal.
pub assume_specification[ <wasmtime::Engine as Clone>::clone ](
    engine: &wasmtime::Engine,
) -> (cloned: wasmtime::Engine)
    ensures
        cloned == *engine,
;

/// What a precompiled artifact holds.
#[derive(Clone, Copy, Debug, PartialEq, Eq, Structural)]
pub enum PrecompiledKind {
    /// A precompiled core module.
    Module,
    /// A precompiled component.
    Component,
}

/// What `wasmtime::Engine::detect_precompiled` returns on the given bytes:
/// whether their header is that of an artifact that wasmtime produced, and of
/// which kind. It reads nothing but the bytes.
pub uninterp spec fn detected_precompiled(bytes: Seq<u8>) -> Option<PrecompiledKind>;

/// Calls `wasmtime::Engine::detect_precompiled`. The contract gives the
/// call's result the name `detected_precompiled`, and claims one thing of
/// it: the function reads an object file's header off the front of the
/// bytes, so in no bytes it detects nothing.
#[verifier::external_body]
pub(crate) fn detect_precompiled(bytes: &[u8]) -> (kind: Option<PrecompiledKind>)
    ensures
        kind == detected_precompiled(bytes@),
        bytes@.len() == 0 ==> kind is None,
{
    match wasmtime::Engine::detect_precompiled(bytes) {
        Some(wasmtime::Precompiled::Module) => Some(PrecompiledKind::Module),
        Some(wasmtime::Precompiled::Component) => Some(PrecompiledKind::Component),
        None => None,
    }
}

/// What `wasmtime::Engine::precompile_component` makes of the given bytes
/// with the given engine: the artifact, or the text of the compiler's error
/// where it refuses the bytes. The target and every setting of the compiler
/// are fixed in the engine when it is made, and compilation reads nothing
/// else, so one engine makes the same of the same bytes every time.
pub uninterp spec fn precompiled_component_of(engine: wasmtime::Engine, bytes: Seq<u8>) -> Result<
    Seq<u8>,
    Seq<char>,
>;

/// Calls `wasmtime::Engine::precompile_component` and renders an error with
/// its chain of causes. The contract gives the call's result the name
/// `precompiled_component_of`, and claims of an artifact what the
/// documentation of `detect_precompiled` says of this function's output:
/// that it is detected as precompiled. Nothing being detected in no bytes,
/// an artifact is not empty.
#[verifier::external_body]
pub(crate) fn precompile_component(engine: &wasmtime::Engine, bytes: &[u8]) -> (compiled: Result<
    Vec<u8>,
    String,
>)
    ensures
        match compiled {
            Ok(artifact) => precompiled_component_of(*engine, bytes@) == Ok::<Seq<u8>, Seq<char>>(
                artifact@,
            ),
            Err(text) => precompiled_component_of(*engine, bytes@) == Err::<Seq<u8>, Seq<char>>(
                text@,
            ),
        },
        compiled matches Ok(artifact) ==> detected_precompiled(artifact@) is Some
            && artifact@.len() > 0,
{
    match engine.precompile_component(bytes) {
        Ok(artifact) => Ok(artifact),
        Err(error) => Err(format!("{:#}", error)),
    }
}

/// Whether the compiler of the given engine emits the checks by which a
/// host interrupts running code at an epoch: the `epoch_interruption`
/// setting that the engine was made with.
pub uninterp spec fn epoch_interruption_of(engine: wasmtime::Engine) -> bool;

/// Calls `wasmtime::Engine::new` on a default `wasmtime::Config` whose
/// `epoch_interruption` is set as given. wasmtime stores the setting in the
/// configuration and carries it into the engine, so an engine that comes
/// back has it as given. Whether one comes back is not claimed.
#[verifier::external_body]
pub(crate) fn new_engine(epoch_interruption: bool) -> (made: Result<wasmtime::Engine, anyhow::Error>)
    ensures
        made matches Ok(engine) ==> epoch_interruption_of(engine) == epoch_interruption,
{
    let mut config = wasmtime::Config::default();
    config.epoch_interruption(epoch_interruption);
    wasmtime::Engine::new(&config)
}

/// The digest of what `wasmtime::Engine::precompile_compatibility_hash`
/// returns for the given engine. wasmtime hashes the compiler's target and
/// settings, which are fixed in the engine, and the hasher starts from fixed
/// keys, so one engine has one digest.
pub uninterp spec fn compatibility_digest_of(engine: wasmtime::Engine) -> u64;

/// Calls `wasmtime::Engine::precompile_compatibility_hash` and feeds what it
/// returns to a `DefaultHasher`. The contract gives the digest the name
/// `compatibility_digest_of`, and claims no more.
#[verifier::external_body]
pub(crate) fn compatibility_digest(engine: &wasmtime::Engine) -> (digest: u64)
    ensures
        digest == compatibility_digest_of(*engine),
{
    let mut hasher = DefaultHasher::new();
    engine.precompile_compatibility_hash().hash(&mut hasher);
    hasher.finish()
}

/// Renders an error of the compiler engine with its chain of causes.
/// Nothing is claimed of the text.
#[verifier::external_body]
pub(crate) fn error_text(error: &anyhow::Error) -> String {
    format!("{:#}", error)
}

} // verus!
