//! The engine: layer precompilation and the precompile cache key.

use crate::compiler::{
    compatibility_digest, compatibility_digest_of, detected_precompiled, epoch_interruption_of,
    error_text, new_engine, precompile_component, precompiled_component_of,
};
use crate::decimal::{decimal, decimal_text};
use crate::layer::{classify, layer_models, Classification, Layer, LayerModel};
use crate::media;
use crate::text::clone_bytes;
use vstd::prelude::*;

verus! {

/// The name of the runtime kind.
pub const ENGINE_NAME: &'static str = "spin";

/// Why no engine could be made.
#[derive(Clone, Debug, PartialEq, Eq)]
pub struct EngineError {
    /// What the compiler engine said.
    pub message: String,
}

/// Why a list of layers could not be precompiled. `index` is the position of
/// the layer that the precompiler stopped at.
#[derive(Clone, Debug, PartialEq, Eq)]
pub enum PrecompileError {
    /// The layer is a core module, and no component form of it was supplied.
    NotAdapted { index: usize },
    /// The compiler rejected the layer.
    Compiler { index: usize, message: String },
}

/// The bytes of an output slot.
pub open spec fn slot_bytes(slot: Option<Vec<u8>>) -> Option<Seq<u8>> {
    match slot {
        Some(bytes) => Some(bytes@),
        None => None,
    }
}

/// The bytes of a component form that may be absent.
pub open spec fn form_bytes(form: Option<&Vec<u8>>) -> Option<Seq<u8>> {
    match form {
        Some(bytes) => Some(bytes@),
        None => None,
    }
}

/// The bytes of each slot of an output.
pub open spec fn output_bytes(output: Seq<Option<Vec<u8>>>) -> Seq<Option<Seq<u8>>> {
    Seq::new(output.len(), |i: int| slot_bytes(output[i]))
}

/// The component form supplied for the layer at position `i`, if any.
pub open spec fn adapted_at(adapted: Seq<Option<Vec<u8>>>, i: int) -> Option<Seq<u8>> {
    if 0 <= i < adapted.len() {
        slot_bytes(adapted[i])
    } else {
        None
    }
}

/// The component forms supplied for the layers of a list of the given length.
pub open spec fn adapted_forms(adapted: Seq<Option<Vec<u8>>>, len: nat) -> Seq<Option<Seq<u8>>> {
    Seq::new(len, |i: int| adapted_at(adapted, i))
}

/// What is handed to the compiler for a layer of class `class`: the
/// component form of a core module, the bytes of any other raw WebAssembly
/// layer, and nothing for a layer that is not WebAssembly or is already
/// compiled.
pub open spec fn compiler_input_for(
    class: Classification,
    bytes: Seq<u8>,
    adapted: Option<Seq<u8>>,
) -> Option<Seq<u8>> {
    match class {
        Classification::RawWasmModule => adapted,
        Classification::RawWasmComponent => Some(bytes),
        _ => None,
    }
}

/// What is handed to the compiler for a layer.
pub open spec fn compiler_input_of(layer: LayerModel, adapted: Option<Seq<u8>>) -> Option<Seq<u8>> {
    compiler_input_for(layer.classification(), layer.bytes, adapted)
}

/// Whether a layer is a core module for which no component form was
/// supplied.
pub open spec fn lacks_component(layer: LayerModel, adapted: Option<Seq<u8>>) -> bool {
    layer.classification() == Classification::RawWasmModule && adapted is None
}

/// Whether `slot` is an output slot for `layer`: absent for a layer that is
/// not WebAssembly, the layer's own bytes for one that is already compiled,
/// and for any other an artifact that the compiler engine detects as
/// precompiled, made from the layer's compiler input. A slot that is present
/// is not empty.
pub open spec fn slot_matches(
    layer: LayerModel,
    adapted: Option<Seq<u8>>,
    slot: Option<Seq<u8>>,
) -> bool {
    match layer.classification() {
        Classification::NonWasm => slot is None,
        Classification::PrecompiledComponent => slot == Some(layer.bytes) && layer.bytes.len() > 0,
        _ => {
            &&& compiler_input_of(layer, adapted) is Some
            &&& slot is Some
            &&& slot->0.len() > 0
            &&& detected_precompiled(slot->0) is Some
        },
    }
}

/// Whether `output` is a precompilation of `layers`: of the same length, and
/// slot by slot an output for the layer at that position.
pub open spec fn is_precompilation(
    layers: Seq<LayerModel>,
    adapted: Seq<Option<Seq<u8>>>,
    output: Seq<Option<Seq<u8>>>,
) -> bool {
    &&& adapted.len() == layers.len()
    &&& output.len() == layers.len()
    &&& forall|i: int|
        0 <= i < layers.len() ==> slot_matches(#[trigger] layers[i], adapted[i], output[i])
}

/// Whether a layer goes to the compiler: it is WebAssembly and not yet
/// compiled.
pub open spec fn needs_compiler(layer: LayerModel) -> bool {
    layer.classification() == Classification::RawWasmModule || layer.classification()
        == Classification::RawWasmComponent
}

/// The layers of a list with the bytes of each replaced by the artifact in
/// its output slot, where the slot holds one.
pub open spec fn with_artifacts(
    layers: Seq<LayerModel>,
    output: Seq<Option<Seq<u8>>>,
) -> Seq<LayerModel> {
    Seq::new(
        layers.len(),
        |i: int|
            match output[i] {
                Some(artifact) => LayerModel { bytes: artifact, ..layers[i] },
                None => layers[i],
            },
    )
}

/// A precompilation is as long as the list of layers, and its slot is absent
/// wherever the layer is not WebAssembly.
pub proof fn lemma_precompilation_keeps_positions(
    layers: Seq<LayerModel>,
    adapted: Seq<Option<Seq<u8>>>,
    output: Seq<Option<Seq<u8>>>,
)
    requires
        is_precompilation(layers, adapted, output),
    ensures
        output.len() == layers.len(),
        forall|i: int| 0 <= i < layers.len() && !(#[trigger] layers[i]).is_wasm() ==> output[i] is None,
        forall|i: int| 0 <= i < layers.len() && (#[trigger] layers[i]).is_wasm() ==> output[i] is Some,
{
    assert forall|i: int| 0 <= i < layers.len() implies ((#[trigger] layers[i]).is_wasm()
        <==> output[i] is Some) by {
        assert(slot_matches(layers[i], adapted[i], output[i]));
    }
}

/// Where every WebAssembly layer of a list is already compiled, a
/// precompilation holds the bytes of each of them unchanged, at its position.
pub proof fn lemma_precompiled_layers_pass_through(
    layers: Seq<LayerModel>,
    adapted: Seq<Option<Seq<u8>>>,
    output: Seq<Option<Seq<u8>>>,
)
    requires
        is_precompilation(layers, adapted, output),
        forall|i: int|
            0 <= i < layers.len() && (#[trigger] layers[i]).is_wasm() ==> detected_precompiled(
                layers[i].bytes,
            ) is Some,
    ensures
        forall|i: int|
            0 <= i < layers.len() && (#[trigger] layers[i]).is_wasm() ==> output[i] == Some(
                layers[i].bytes,
            ),
{
    assert forall|i: int| 0 <= i < layers.len() && (#[trigger] layers[i]).is_wasm() implies output[i]
        == Some(layers[i].bytes) by {
        assert(slot_matches(layers[i], adapted[i], output[i]));
    }
}

/// What the compiler made of a layer is not the layer: wherever a layer
/// needs the compiler, the slot of a precompilation differs from the
/// layer's own bytes.
pub proof fn lemma_compiled_slots_differ(
    layers: Seq<LayerModel>,
    adapted: Seq<Option<Seq<u8>>>,
    output: Seq<Option<Seq<u8>>>,
    i: int,
)
    requires
        is_precompilation(layers, adapted, output),
        0 <= i < layers.len(),
        needs_compiler(layers[i]),
    ensures
        output[i] is Some,
        output[i] != Some(layers[i].bytes),
{
    assert(slot_matches(layers[i], adapted[i], output[i]));
}

/// The cache key tells digests apart: two digests have the same key exactly
/// when they are the same digest.
pub proof fn lemma_cache_key_tells_digests_apart(a: u64, b: u64)
    ensures
        decimal_text(a as nat) == decimal_text(b as nat) <==> a == b,
{
    if decimal_text(a as nat) == decimal_text(b as nat) {
        crate::decimal::lemma_decimal_text_injective(a as nat, b as nat);
    }
}

/// Engines that hold the same compiler have the same cache key; so an
/// engine and its clones have one key.
pub proof fn lemma_same_compiler_same_key(a: SpinEngine, b: SpinEngine)
    requires
        a.compiler() == b.compiler(),
    ensures
        decimal_text(compatibility_digest_of(a.compiler()) as nat) == decimal_text(
            compatibility_digest_of(b.compiler()) as nat,
        ),
{
}

/// Precompiling what was precompiled changes nothing: put the artifacts of a
/// precompilation in the place of the layers' bytes, and no layer needs the
/// compiler any more, so that every precompilation of the new list is the
/// first output again, byte for byte.
pub proof fn lemma_precompile_twice(
    layers: Seq<LayerModel>,
    adapted: Seq<Option<Seq<u8>>>,
    output: Seq<Option<Seq<u8>>>,
    adapted_again: Seq<Option<Seq<u8>>>,
    output_again: Seq<Option<Seq<u8>>>,
)
    requires
        is_precompilation(layers, adapted, output),
        is_precompilation(with_artifacts(layers, output), adapted_again, output_again),
    ensures
        forall|i: int|
            0 <= i < layers.len() ==> !needs_compiler(#[trigger] with_artifacts(layers, output)[i]),
        output_again == output,
{
    let again = with_artifacts(layers, output);
    assert forall|i: int| 0 <= i < layers.len() implies !needs_compiler(#[trigger] again[i]) by {
        assert(slot_matches(layers[i], adapted[i], output[i]));
    }
    assert forall|i: int| 0 <= i < layers.len() implies #[trigger] output_again[i] == output[i] by {
        assert(slot_matches(layers[i], adapted[i], output[i]));
        assert(slot_matches(again[i], adapted_again[i], output_again[i]));
    }
    assert(output_again =~= output);
}

/// What the compiler engine `engine` makes of the compiler input of a layer
/// that has one: the artifact, or the text of its error.
pub open spec fn compilation_of(
    engine: wasmtime::Engine,
    layer: LayerModel,
    adapted: Option<Seq<u8>>,
) -> Result<Seq<u8>, Seq<char>> {
    precompiled_component_of(engine, compiler_input_of(layer, adapted)->0)
}

/// Whether the compiler engine `engine` accepts a layer: the layer does not
/// need the compiler, or it has a compiler input and the compiler makes an
/// artifact of it.
pub open spec fn compiles(engine: wasmtime::Engine, layer: LayerModel, adapted: Option<Seq<u8>>) -> bool {
    !needs_compiler(layer) || (compiler_input_of(layer, adapted) is Some && compilation_of(
        engine,
        layer,
        adapted,
    ) is Ok)
}

/// Whether `slot` holds, for a layer that needs the compiler, the very
/// artifact that `engine` makes of the layer's compiler input.
pub open spec fn compiled_as(
    engine: wasmtime::Engine,
    layer: LayerModel,
    adapted: Option<Seq<u8>>,
    slot: Option<Seq<u8>>,
) -> bool {
    needs_compiler(layer) ==> (compiler_input_of(layer, adapted) is Some && slot is Some
        && compilation_of(engine, layer, adapted) == Ok::<Seq<u8>, Seq<char>>(slot->0))
}

/// Whether `message` is the compiler's own error for a layer: the layer has
/// a compiler input, and `message` is the text with which `engine` refuses
/// it.
pub open spec fn refused_with(
    engine: wasmtime::Engine,
    layer: LayerModel,
    adapted: Option<Seq<u8>>,
    message: Seq<char>,
) -> bool {
    compiler_input_of(layer, adapted) is Some && compilation_of(engine, layer, adapted) == Err::<
        Seq<u8>,
        Seq<char>,
    >(message)
}

/// Whether `output` is the precompilation of `layers` by `engine`: a
/// precompilation whose compiled slots hold what `engine` makes of the
/// layers' compiler inputs.
pub open spec fn is_precompilation_by(
    engine: wasmtime::Engine,
    layers: Seq<LayerModel>,
    adapted: Seq<Option<Seq<u8>>>,
    output: Seq<Option<Seq<u8>>>,
) -> bool {
    &&& is_precompilation(layers, adapted, output)
    &&& forall|i: int|
        0 <= i < layers.len() ==> compiled_as(engine, #[trigger] layers[i], adapted[i], output[i])
}

/// One engine makes one thing of a list of layers: two precompilations of
/// the same layers, with the same component forms, by the same engine are
/// equal, byte for byte.
pub proof fn lemma_precompilation_is_unique(
    engine: wasmtime::Engine,
    layers: Seq<LayerModel>,
    adapted: Seq<Option<Seq<u8>>>,
    first: Seq<Option<Seq<u8>>>,
    second: Seq<Option<Seq<u8>>>,
)
    requires
        is_precompilation_by(engine, layers, adapted, first),
        is_precompilation_by(engine, layers, adapted, second),
    ensures
        first == second,
{
    assert forall|i: int| 0 <= i < layers.len() implies #[trigger] first[i] == second[i] by {
        assert(slot_matches(layers[i], adapted[i], first[i]));
        assert(slot_matches(layers[i], adapted[i], second[i]));
        assert(compiled_as(engine, layers[i], adapted[i], first[i]));
        assert(compiled_as(engine, layers[i], adapted[i], second[i]));
    }
    assert(first =~= second);
}

/// Whether the layer at `i` is the first that `engine` does not accept.
pub open spec fn is_first_refused(
    engine: wasmtime::Engine,
    layers: Seq<LayerModel>,
    adapted: Seq<Option<Seq<u8>>>,
    i: int,
) -> bool {
    &&& 0 <= i < layers.len()
    &&& !compiles(engine, layers[i], adapted[i])
    &&& forall|j: int| 0 <= j < i ==> compiles(engine, #[trigger] layers[j], adapted[j])
}

/// The bytes to hand to the compiler for a layer of class `class`, if any.
pub fn compiler_input<'a>(
    class: Classification,
    layer: &'a Layer,
    adapted: Option<&'a Vec<u8>>,
) -> (input: Option<&'a Vec<u8>>)
    ensures
        form_bytes(input) == compiler_input_for(class, layer@.bytes, form_bytes(adapted)),
{
    match class {
        Classification::RawWasmModule => adapted,
        Classification::RawWasmComponent => Some(&layer.layer),
        _ => None,
    }
}

/// The output slot of the layer at `index`, given what the compiler made of
/// it: the artifact, or the compiler's refusal as an error.
pub fn compiled_slot(index: usize, compiled: Result<Vec<u8>, String>) -> (slot: Result<
    Option<Vec<u8>>,
    PrecompileError,
>)
    ensures
        match compiled {
            Ok(artifact) => slot == Ok::<Option<Vec<u8>>, PrecompileError>(Some(artifact)),
            Err(message) => slot == Err::<Option<Vec<u8>>, PrecompileError>(
                PrecompileError::Compiler { index, message },
            ),
        },
{
    match compiled {
        Ok(artifact) => Ok(Some(artifact)),
        Err(message) => Err(PrecompileError::Compiler { index, message }),
    }
}

/// The cache key for a compiler engine whose compatibility digest is
/// `digest`: the digest in decimal notation.
pub fn cache_key(digest: u64) -> (key: String)
    ensures
        key@ == decimal_text(digest as nat),
{
    decimal(digest)
}

/// The engine: a compiler engine set up as the host expects.
pub struct SpinEngine {
    pub(crate) wasmtime_engine: wasmtime::Engine,
}

impl Clone for SpinEngine {
    /// Another handle to the same compiler engine.
    fn clone(&self) -> (copy: Self)
        ensures
            copy.compiler() == self.compiler(),
    {
        SpinEngine { wasmtime_engine: self.wasmtime_engine.clone() }
    }
}

impl SpinEngine {
    /// Makes an engine whose compiler has epoch interruption switched on,
    /// which the host expects of the code it runs. Whether the compiler
    /// engine can be made is for it to say.
    pub fn new() -> (made: Result<SpinEngine, EngineError>)
        ensures
            made matches Ok(engine) ==> epoch_interruption_of(engine.compiler()),
    {
        // The host interrupts the code it runs by epoch, so the compiler
        // must emit the checks for it.
        let epoch_interruption = true;
        engine_from(new_engine(epoch_interruption))
    }

    /// The name of the runtime kind.
    pub fn name() -> (name: &'static str)
        ensures
            name@ == ENGINE_NAME@,
    {
        ENGINE_NAME
    }

    /// The media types of the layers the engine accepts.
    pub fn supported_layers_types() -> (types: [&'static str; 4])
        ensures
            types@.len() == 4,
            forall|i: int|
                0 <= i < 4 ==> (#[trigger] types@[i])@ == media::supported_media_types()[i],
    {
        media::supported_layers_types()
    }

    /// Whether the engine can run a container: always, since layers are
    /// selected by media type before they reach the engine.
    pub fn can_handle(&self) -> (handled: Result<(), EngineError>)
        ensures
            handled is Ok,
    {
        Ok(())
    }

    /// Compiles a component: the artifact that the compiler makes of it, or
    /// the compiler's error as text.
    fn compile(&self, component: &Vec<u8>) -> (compiled: Result<Vec<u8>, String>)
        ensures
            match compiled {
                Ok(artifact) => precompiled_component_of(self.compiler(), component@) == Ok::<
                    Seq<u8>,
                    Seq<char>,
                >(artifact@) && detected_precompiled(artifact@) is Some && artifact@.len() > 0,
                Err(text) => precompiled_component_of(self.compiler(), component@) == Err::<
                    Seq<u8>,
                    Seq<char>,
                >(text@),
            },
    {
        precompile_component(&self.wasmtime_engine, component.as_slice())
    }

    /// Precompiles the layer at position `index` of a list. `adapted` is the
    /// component form of the layer, which is needed where the layer is a core
    /// module.
    ///
    /// A layer that is not WebAssembly gives an absent slot, one that is
    /// already compiled gives its own bytes; neither can fail. A core module
    /// without a component form is refused. Any other layer goes to the
    /// compiler, which decides: the call succeeds exactly where the compiler
    /// accepts the layer's compiler input, and the slot then holds the very
    /// artifact that the compiler made of it. Where the compiler refuses,
    /// the error carries the compiler's own text.
    pub fn precompile_layer(&self, index: usize, layer: &Layer, adapted: Option<&Vec<u8>>) -> (slot:
        Result<Option<Vec<u8>>, PrecompileError>)
        ensures
            ({
                let form = form_bytes(adapted);
                match slot {
                    Ok(bytes) => slot_matches(layer@, form, slot_bytes(bytes)),
                    Err(PrecompileError::NotAdapted { index: at }) => at == index
                        && lacks_component(layer@, form),
                    Err(PrecompileError::Compiler { index: at, message }) => at == index
                        && refused_with(self.compiler(), layer@, form, message@),
                }
            }),
            slot is Ok <==> compiles(self.compiler(), layer@, form_bytes(adapted)),
            slot matches Ok(bytes) ==> compiled_as(
                self.compiler(),
                layer@,
                form_bytes(adapted),
                slot_bytes(bytes),
            ),
    {
        let class = classify(layer);
        match class {
            Classification::NonWasm => Ok(None),
            Classification::PrecompiledComponent => Ok(Some(clone_bytes(&layer.layer))),
            _ => match compiler_input(class, layer, adapted) {
                Some(input) => compiled_slot(index, self.compile(input)),
                None => Err(PrecompileError::NotAdapted { index }),
            },
        }
    }

    /// Precompiles a list of layers, slot by slot and in order. `adapted`
    /// holds, at the position of each core module, its component form;
    /// positions that it lacks count as absent.
    ///
    /// Succeeds exactly where the compiler accepts every layer that needs
    /// it. The output is then the precompilation of the layers by this
    /// engine: as long as the list, absent where the layer is not
    /// WebAssembly, the layer's own bytes where it is already compiled, and
    /// elsewhere the artifact that the compiler made of the layer's compiler
    /// input. Otherwise the error names the first layer that is refused, and
    /// says whether it lacked a component form or the compiler rejected it;
    /// in the latter case it carries the compiler's own text.
    pub fn precompile(&self, layers: &[Layer], adapted: &[Option<Vec<u8>>]) -> (output: Result<
        Vec<Option<Vec<u8>>>,
        PrecompileError,
    >)
        ensures
            match output {
                Ok(slots) => is_precompilation_by(
                    self.compiler(),
                    layer_models(layers@),
                    adapted_forms(adapted@, layers@.len()),
                    output_bytes(slots@),
                ),
                Err(PrecompileError::NotAdapted { index }) => is_first_refused(
                    self.compiler(),
                    layer_models(layers@),
                    adapted_forms(adapted@, layers@.len()),
                    index as int,
                ) && lacks_component(layers@[index as int]@, adapted_at(adapted@, index as int)),
                Err(PrecompileError::Compiler { index, message }) => is_first_refused(
                    self.compiler(),
                    layer_models(layers@),
                    adapted_forms(adapted@, layers@.len()),
                    index as int,
                ) && refused_with(
                    self.compiler(),
                    layers@[index as int]@,
                    adapted_at(adapted@, index as int),
                    message@,
                ),
            },
            output is Ok <==> (forall|i: int|
                0 <= i < layers@.len() ==> compiles(
                    self.compiler(),
                    #[trigger] layers@[i]@,
                    adapted_at(adapted@, i),
                )),
            (forall|i: int| 0 <= i < layers@.len() ==> !needs_compiler(#[trigger] layers@[i]@))
                ==> output is Ok,
    {
        let ghost models = layer_models(layers@);
        let ghost forms = adapted_forms(adapted@, layers@.len());
        let mut slots: Vec<Option<Vec<u8>>> = Vec::new();
        let mut i: usize = 0;
        while i < layers.len()
            invariant
                i <= layers@.len(),
                slots@.len() == i,
                models == layer_models(layers@),
                forms == adapted_forms(adapted@, layers@.len()),
                forall|j: int|
                    0 <= j < i ==> slot_matches(
                        #[trigger] layers@[j]@,
                        adapted_at(adapted@, j),
                        slot_bytes(slots@[j]),
                    ),
                forall|j: int|
                    0 <= j < i ==> compiles(
                        self.compiler(),
                        #[trigger] layers@[j]@,
                        adapted_at(adapted@, j),
                    ),
                forall|j: int|
                    0 <= j < i ==> compiled_as(
                        self.compiler(),
                        #[trigger] layers@[j]@,
                        adapted_at(adapted@, j),
                        slot_bytes(slots@[j]),
                    ),
            decreases layers@.len() - i,
        {
            let form: Option<&Vec<u8>> = if i < adapted.len() {
                adapted[i].as_ref()
            } else {
                None
            };
            assert(form_bytes(form) == adapted_at(adapted@, i as int));
            let slot = match self.precompile_layer(i, &layers[i], form) {
                Ok(slot) => slot,
                Err(error) => {
                    proof {
                        assert(!compiles(
                            self.compiler(),
                            layers@[i as int]@,
                            adapted_at(adapted@, i as int),
                        ));
                        assert forall|j: int| 0 <= j < i implies compiles(
                            self.compiler(),
                            #[trigger] models[j],
                            forms[j],
                        ) by {
                            assert(compiles(
                                self.compiler(),
                                layers@[j]@,
                                adapted_at(adapted@, j),
                            ));
                        }
                        assert(is_first_refused(self.compiler(), models, forms, i as int));
                    }
                    return Err(error);
                },
            };
            slots.push(slot);
            i = i + 1;
        }
        proof {
            let out = output_bytes(slots@);
            assert forall|j: int| 0 <= j < models.len() implies slot_matches(
                #[trigger] models[j],
                forms[j],
                out[j],
            ) by {
                assert(slot_matches(layers@[j]@, adapted_at(adapted@, j), slot_bytes(slots@[j])));
            }
            assert forall|j: int| 0 <= j < models.len() implies compiled_as(
                self.compiler(),
                #[trigger] models[j],
                forms[j],
                out[j],
            ) by {
                assert(compiled_as(
                    self.compiler(),
                    layers@[j]@,
                    adapted_at(adapted@, j),
                    slot_bytes(slots@[j]),
                ));
            }
        }
        Ok(slots)
    }

    /// The key under which the host may cache what this engine precompiles:
    /// the decimal notation of the compatibility digest of its compiler.
    pub fn can_precompile(&self) -> (key: Option<String>)
        ensures
            key matches Some(text) && text@ == decimal_text(
                compatibility_digest_of(self.compiler()) as nat,
            ),
    {
        Some(cache_key(compatibility_digest(&self.wasmtime_engine)))
    }
}

impl SpinEngine {
    /// The compiler engine that the engine holds.
    pub closed spec fn compiler(&self) -> wasmtime::Engine {
        self.wasmtime_engine
    }
}

/// The engine around what the making of a compiler engine returned: an
/// engine that holds that very compiler, or the refusal as an error.
pub fn engine_from(made: Result<wasmtime::Engine, anyhow::Error>) -> (engine: Result<
    SpinEngine,
    EngineError,
>)
    ensures
        match made {
            Ok(compiler) => engine matches Ok(around) && around.compiler() == compiler,
            Err(_) => engine is Err,
        },
{
    match made {
        Ok(wasmtime_engine) => Ok(SpinEngine { wasmtime_engine }),
        Err(error) => Err(EngineError { message: error_text(&error) }),
    }
}

} // verus!
