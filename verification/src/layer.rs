//! Image layers and their classification.

use crate::compiler::{detect_precompiled, detected_precompiled};
use crate::media::{media_kind, media_kind_of, MediaKind};
use vstd::prelude::*;

verus! {

/// What an image says of one of its layers.
#[derive(Clone, Debug, PartialEq, Eq)]
pub struct Descriptor {
    /// The media type of the layer.
    pub media_type: String,
    /// The size of the layer in bytes, as the image states it.
    pub size: u64,
    /// The content digest of the layer.
    pub digest: String,
}

/// One layer of an image: its bytes, and what the image says of it.
#[derive(Clone, Debug, PartialEq, Eq)]
pub struct Layer {
    pub config: Descriptor,
    pub layer: Vec<u8>,
}

/// A layer, as plain values.
pub struct LayerModel {
    pub media_type: Seq<char>,
    pub size: u64,
    pub digest: Seq<char>,
    pub bytes: Seq<u8>,
}

impl View for Layer {
    type V = LayerModel;

    open spec fn view(&self) -> LayerModel {
        LayerModel {
            media_type: self.config.media_type@,
            size: self.config.size,
            digest: self.config.digest@,
            bytes: self.layer@,
        }
    }
}

/// The layers of a list, as plain values.
pub open spec fn layer_models(layers: Seq<Layer>) -> Seq<LayerModel> {
    Seq::new(layers.len(), |i: int| layers[i]@)
}

/// What the precompiler makes of a layer.
#[derive(Clone, Copy, Debug, PartialEq, Eq, Structural)]
pub enum Classification {
    /// Not WebAssembly content: left alone.
    NonWasm,
    /// A core module: adapted into a component, then compiled.
    RawWasmModule,
    /// Any other WebAssembly content: compiled as it is.
    RawWasmComponent,
    /// Already compiled: passed through.
    PrecompiledComponent,
}

/// The eight bytes that every binary core module starts with: the magic
/// number, version 1 and layer 0.
pub open spec fn module_header() -> Seq<u8> {
    seq![0x00u8, 0x61u8, 0x73u8, 0x6du8, 0x01u8, 0x00u8, 0x00u8, 0x00u8]
}

/// Whether the bytes start with the header of a binary core module.
pub open spec fn has_module_header(bytes: Seq<u8>) -> bool {
    bytes.len() >= 8 && bytes.subrange(0, 8) == module_header()
}

/// Tests whether the bytes start with the header of a binary core module.
pub fn is_core_module(bytes: &[u8]) -> (is_module: bool)
    ensures
        is_module == has_module_header(bytes@),
{
    if bytes.len() < 8 {
        return false;
    }
    let is_module = bytes[0] == 0x00 && bytes[1] == 0x61 && bytes[2] == 0x73 && bytes[3] == 0x6d
        && bytes[4] == 0x01 && bytes[5] == 0x00 && bytes[6] == 0x00 && bytes[7] == 0x00;
    proof {
        let head = bytes@.subrange(0, 8);
        if is_module {
            assert(head =~= module_header());
        } else {
            assert(head[0] == bytes@[0] && head[1] == bytes@[1] && head[2] == bytes@[2] && head[3]
                == bytes@[3] && head[4] == bytes@[4] && head[5] == bytes@[5] && head[6]
                == bytes@[6] && head[7] == bytes@[7]);
        }
    }
    is_module
}

impl LayerModel {
    /// Whether the media type says that the layer holds WebAssembly content.
    pub open spec fn is_wasm(self) -> bool {
        media_kind_of(self.media_type) == MediaKind::BareWasm
    }

    /// The classification of the layer. The media type decides whether the
    /// layer is WebAssembly at all; for one that is, the compiler engine's
    /// detection decides whether it is already compiled, and the header
    /// whether it is a core module.
    pub open spec fn classification(self) -> Classification {
        if !self.is_wasm() {
            Classification::NonWasm
        } else if detected_precompiled(self.bytes) is Some {
            Classification::PrecompiledComponent
        } else if has_module_header(self.bytes) {
            Classification::RawWasmModule
        } else {
            Classification::RawWasmComponent
        }
    }
}

/// Whether the media type of the layer says that it holds WebAssembly
/// content.
pub fn is_wasm_content(layer: &Layer) -> (wasm: bool)
    ensures
        wasm == layer@.is_wasm(),
{
    media_kind(layer.config.media_type.as_str()) == MediaKind::BareWasm
}

/// Classifies a layer. A layer that is classified as already compiled is
/// not empty.
pub fn classify(layer: &Layer) -> (class: Classification)
    ensures
        class == layer@.classification(),
        class == Classification::PrecompiledComponent ==> layer@.bytes.len() > 0,
{
    if !is_wasm_content(layer) {
        Classification::NonWasm
    } else if detect_precompiled(layer.layer.as_slice()).is_some() {
        Classification::PrecompiledComponent
    } else if is_core_module(layer.layer.as_slice()) {
        Classification::RawWasmModule
    } else {
        Classification::RawWasmComponent
    }
}

/// Classification depends on nothing but the media type and the bytes: two
/// layers that agree in both are classified alike, however often.
pub proof fn lemma_classification_is_stable(a: LayerModel, b: LayerModel)
    requires
        a.media_type == b.media_type,
        a.bytes == b.bytes,
    ensures
        a.classification() == b.classification(),
{
}

} // verus!
