//! The source resolver: which packaging shape an image has, and where in
//! its layers the application is to be found.

use crate::layer::{layer_models, Layer, LayerModel};
use crate::media::{media_kind, media_kind_of, MediaKind};
use vstd::prelude::*;

verus! {

/// Where an image carries its application.
#[derive(Clone, Copy, Debug, PartialEq, Eq, Structural)]
pub enum Source {
    /// The layer at `layer` is a complete application archive.
    OciArchive { layer: usize },
    /// The layer at `manifest` is a locked-application descriptor; its data
    /// are sibling layers, addressed by digest.
    OciLayers { manifest: usize },
    /// The layer at `layer` is the image's one WebAssembly module, and there
    /// is no descriptor.
    BareModule { layer: usize },
}

/// Why no application could be had from an image.
#[derive(Clone, Debug, PartialEq, Eq)]
pub enum ResolveError {
    /// The layers have none of the shapes that the resolver knows.
    UnrecognizedLayout,
    /// No layer has the digest that the application refers to.
    MissingBlob { digest: String },
    /// A trigger of the application refers to a component that it lacks.
    MalformedManifest,
}

/// A resolution error, as plain values.
pub enum ResolveErrorModel {
    UnrecognizedLayout,
    MissingBlob { digest: Seq<char> },
    MalformedManifest,
}

impl View for ResolveError {
    type V = ResolveErrorModel;

    open spec fn view(&self) -> ResolveErrorModel {
        match *self {
            ResolveError::UnrecognizedLayout => ResolveErrorModel::UnrecognizedLayout,
            ResolveError::MissingBlob { digest } => ResolveErrorModel::MissingBlob {
                digest: digest@,
            },
            ResolveError::MalformedManifest => ResolveErrorModel::MalformedManifest,
        }
    }
}

/// The media kind of a layer.
pub open spec fn kind_of(layer: LayerModel) -> MediaKind {
    media_kind_of(layer.media_type)
}

/// Whether the layer at `i` is the first of kind `kind`.
pub open spec fn is_first_of_kind(layers: Seq<LayerModel>, kind: MediaKind, i: int) -> bool {
    &&& 0 <= i < layers.len()
    &&& kind_of(layers[i]) == kind
    &&& forall|j: int| 0 <= j < i ==> kind_of(#[trigger] layers[j]) != kind
}

/// Whether some layer is of kind `kind`.
pub open spec fn has_kind(layers: Seq<LayerModel>, kind: MediaKind) -> bool {
    exists|i: int| 0 <= i < layers.len() && kind_of(#[trigger] layers[i]) == kind
}

/// The number of layers of kind `kind`.
pub open spec fn count_kind(layers: Seq<LayerModel>, kind: MediaKind) -> nat
    decreases layers.len(),
{
    if layers.len() == 0 {
        0
    } else {
        count_kind(layers.drop_last(), kind) + if kind_of(layers.last()) == kind {
            1nat
        } else {
            0nat
        }
    }
}

/// Whether `source` is the source of an image with these layers. An archive
/// layer comes first; failing that, a locked-application layer; failing
/// that, the one WebAssembly layer of an image that has exactly one. Among
/// several layers of the chosen kind the first one counts.
pub open spec fn is_source_of(layers: Seq<LayerModel>, source: Source) -> bool {
    match source {
        Source::OciArchive { layer } => is_first_of_kind(layers, MediaKind::Archive, layer as int),
        Source::OciLayers { manifest } => {
            &&& !has_kind(layers, MediaKind::Archive)
            &&& is_first_of_kind(layers, MediaKind::LockedApplication, manifest as int)
        },
        Source::BareModule { layer } => {
            &&& !has_kind(layers, MediaKind::Archive)
            &&& !has_kind(layers, MediaKind::LockedApplication)
            &&& count_kind(layers, MediaKind::BareWasm) == 1
            &&& is_first_of_kind(layers, MediaKind::BareWasm, layer as int)
        },
    }
}

/// Whether an image with these layers has no source: no archive, no
/// locked-application layer, and not exactly one WebAssembly layer.
pub open spec fn has_no_source(layers: Seq<LayerModel>) -> bool {
    &&& !has_kind(layers, MediaKind::Archive)
    &&& !has_kind(layers, MediaKind::LockedApplication)
    &&& count_kind(layers, MediaKind::BareWasm) != 1
}

/// An image has at most one source.
pub proof fn lemma_source_is_unique(layers: Seq<LayerModel>, a: Source, b: Source)
    requires
        is_source_of(layers, a),
        is_source_of(layers, b),
    ensures
        a == b,
{
    match (a, b) {
        (Source::OciArchive { layer: x }, Source::OciArchive { layer: y }) => {
            lemma_first_of_kind_is_unique(layers, MediaKind::Archive, x as int, y as int);
        },
        (Source::OciLayers { manifest: x }, Source::OciLayers { manifest: y }) => {
            lemma_first_of_kind_is_unique(layers, MediaKind::LockedApplication, x as int, y as int);
        },
        (Source::BareModule { layer: x }, Source::BareModule { layer: y }) => {
            lemma_first_of_kind_is_unique(layers, MediaKind::BareWasm, x as int, y as int);
        },
        (Source::OciArchive { layer: x }, _) => {
            assert(kind_of(layers[x as int]) == MediaKind::Archive);
        },
        (_, Source::OciArchive { layer: y }) => {
            assert(kind_of(layers[y as int]) == MediaKind::Archive);
        },
        (Source::OciLayers { manifest: x }, _) => {
            assert(kind_of(layers[x as int]) == MediaKind::LockedApplication);
        },
        (_, Source::OciLayers { manifest: y }) => {
            assert(kind_of(layers[y as int]) == MediaKind::LockedApplication);
        },
    }
}

/// The first layer of a kind is one layer.
pub proof fn lemma_first_of_kind_is_unique(layers: Seq<LayerModel>, kind: MediaKind, i: int, j: int)
    requires
        is_first_of_kind(layers, kind, i),
        is_first_of_kind(layers, kind, j),
    ensures
        i == j,
{
    if i < j {
        assert(kind_of(layers[i]) != kind);
    } else if j < i {
        assert(kind_of(layers[j]) != kind);
    }
}

/// An image without layers has no source.
pub proof fn lemma_no_layers_no_source()
    ensures
        has_no_source(Seq::<LayerModel>::empty()),
{
}

/// No layer of a kind is counted where there is none, and the other way
/// round.
pub proof fn lemma_count_kind_zero(layers: Seq<LayerModel>, kind: MediaKind)
    ensures
        count_kind(layers, kind) == 0 <==> !has_kind(layers, kind),
    decreases layers.len(),
{
    if layers.len() > 0 {
        let shorter = layers.drop_last();
        lemma_count_kind_zero(shorter, kind);
        if count_kind(layers, kind) == 0 {
            assert forall|i: int| 0 <= i < layers.len() implies kind_of(#[trigger] layers[i])
                != kind by {
                if i < shorter.len() {
                    assert(shorter[i] == layers[i]);
                }
            }
        } else if count_kind(shorter, kind) != 0 {
            let i = choose|i: int| 0 <= i < shorter.len() && kind_of(#[trigger] shorter[i]) == kind;
            assert(layers[i] == shorter[i]);
        } else {
            assert(kind_of(layers[layers.len() - 1]) == kind);
        }
    }
}

/// Finds the first layer of kind `kind`.
pub fn find_first_of_kind(layers: &[Layer], kind: MediaKind) -> (found: Option<usize>)
    ensures
        match found {
            Some(i) => is_first_of_kind(layer_models(layers@), kind, i as int),
            None => !has_kind(layer_models(layers@), kind),
        },
{
    let ghost models = layer_models(layers@);
    let mut i: usize = 0;
    while i < layers.len()
        invariant
            i <= layers@.len(),
            models == layer_models(layers@),
            forall|j: int| 0 <= j < i ==> kind_of(#[trigger] models[j]) != kind,
        decreases layers@.len() - i,
    {
        if media_kind(layers[i].config.media_type.as_str()) == kind {
            assert(kind_of(models[i as int]) == kind);
            return Some(i);
        }
        i = i + 1;
    }
    None
}

/// Counts the layers of kind `kind`.
pub fn count_of_kind(layers: &[Layer], kind: MediaKind) -> (count: usize)
    ensures
        count == count_kind(layer_models(layers@), kind),
{
    let ghost models = layer_models(layers@);
    let mut count: usize = 0;
    let mut i: usize = 0;
    assert(models.take(0) =~= Seq::<LayerModel>::empty());
    while i < layers.len()
        invariant
            i <= layers@.len(),
            models == layer_models(layers@),
            count <= i,
            count == count_kind(models.take(i as int), kind),
        decreases layers@.len() - i,
    {
        proof {
            assert(models.take(i + 1).drop_last() =~= models.take(i as int));
            assert(models.take(i + 1).last() == models[i as int]);
        }
        if media_kind(layers[i].config.media_type.as_str()) == kind {
            count = count + 1;
        }
        i = i + 1;
    }
    assert(models.take(i as int) =~= models);
    count
}

/// Decides where an image carries its application.
///
/// Succeeds with the source of the image where it has one, and fails with
/// `UnrecognizedLayout` where it has none; an image without layers has none.
pub fn resolve_source(layers: &[Layer]) -> (resolved: Result<Source, ResolveError>)
    ensures
        match resolved {
            Ok(source) => is_source_of(layer_models(layers@), source),
            Err(ResolveError::UnrecognizedLayout) => has_no_source(layer_models(layers@)),
            Err(_) => false,
        },
{
    if let Some(layer) = find_first_of_kind(layers, MediaKind::Archive) {
        return Ok(Source::OciArchive { layer });
    }
    if let Some(manifest) = find_first_of_kind(layers, MediaKind::LockedApplication) {
        return Ok(Source::OciLayers { manifest });
    }
    if count_of_kind(layers, MediaKind::BareWasm) == 1 {
        match find_first_of_kind(layers, MediaKind::BareWasm) {
            Some(layer) => Ok(Source::BareModule { layer }),
            None => {
                proof {
                    lemma_count_kind_zero(layer_models(layers@), MediaKind::BareWasm);
                }
                Err(ResolveError::UnrecognizedLayout)
            },
        }
    } else {
        Err(ResolveError::UnrecognizedLayout)
    }
}

/// Whether the layer at `i` is the first whose digest is `digest`.
pub open spec fn is_first_with_digest(layers: Seq<LayerModel>, digest: Seq<char>, i: int) -> bool {
    &&& 0 <= i < layers.len()
    &&& layers[i].digest == digest
    &&& forall|j: int| 0 <= j < i ==> (#[trigger] layers[j]).digest != digest
}

/// Whether some layer has the digest `digest`.
pub open spec fn has_digest(layers: Seq<LayerModel>, digest: Seq<char>) -> bool {
    exists|i: int| 0 <= i < layers.len() && (#[trigger] layers[i]).digest == digest
}

/// Finds the first layer whose digest is `digest`.
pub fn find_by_digest(layers: &[Layer], digest: &String) -> (found: Option<usize>)
    ensures
        match found {
            Some(i) => is_first_with_digest(layer_models(layers@), digest@, i as int),
            None => !has_digest(layer_models(layers@), digest@),
        },
{
    let ghost models = layer_models(layers@);
    let mut i: usize = 0;
    while i < layers.len()
        invariant
            i <= layers@.len(),
            models == layer_models(layers@),
            forall|j: int| 0 <= j < i ==> (#[trigger] models[j]).digest != digest@,
        decreases layers@.len() - i,
    {
        if layers[i].config.digest == *digest {
            assert(models[i as int].digest == digest@);
            return Some(i);
        }
        i = i + 1;
    }
    None
}

/// Finds, for each digest that an application refers to, the layer that
/// holds the data.
///
/// Succeeds where every digest is that of some layer, with the position of
/// the first such layer for each digest, in the order of `digests`.
/// Otherwise the error names the first digest that no layer has.
pub fn resolve_blobs(layers: &[Layer], digests: &Vec<String>) -> (resolved: Result<
    Vec<usize>,
    ResolveError,
>)
    ensures
        match resolved {
            Ok(found) => found@.len() == digests@.len() && forall|k: int|
                0 <= k < digests@.len() ==> is_first_with_digest(
                    layer_models(layers@),
                    digests@[k]@,
                    #[trigger] found@[k] as int,
                ),
            Err(ResolveError::MissingBlob { digest }) => exists|k: int|
                0 <= k < digests@.len() && digest@ == (#[trigger] digests@[k])@ && !has_digest(
                    layer_models(layers@),
                    digests@[k]@,
                ) && forall|j: int|
                    0 <= j < k ==> has_digest(layer_models(layers@), (#[trigger] digests@[j])@),
            Err(_) => false,
        },
{
    let ghost models = layer_models(layers@);
    let mut found: Vec<usize> = Vec::new();
    let mut k: usize = 0;
    while k < digests.len()
        invariant
            k <= digests@.len(),
            models == layer_models(layers@),
            found@.len() == k,
            forall|j: int|
                0 <= j < k ==> is_first_with_digest(models, digests@[j]@, #[trigger] found@[j] as int),
        decreases digests@.len() - k,
    {
        match find_by_digest(layers, &digests[k]) {
            Some(i) => {
                found.push(i);
            },
            None => {
                proof {
                    assert forall|j: int| 0 <= j < k implies has_digest(
                        models,
                        (#[trigger] digests@[j])@,
                    ) by {
                        assert(is_first_with_digest(models, digests@[j]@, found@[j] as int));
                    }
                }
                return Err(ResolveError::MissingBlob { digest: digests[k].clone() });
            },
        }
        k = k + 1;
    }
    Ok(found)
}

} // verus!
