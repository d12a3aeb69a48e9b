//! The OCI media types the engine consumes.

use crate::text::same_text;
use vstd::prelude::*;

verus! {

/// Media type of a layer that holds WebAssembly content.
pub const OCI_LAYER_MEDIA_TYPE_WASM: &'static str = "application/vnd.wasm.content.layer.v1+wasm";

/// Media type of a layer that holds a compressed archive of application files.
pub const ARCHIVE_MEDIATYPE: &'static str = "application/vnd.wasm.content.bundle.v1.tar+gzip";

/// Media type of a layer that holds a generic data file of an application.
pub const DATA_MEDIATYPE: &'static str = "application/vnd.wasm.content.layer.v1+data";

/// Media type of a layer that holds a locked application configuration.
pub const SPIN_APPLICATION_MEDIA_TYPE: &'static str =
    "application/vnd.fermyon.spin.application.v1+config";

/// What a layer's media type says the layer is.
#[derive(Clone, Copy, Debug, PartialEq, Eq, Structural)]
pub enum MediaKind {
    /// WebAssembly content: the only candidate for compilation.
    BareWasm,
    /// A complete application archive.
    Archive,
    /// A generic data blob, addressed by digest.
    Data,
    /// A locked-application descriptor.
    LockedApplication,
    /// Any other media type: inert.
    Other,
}

/// The kind that a media type text denotes.
pub open spec fn media_kind_of(media_type: Seq<char>) -> MediaKind {
    if media_type == OCI_LAYER_MEDIA_TYPE_WASM@ {
        MediaKind::BareWasm
    } else if media_type == ARCHIVE_MEDIATYPE@ {
        MediaKind::Archive
    } else if media_type == DATA_MEDIATYPE@ {
        MediaKind::Data
    } else if media_type == SPIN_APPLICATION_MEDIA_TYPE@ {
        MediaKind::LockedApplication
    } else {
        MediaKind::Other
    }
}

/// Classifies a media type text.
pub fn media_kind(media_type: &str) -> (kind: MediaKind)
    ensures
        kind == media_kind_of(media_type@),
{
    if same_text(media_type, OCI_LAYER_MEDIA_TYPE_WASM) {
        MediaKind::BareWasm
    } else if same_text(media_type, ARCHIVE_MEDIATYPE) {
        MediaKind::Archive
    } else if same_text(media_type, DATA_MEDIATYPE) {
        MediaKind::Data
    } else if same_text(media_type, SPIN_APPLICATION_MEDIA_TYPE) {
        MediaKind::LockedApplication
    } else {
        MediaKind::Other
    }
}

/// The media types of the layers the engine accepts, in a fixed order.
pub open spec fn supported_media_types() -> Seq<Seq<char>> {
    seq![
        OCI_LAYER_MEDIA_TYPE_WASM@,
        ARCHIVE_MEDIATYPE@,
        DATA_MEDIATYPE@,
        SPIN_APPLICATION_MEDIA_TYPE@,
    ]
}

/// The media types of the layers the engine accepts: WebAssembly content,
/// application archive, data blob and locked application, in that order.
pub fn supported_layers_types() -> (types: [&'static str; 4])
    ensures
        types@.len() == 4,
        forall|i: int| 0 <= i < 4 ==> (#[trigger] types@[i])@ == supported_media_types()[i],
{
    [
        OCI_LAYER_MEDIA_TYPE_WASM,
        ARCHIVE_MEDIATYPE,
        DATA_MEDIATYPE,
        SPIN_APPLICATION_MEDIA_TYPE,
    ]
}

} // verus!
