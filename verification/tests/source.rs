use containerd_shim_spin::app::{bare_module_app, LockedApp, LockedComponent};
use containerd_shim_spin::layer::{is_core_module, is_wasm_content, Descriptor, Layer};
use containerd_shim_spin::media::{
    media_kind, supported_layers_types, MediaKind, ARCHIVE_MEDIATYPE, DATA_MEDIATYPE,
    OCI_LAYER_MEDIA_TYPE_WASM, SPIN_APPLICATION_MEDIA_TYPE,
};
use containerd_shim_spin::source::{
    count_of_kind, find_by_digest, find_first_of_kind, resolve_blobs, resolve_source,
    ResolveError, Source,
};

fn layer(media_type: &str, digest: &str) -> Layer {
    Layer {
        config: Descriptor {
            media_type: media_type.to_string(),
            size: 3,
            digest: digest.to_string(),
        },
        layer: vec![1, 2, 3],
    }
}

#[test]
fn media_types_and_their_kinds() {
    assert_eq!(
        supported_layers_types(),
        [
            "application/vnd.wasm.content.layer.v1+wasm",
            "application/vnd.wasm.content.bundle.v1.tar+gzip",
            "application/vnd.wasm.content.layer.v1+data",
            "application/vnd.fermyon.spin.application.v1+config",
        ]
    );
    assert_eq!(media_kind(OCI_LAYER_MEDIA_TYPE_WASM), MediaKind::BareWasm);
    assert_eq!(media_kind(ARCHIVE_MEDIATYPE), MediaKind::Archive);
    assert_eq!(media_kind(DATA_MEDIATYPE), MediaKind::Data);
    assert_eq!(media_kind(SPIN_APPLICATION_MEDIA_TYPE), MediaKind::LockedApplication);
    assert_eq!(media_kind("application/vnd.oci.image.layer.v1.tar"), MediaKind::Other);
    assert_eq!(media_kind(""), MediaKind::Other);
    assert!(is_wasm_content(&layer(OCI_LAYER_MEDIA_TYPE_WASM, "sha256:1")));
    assert!(!is_wasm_content(&layer(DATA_MEDIATYPE, "sha256:1")));
}

#[test]
fn module_header_is_eight_bytes() {
    assert!(is_core_module(&[0x00, 0x61, 0x73, 0x6d, 0x01, 0x00, 0x00, 0x00]));
    assert!(is_core_module(&[0x00, 0x61, 0x73, 0x6d, 0x01, 0x00, 0x00, 0x00, 0xff]));
    assert!(!is_core_module(&[0x00, 0x61, 0x73, 0x6d, 0x0d, 0x00, 0x01, 0x00]));
    assert!(!is_core_module(&[0x00, 0x61, 0x73, 0x6d, 0x01, 0x00, 0x00]));
    assert!(!is_core_module(&[0x00, 0x61, 0x73, 0x6d, 0x01, 0x00, 0x00, 0x01]));
    assert!(!is_core_module(&[]));
}

#[test]
fn no_layers_no_source() {
    assert_eq!(resolve_source(&[]), Err(ResolveError::UnrecognizedLayout));
}

#[test]
fn archive_comes_first() {
    let layers = vec![
        layer(OCI_LAYER_MEDIA_TYPE_WASM, "sha256:1"),
        layer(SPIN_APPLICATION_MEDIA_TYPE, "sha256:2"),
        layer(ARCHIVE_MEDIATYPE, "sha256:3"),
        layer(ARCHIVE_MEDIATYPE, "sha256:4"),
    ];
    assert_eq!(resolve_source(&layers), Ok(Source::OciArchive { layer: 2 }));
}

#[test]
fn locked_application_comes_second() {
    let layers = vec![
        layer(OCI_LAYER_MEDIA_TYPE_WASM, "sha256:1"),
        layer(DATA_MEDIATYPE, "sha256:2"),
        layer(SPIN_APPLICATION_MEDIA_TYPE, "sha256:3"),
        layer(OCI_LAYER_MEDIA_TYPE_WASM, "sha256:4"),
    ];
    assert_eq!(resolve_source(&layers), Ok(Source::OciLayers { manifest: 2 }));
}

#[test]
fn bare_module_image() {
    let layers = vec![
        layer(DATA_MEDIATYPE, "sha256:1"),
        layer(OCI_LAYER_MEDIA_TYPE_WASM, "sha256:2"),
    ];
    assert_eq!(resolve_source(&layers), Ok(Source::BareModule { layer: 1 }));
    let app = bare_module_app(layers[1].config.digest.clone());
    assert_eq!(
        app,
        LockedApp {
            components: vec![LockedComponent {
                id: "main".to_string(),
                source: "sha256:2".to_string()
            }],
            triggers: vec![],
            variables: vec![],
        }
    );
    assert!(app.is_well_formed());
    assert!(app.is_resolved());
}

#[test]
fn two_modules_and_no_manifest_is_no_layout() {
    let layers = vec![
        layer(OCI_LAYER_MEDIA_TYPE_WASM, "sha256:1"),
        layer(OCI_LAYER_MEDIA_TYPE_WASM, "sha256:2"),
    ];
    assert_eq!(resolve_source(&layers), Err(ResolveError::UnrecognizedLayout));
    let layers = vec![layer(DATA_MEDIATYPE, "sha256:1")];
    assert_eq!(resolve_source(&layers), Err(ResolveError::UnrecognizedLayout));
}

#[test]
fn layers_are_found_by_kind_and_counted() {
    let layers = vec![
        layer(DATA_MEDIATYPE, "sha256:1"),
        layer(OCI_LAYER_MEDIA_TYPE_WASM, "sha256:2"),
        layer(DATA_MEDIATYPE, "sha256:3"),
    ];
    assert_eq!(find_first_of_kind(&layers, MediaKind::Data), Some(0));
    assert_eq!(find_first_of_kind(&layers, MediaKind::BareWasm), Some(1));
    assert_eq!(find_first_of_kind(&layers, MediaKind::Archive), None);
    assert_eq!(count_of_kind(&layers, MediaKind::Data), 2);
    assert_eq!(count_of_kind(&layers, MediaKind::BareWasm), 1);
    assert_eq!(count_of_kind(&layers, MediaKind::Other), 0);
}

#[test]
fn blobs_are_found_by_digest() {
    let layers = vec![
        layer(SPIN_APPLICATION_MEDIA_TYPE, "sha256:0"),
        layer(OCI_LAYER_MEDIA_TYPE_WASM, "sha256:1"),
        layer(DATA_MEDIATYPE, "sha256:2"),
        layer(DATA_MEDIATYPE, "sha256:1"),
    ];
    assert_eq!(find_by_digest(&layers, &"sha256:1".to_string()), Some(1));
    assert_eq!(find_by_digest(&layers, &"sha256:9".to_string()), None);
    assert_eq!(
        resolve_blobs(
            &layers,
            &vec!["sha256:2".to_string(), "sha256:1".to_string(), "sha256:2".to_string()]
        ),
        Ok(vec![2, 1, 2])
    );
    assert_eq!(resolve_blobs(&layers, &vec![]), Ok(vec![]));
}

#[test]
fn missing_blob_is_named() {
    let layers = vec![
        layer(SPIN_APPLICATION_MEDIA_TYPE, "sha256:0"),
        layer(DATA_MEDIATYPE, "sha256:2"),
    ];
    assert_eq!(
        resolve_blobs(
            &layers,
            &vec!["sha256:2".to_string(), "sha256:7".to_string(), "sha256:8".to_string()]
        ),
        Err(ResolveError::MissingBlob {
            digest: "sha256:7".to_string()
        })
    );
}
