use std::hash::{Hash, Hasher};

use containerd_shim_spin::engine::{
    engine_from, EngineError, PrecompileError, SpinEngine,
};
use containerd_shim_spin::layer::{classify, Classification, Descriptor, Layer};
use containerd_shim_spin::media::{DATA_MEDIATYPE, OCI_LAYER_MEDIA_TYPE_WASM};

fn layer(media_type: &str, bytes: Vec<u8>) -> Layer {
    Layer {
        config: Descriptor {
            media_type: media_type.to_string(),
            size: 1024,
            digest: "sha256:1234".to_string(),
        },
        layer: bytes,
    }
}

#[test]
fn precompile() {
    let module = wat::parse_str("(module)").unwrap();
    let wasmtime_engine = wasmtime::Engine::default();
    let component = wasmtime::component::Component::new(&wasmtime_engine, "(component)")
        .unwrap()
        .serialize()
        .unwrap();
    let wasm_layers: Vec<Layer> = vec![
        // Needs to be precompiled
        layer(OCI_LAYER_MEDIA_TYPE_WASM, module.clone()),
        // Precompiled
        layer(OCI_LAYER_MEDIA_TYPE_WASM, component.to_owned()),
        // Content that should be skipped
        layer(DATA_MEDIATYPE, vec![]),
    ];
    // The component form of the module in the first layer.
    let adapted = vec![
        Some(wat::parse_str("(component (core module))").unwrap()),
        None,
        None,
    ];
    let spin_engine = SpinEngine::new().expect("engine");
    let precompiled = spin_engine
        .precompile(&wasm_layers, &adapted)
        .expect("precompile failed");
    assert_eq!(precompiled.len(), 3);
    assert_ne!(precompiled[0].as_deref().expect("no first entry"), module);
    assert_eq!(
        precompiled[1].as_deref().expect("no second entry"),
        component
    );
    assert!(precompiled[2].is_none());
}

#[test]
fn precompile_of_no_layers_is_empty() {
    let spin_engine = SpinEngine::new().expect("engine");
    let precompiled = spin_engine.precompile(&[], &[]).expect("precompile failed");
    assert!(precompiled.is_empty());
}

#[test]
fn core_module_without_component_form_is_refused() {
    let module = wat::parse_str("(module)").unwrap();
    let layers = vec![
        layer(DATA_MEDIATYPE, vec![1, 2, 3]),
        layer(OCI_LAYER_MEDIA_TYPE_WASM, module),
    ];
    let spin_engine = SpinEngine::new().expect("engine");
    match spin_engine.precompile(&layers, &[]) {
        Err(PrecompileError::NotAdapted { index }) => assert_eq!(index, 1),
        other => panic!("unexpected: {:?}", other),
    }
}

#[test]
fn compiler_rejects_garbage() {
    let layers = vec![layer(OCI_LAYER_MEDIA_TYPE_WASM, vec![0xde, 0xad, 0xbe, 0xef])];
    let spin_engine = SpinEngine::new().expect("engine");
    match spin_engine.precompile(&layers, &[None]) {
        Err(PrecompileError::Compiler { index, message }) => {
            assert_eq!(index, 0);
            assert!(!message.is_empty());
        }
        other => panic!("unexpected: {:?}", other),
    }
}

#[test]
fn precompiling_twice_changes_nothing() {
    let component = wat::parse_str("(component)").unwrap();
    let layers = vec![
        layer(OCI_LAYER_MEDIA_TYPE_WASM, component),
        layer(DATA_MEDIATYPE, vec![7]),
    ];
    let spin_engine = SpinEngine::new().expect("engine");
    let first = spin_engine.precompile(&layers, &[]).expect("first");
    let again: Vec<Layer> = layers
        .iter()
        .zip(first.iter())
        .map(|(l, slot)| match slot {
            Some(artifact) => layer(&l.config.media_type, artifact.clone()),
            None => layer(&l.config.media_type, l.layer.clone()),
        })
        .collect();
    let second = spin_engine.precompile(&again, &[]).expect("second");
    assert_eq!(first, second);
    let third = spin_engine.precompile(&again, &[]).expect("third");
    assert_eq!(second, third);
}

#[test]
fn classification_of_each_kind() {
    let spin_engine = SpinEngine::new().expect("engine");
    let module = wat::parse_str("(module)").unwrap();
    let component = wat::parse_str("(component)").unwrap();
    let artifact = spin_engine
        .precompile(&[layer(OCI_LAYER_MEDIA_TYPE_WASM, component.clone())], &[])
        .expect("precompile failed")
        .remove(0)
        .expect("artifact");
    assert_eq!(
        classify(&layer(DATA_MEDIATYPE, module.clone())),
        Classification::NonWasm
    );
    assert_eq!(
        classify(&layer(OCI_LAYER_MEDIA_TYPE_WASM, module)),
        Classification::RawWasmModule
    );
    assert_eq!(
        classify(&layer(OCI_LAYER_MEDIA_TYPE_WASM, component)),
        Classification::RawWasmComponent
    );
    let precompiled = layer(OCI_LAYER_MEDIA_TYPE_WASM, artifact);
    assert_eq!(classify(&precompiled), Classification::PrecompiledComponent);
    assert_eq!(classify(&precompiled), classify(&precompiled));
}

#[test]
fn cache_key_is_a_decimal_number_and_stable() {
    let a = SpinEngine::new().expect("engine");
    let b = SpinEngine::new().expect("engine");
    let key = a.can_precompile().expect("key");
    assert!(!key.is_empty());
    assert!(key.chars().all(|c| c.is_ascii_digit()));
    assert_eq!(key.parse::<u64>().unwrap().to_string(), key);
    assert_eq!(a.can_precompile(), b.can_precompile());
    assert_eq!(a.clone().can_precompile(), Some(key));
}

#[test]
fn precompiled_layers_pass_through_unchanged() {
    let spin_engine = SpinEngine::new().expect("engine");
    let wasmtime_engine = wasmtime::Engine::default();
    let first = wasmtime::component::Component::new(&wasmtime_engine, "(component)")
        .unwrap()
        .serialize()
        .unwrap();
    let second = wasmtime::Module::new(&wasmtime_engine, "(module)")
        .unwrap()
        .serialize()
        .unwrap();
    let layers = vec![
        layer(OCI_LAYER_MEDIA_TYPE_WASM, first.clone()),
        layer(DATA_MEDIATYPE, vec![0, 1]),
        layer(OCI_LAYER_MEDIA_TYPE_WASM, second.clone()),
    ];
    assert_eq!(
        spin_engine.precompile(&layers, &[]),
        Ok(vec![Some(first), None, Some(second)])
    );
}

#[test]
fn one_layer_at_a_time() {
    let spin_engine = SpinEngine::new().expect("engine");
    let module = wat::parse_str("(module)").unwrap();
    let form = wat::parse_str("(component (core module))").unwrap();
    let data = layer(DATA_MEDIATYPE, module.clone());
    assert_eq!(spin_engine.precompile_layer(0, &data, Some(&form)), Ok(None));
    let raw = layer(OCI_LAYER_MEDIA_TYPE_WASM, module.clone());
    assert_eq!(
        spin_engine.precompile_layer(4, &raw, None),
        Err(PrecompileError::NotAdapted { index: 4 })
    );
    let artifact = spin_engine
        .precompile_layer(4, &raw, Some(&form))
        .expect("compiled")
        .expect("artifact");
    assert!(!artifact.is_empty());
    assert_ne!(artifact, module);
    assert_ne!(artifact, form);
    assert!(wasmtime::Engine::detect_precompiled(&artifact).is_some());
}

#[test]
fn engine_around_what_the_compiler_engine_returned() {
    let component = wat::parse_str("(component)").unwrap();
    let made = engine_from(Ok(wasmtime::Engine::default()));
    let engine = match made {
        Ok(engine) => engine,
        Err(error) => panic!("unexpected: {:?}", error),
    };
    let slots = engine
        .precompile(&[layer(OCI_LAYER_MEDIA_TYPE_WASM, component)], &[])
        .expect("precompile failed");
    assert!(slots[0].is_some());
    match engine_from(Err(anyhow::Error::msg("no compiler for this host"))) {
        Err(error) => assert_eq!(
            error,
            EngineError {
                message: "no compiler for this host".to_string()
            }
        ),
        Ok(_) => panic!("an engine without a compiler"),
    }
}

#[test]
fn one_engine_makes_the_same_of_the_same_layers() {
    let spin_engine = SpinEngine::new().expect("engine");
    let layers = vec![
        layer(OCI_LAYER_MEDIA_TYPE_WASM, wat::parse_str("(module)").unwrap()),
        layer(DATA_MEDIATYPE, vec![9]),
        layer(OCI_LAYER_MEDIA_TYPE_WASM, wat::parse_str("(component)").unwrap()),
    ];
    let adapted = vec![Some(wat::parse_str("(component (core module))").unwrap())];
    let first = spin_engine.precompile(&layers, &adapted).expect("first");
    let second = spin_engine.precompile(&layers, &adapted).expect("second");
    assert_eq!(first, second);
    assert!(!first[0].as_ref().expect("slot").is_empty());
    assert!(first[1].is_none());
    assert!(!first[2].as_ref().expect("slot").is_empty());
    // The slot of the module holds what the compiler makes of its component form.
    let form = layer(
        OCI_LAYER_MEDIA_TYPE_WASM,
        wat::parse_str("(component (core module))").unwrap(),
    );
    assert_eq!(
        spin_engine.precompile_layer(0, &form, None).expect("form"),
        first[0]
    );
}

#[test]
fn the_first_refused_layer_is_named() {
    let spin_engine = SpinEngine::new().expect("engine");
    let layers = vec![
        layer(OCI_LAYER_MEDIA_TYPE_WASM, wat::parse_str("(component)").unwrap()),
        layer(OCI_LAYER_MEDIA_TYPE_WASM, vec![0x00, 0x61, 0x73, 0x6d, 0x02]),
        layer(OCI_LAYER_MEDIA_TYPE_WASM, wat::parse_str("(module)").unwrap()),
    ];
    match spin_engine.precompile(&layers, &[]) {
        Err(PrecompileError::Compiler { index, .. }) => assert_eq!(index, 1),
        other => panic!("unexpected: {:?}", other),
    }
}

#[test]
fn nothing_is_detected_in_no_bytes() {
    assert_eq!(
        classify(&layer(OCI_LAYER_MEDIA_TYPE_WASM, vec![])),
        Classification::RawWasmComponent
    );
}

fn host_engine(epoch_interruption: bool) -> wasmtime::Engine {
    let mut config = wasmtime::Config::default();
    config.epoch_interruption(epoch_interruption);
    wasmtime::Engine::new(&config).unwrap()
}

fn digest(engine: &wasmtime::Engine) -> String {
    let mut hasher = std::collections::hash_map::DefaultHasher::new();
    engine.precompile_compatibility_hash().hash(&mut hasher);
    hasher.finish().to_string()
}

#[test]
fn the_engine_has_epoch_interruption_on() {
    let spin_engine = SpinEngine::new().expect("engine");
    let key = spin_engine.can_precompile().expect("key");
    assert_eq!(key, digest(&host_engine(true)));
    assert_ne!(key, digest(&host_engine(false)));
}

#[test]
fn a_clone_has_the_same_key_and_compiles_alike() {
    let spin_engine = SpinEngine::new().expect("engine");
    let copy = spin_engine.clone();
    assert_eq!(spin_engine.can_precompile(), copy.can_precompile());
    let layers = vec![layer(
        OCI_LAYER_MEDIA_TYPE_WASM,
        wat::parse_str("(component)").unwrap(),
    )];
    assert_eq!(
        spin_engine.precompile(&layers, &[]),
        copy.precompile(&layers, &[])
    );
}

#[test]
fn a_refusal_carries_the_compilers_own_error() {
    let garbage = vec![0x00, 0x61, 0x73, 0x6d, 0x0d, 0x00, 0x01, 0x00, 0xff, 0xff];
    let expected = format!(
        "{:#}",
        host_engine(true).precompile_component(&garbage).unwrap_err()
    );
    assert!(!expected.is_empty());
    let spin_engine = SpinEngine::new().expect("engine");
    let layers = vec![
        layer(DATA_MEDIATYPE, vec![1]),
        layer(OCI_LAYER_MEDIA_TYPE_WASM, garbage),
    ];
    assert_eq!(
        spin_engine.precompile(&layers, &[]),
        Err(PrecompileError::Compiler {
            index: 1,
            message: expected.clone()
        })
    );
    assert_eq!(
        spin_engine.precompile_layer(1, &layers[1], None),
        Err(PrecompileError::Compiler {
            index: 1,
            message: expected
        })
    );
}
