use std::sync::Arc;
use wasmer_core::instance::{
    ExportDecl, ExportIndex, Extern, ExternType, ImportDecl, Imports, Instance,
    InstantiationError, LinkError, Module, NativeHandle,
};

const SIG_I32: ExternType = ExternType::Function { sig: 0 };

fn forwarding_module() -> Arc<Module> {
    Arc::new(Module {
        imports: vec![ImportDecl { module: "env".to_string(), name: "answer".to_string(), ty: SIG_I32 }],
        n_locals: 1,
        exports: vec![
            ExportDecl { name: "get".to_string(), index: ExportIndex::Import(0) },
            ExportDecl { name: "memory".to_string(), index: ExportIndex::Local(0) },
        ],
    })
}

fn host_fn(id: u64) -> Extern {
    Extern { ty: SIG_I32, handle: id }
}

fn imports_with(answer: u64) -> Imports {
    let mut imports = Imports::new();
    imports.define("env", "answer", host_fn(answer));
    imports
}

fn memory(handle: u64) -> Extern {
    Extern { ty: ExternType::Memory { minimum: 1 }, handle }
}

#[test]
fn create_then_duplicate_keeps_imports_apart() {
    let module = forwarding_module();
    let first = Instance::new(
        module,
        &imports_with(42),
        |_vals: &Vec<Extern>| Ok(NativeHandle { id: 1, locals: vec![memory(100)] }),
        |_i: &Instance| Ok(()),
    )
    .unwrap();
    let second = first
        .duplicate(
            &imports_with(1337),
            |_src: &NativeHandle, _vals: &Vec<Extern>| NativeHandle {
                id: 2,
                locals: vec![memory(200)],
            },
            |_i: &Instance| Ok(()),
        )
        .unwrap();
    assert_eq!(first.export("get"), Some(host_fn(42)));
    assert_eq!(second.export("get"), Some(host_fn(1337)));
    assert_eq!(first.export("memory"), Some(memory(100)));
    assert_eq!(second.export("memory"), Some(memory(200)));
    assert_eq!(first.imports(), &vec![host_fn(42)]);
    assert_eq!(second.imports(), &vec![host_fn(1337)]);
    assert_eq!(first.export("missing"), None);
    assert_eq!(first.exports().len(), 2);
    assert_eq!(first.module().exports.len(), 2);
}

#[test]
fn missing_import_is_a_link_error() {
    let r = Instance::new(
        forwarding_module(),
        &Imports::new(),
        |_vals: &Vec<Extern>| Ok(NativeHandle { id: 1, locals: vec![memory(1)] }),
        |_i: &Instance| Ok(()),
    );
    assert_eq!(
        r.unwrap_err(),
        InstantiationError::Link(LinkError::Missing {
            module: "env".to_string(),
            name: "answer".to_string()
        })
    );
}

#[test]
fn mismatched_import_is_a_link_error() {
    let mut imports = Imports::new();
    imports.define("env", "answer", memory(5));
    let r = Instance::new(
        forwarding_module(),
        &imports,
        |_vals: &Vec<Extern>| Ok(NativeHandle { id: 1, locals: vec![memory(1)] }),
        |_i: &Instance| Ok(()),
    );
    assert_eq!(
        r.unwrap_err(),
        InstantiationError::Link(LinkError::Mismatch {
            module: "env".to_string(),
            name: "answer".to_string(),
            expected: SIG_I32,
            found: ExternType::Memory { minimum: 1 },
        })
    );
}

#[test]
fn later_definition_replaces_earlier() {
    let mut imports = imports_with(1);
    imports.define("env", "answer", host_fn(2));
    assert_eq!(imports.get(&"env".to_string(), &"answer".to_string()), Some(host_fn(2)));
    assert_eq!(imports.get(&"env".to_string(), &"other".to_string()), None);
}

#[test]
fn larger_memory_satisfies_smaller_declaration() {
    let module = Arc::new(Module {
        imports: vec![ImportDecl {
            module: "env".to_string(),
            name: "mem".to_string(),
            ty: ExternType::Memory { minimum: 2 },
        }],
        n_locals: 0,
        exports: vec![],
    });
    let mut big = Imports::new();
    big.define("env", "mem", Extern { ty: ExternType::Memory { minimum: 4 }, handle: 9 });
    let ok = Instance::new(
        module.clone(),
        &big,
        |_v: &Vec<Extern>| Ok(NativeHandle { id: 1, locals: vec![] }),
        |_i: &Instance| Ok(()),
    );
    assert!(ok.is_ok());
    let mut small = Imports::new();
    small.define("env", "mem", Extern { ty: ExternType::Memory { minimum: 1 }, handle: 9 });
    let err = Instance::new(
        module,
        &small,
        |_v: &Vec<Extern>| Ok(NativeHandle { id: 1, locals: vec![] }),
        |_i: &Instance| Ok(()),
    );
    assert!(matches!(err, Err(InstantiationError::Link(LinkError::Mismatch { .. }))));
}

#[test]
fn engine_and_host_env_failures_are_reported() {
    let r = Instance::new(
        forwarding_module(),
        &imports_with(1),
        |_v: &Vec<Extern>| Err(InstantiationError::Start("trap in start".to_string())),
        |_i: &Instance| Ok(()),
    );
    assert_eq!(r.unwrap_err(), InstantiationError::Start("trap in start".to_string()));
    let r = Instance::new(
        forwarding_module(),
        &imports_with(1),
        |_v: &Vec<Extern>| Ok(NativeHandle { id: 1, locals: vec![memory(1)] }),
        |_i: &Instance| Err("env failed".to_string()),
    );
    assert_eq!(
        r.unwrap_err(),
        InstantiationError::HostEnvInitialization("env failed".to_string())
    );
}

#[test]
fn duplicate_with_missing_import_fails_and_leaves_source() {
    let first = Instance::new(
        forwarding_module(),
        &imports_with(42),
        |_v: &Vec<Extern>| Ok(NativeHandle { id: 1, locals: vec![memory(1)] }),
        |_i: &Instance| Ok(()),
    )
    .unwrap();
    let r = first.duplicate(
        &Imports::new(),
        |_s: &NativeHandle, _v: &Vec<Extern>| NativeHandle { id: 2, locals: vec![memory(2)] },
        |_i: &Instance| Ok(()),
    );
    assert!(matches!(r, Err(InstantiationError::Link(LinkError::Missing { .. }))));
    assert_eq!(first.export("get"), Some(host_fn(42)));
}

fn is_send<T: Send>() -> bool {
    true
}

#[test]
fn instance_is_send() {
    assert!(is_send::<Instance>());
}

#[test]
fn new_by_index_checks_position_and_type() {
    let ok = Instance::new_by_index(
        forwarding_module(),
        &[host_fn(42)],
        |_v: &Vec<Extern>| Ok(NativeHandle { id: 1, locals: vec![memory(1)] }),
        |_i: &Instance| Ok(()),
    )
    .unwrap();
    assert_eq!(ok.export("get"), Some(host_fn(42)));

    let missing = Instance::new_by_index(
        forwarding_module(),
        &[],
        |_v: &Vec<Extern>| Ok(NativeHandle { id: 1, locals: vec![memory(1)] }),
        |_i: &Instance| Ok(()),
    );
    assert_eq!(
        missing.unwrap_err(),
        InstantiationError::Link(LinkError::Missing {
            module: "env".to_string(),
            name: "answer".to_string()
        })
    );

    let wrong = Instance::new_by_index(
        forwarding_module(),
        &[memory(3)],
        |_v: &Vec<Extern>| Ok(NativeHandle { id: 1, locals: vec![memory(1)] }),
        |_i: &Instance| Ok(()),
    );
    assert!(matches!(wrong, Err(InstantiationError::Link(LinkError::Mismatch { .. }))));
}
