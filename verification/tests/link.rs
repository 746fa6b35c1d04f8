use wasmer::sys::{BaseTunables, Cranelift, EngineBuilder, Features, NativeEngineExt};
use wasmer::{
    AsStoreMut, Engine, Extern, Function, Instance, Memory, MemoryType, Module, Pages, Store,
    StoreMut,
};
use webxtism::engine::ExportError;
use webxtism::link::{instantiate_module, ExternMap, NamedModule};
use webxtism::names::NameMap;
use webxtism::PluginInstantiationError;

/// A store whose memories reserve no more address space than they use.
fn new_store() -> Store {
    let mut engine = Engine::default();
    engine.set_tunables(BaseTunables {
        static_memory_bound: Pages(0),
        static_memory_offset_guard_size: 0x10000,
        dynamic_memory_offset_guard_size: 0x10000,
    });
    Store::new(engine)
}

fn modules(store: &StoreMut<'_>, texts: &[(&str, &str)]) -> NameMap<NamedModule> {
    let mut modules = NameMap::new();
    for (name, text) in texts {
        let module = Module::new(store, text).unwrap();
        modules.insert(name.to_string(), NamedModule { name: name.to_string(), module });
    }
    modules
}

fn start(
    store: &mut StoreMut<'_>,
    all: &NameMap<NamedModule>,
    name: &str,
    loaded: &mut NameMap<Instance>,
) -> Result<(), PluginInstantiationError> {
    let external = ExternMap::new();
    instantiate_module(store, all.get(name).unwrap(), loaded, all, &external, &Vec::new())
}

fn call(store: &mut StoreMut<'_>, loaded: &NameMap<Instance>, module: &str, name: &str) -> i32 {
    let instance = loaded.get(module).unwrap();
    let function = instance.exports.get_typed_function::<(), i32>(store, name).unwrap();
    function.call(store).unwrap()
}

const ONE: &str = r#"(module (func (export "f") (result i32) (i32.const 1)))"#;

#[test]
fn dependencies_start_first() {
    let mut store = new_store();
    let mut store = store.as_store_mut();
    let all = modules(
        &store,
        &[
            ("a", r#"(module (import "b" "f" (func (result i32))) (export "g" (func 0)))"#),
            ("b", r#"(module (import "c" "f" (func (result i32))) (export "f" (func 0)))"#),
            ("c", ONE),
            ("d", ONE),
        ],
    );
    let mut loaded = NameMap::new();
    assert!(start(&mut store, &all, "a", &mut loaded).is_ok());
    assert_eq!(loaded.len(), 3);
    assert_eq!(call(&mut store, &loaded, "a", "g"), 1);
    assert!(start(&mut store, &all, "a", &mut loaded).is_ok());
    assert_eq!(loaded.len(), 3);
    assert!(start(&mut store, &all, "d", &mut loaded).is_ok());
    assert_eq!(loaded.len(), 4);
}

#[test]
fn modules_start_only_once() {
    let mut store = new_store();
    let mut store = store.as_store_mut();
    let all = modules(
        &store,
        &[
            (
                "counter",
                r#"(module (global $n (mut i32) (i32.const 0))
                  (func (export "f") (result i32)
                    (global.set $n (i32.add (global.get $n) (i32.const 1))) (global.get $n)))"#,
            ),
            ("x", r#"(module (import "counter" "f" (func (result i32))) (export "f" (func 0)))"#),
            ("y", r#"(module (import "counter" "f" (func (result i32))) (export "f" (func 0)))"#),
        ],
    );
    let mut loaded = NameMap::new();
    assert!(start(&mut store, &all, "x", &mut loaded).is_ok());
    assert!(start(&mut store, &all, "y", &mut loaded).is_ok());
    assert_eq!(call(&mut store, &loaded, "x", "f"), 1);
    assert_eq!(call(&mut store, &loaded, "y", "f"), 2);
}

#[test]
fn circles_are_refused() {
    let mut store = new_store();
    let mut store = store.as_store_mut();
    let all = modules(
        &store,
        &[
            ("a", r#"(module (import "b" "f" (func)) (export "f" (func 0)))"#),
            ("b", r#"(module (import "a" "f" (func)) (export "f" (func 0)))"#),
            ("c", r#"(module (import "c" "f" (func)) (export "f" (func 0)))"#),
        ],
    );
    let mut loaded = NameMap::new();
    for name in ["a", "b", "c"] {
        assert!(matches!(
            start(&mut store, &all, name, &mut loaded),
            Err(PluginInstantiationError::CyclicDependency)
        ));
    }
    assert_eq!(loaded.len(), 0);
}

#[test]
fn missing_modules_are_reported() {
    let mut store = new_store();
    let mut store = store.as_store_mut();
    let all = modules(&store, &[("a", r#"(module (import "b" "f" (func)))"#)]);
    let mut loaded = NameMap::new();
    match start(&mut store, &all, "a", &mut loaded) {
        Err(PluginInstantiationError::Export(ExportError::Missing(name))) => assert_eq!(name, "b"),
        _ => panic!("the module was found"),
    }
}

#[test]
fn missing_exports_are_reported() {
    let mut store = new_store();
    let mut store = store.as_store_mut();
    let all = modules(&store, &[("a", r#"(module (import "c" "g" (func)))"#), ("c", ONE)]);
    let mut loaded = NameMap::new();
    match start(&mut store, &all, "a", &mut loaded) {
        Err(PluginInstantiationError::MissingExport(module, name)) => {
            assert_eq!((module.as_str(), name.as_str()), ("c", "g"));
        }
        _ => panic!("the export was found"),
    }
    assert_eq!(loaded.len(), 1);
}

#[test]
fn types_have_to_fit() {
    let mut store = new_store();
    let mut store = store.as_store_mut();
    let all = modules(&store, &[("a", r#"(module (import "c" "f" (func)))"#), ("c", ONE)]);
    let mut loaded = NameMap::new();
    match start(&mut store, &all, "a", &mut loaded) {
        Err(PluginInstantiationError::IncompatibleType(module, name)) => {
            assert_eq!((module.as_str(), name.as_str()), ("c", "f"));
        }
        _ => panic!("the type fitted"),
    }
}

#[test]
fn tables_may_be_larger_than_asked_for() {
    let mut store = new_store();
    let mut store = store.as_store_mut();
    let all = modules(
        &store,
        &[
            ("t", r#"(module (table (export "t") 4 8 funcref) (global (export "g") i32 (i32.const 3)))"#),
            ("small", r#"(module (import "t" "t" (table 2 10 funcref)))"#),
            ("large", r#"(module (import "t" "t" (table 5 funcref)))"#),
            ("tight", r#"(module (import "t" "t" (table 2 7 funcref)))"#),
            ("global", r#"(module (import "t" "g" (global i32)))"#),
            ("mutable", r#"(module (import "t" "g" (global (mut i32))))"#),
        ],
    );
    let mut loaded = NameMap::new();
    assert!(start(&mut store, &all, "small", &mut loaded).is_ok());
    assert!(start(&mut store, &all, "global", &mut loaded).is_ok());
    for name in ["large", "tight", "mutable"] {
        assert!(matches!(
            start(&mut store, &all, name, &mut loaded),
            Err(PluginInstantiationError::IncompatibleType(_, _))
        ));
    }
}

#[test]
fn nothing_but_functions_comes_from_the_kernel() {
    let mut store = new_store();
    let mut store = store.as_store_mut();
    let all = modules(
        &store,
        &[
            ("a", r#"(module (import "extism:host/env" "memory" (memory 1)))"#),
            ("b", r#"(module (import "extism:host/env" "g" (global i32)))"#),
        ],
    );
    let mut loaded = NameMap::new();
    for name in ["a", "b"] {
        assert!(matches!(
            start(&mut store, &all, name, &mut loaded),
            Err(PluginInstantiationError::NonFunctionKernelAccess)
        ));
    }
}

#[test]
fn memories_are_made_in_one_namespace() {
    let mut store = new_store();
    let mut store = store.as_store_mut();
    let all = modules(
        &store,
        &[
            (
                "a",
                r#"(module (import "env" "memory" (memory 2))
                  (func (export "f") (result i32) (memory.size)))"#,
            ),
            ("b", r#"(module (import "a" "memory" (memory 1)))"#),
        ],
    );
    let mut loaded = NameMap::new();
    assert!(start(&mut store, &all, "a", &mut loaded).is_ok());
    assert_eq!(call(&mut store, &loaded, "a", "f"), 2);
    match start(&mut store, &all, "b", &mut loaded) {
        Err(PluginInstantiationError::MissingExport(module, name)) => {
            assert_eq!((module.as_str(), name.as_str()), ("a", "memory"));
        }
        _ => panic!("the memory was shared"),
    }
}

#[test]
fn memories_that_cannot_be_are_refused() {
    let mut store = new_store();
    let mut store = store.as_store_mut();
    let all = modules(&store, &[("a", r#"(module (import "env" "memory" (memory 65536)))"#)]);
    let mut loaded = NameMap::new();
    assert!(matches!(
        start(&mut store, &all, "a", &mut loaded),
        Err(PluginInstantiationError::Memory(_))
    ));
}

#[test]
fn traps_at_the_start_are_reported() {
    let mut store = new_store();
    let mut store = store.as_store_mut();
    let all = modules(&store, &[("a", "(module (func $f unreachable) (start $f))")]);
    let mut loaded = NameMap::new();
    assert!(matches!(
        start(&mut store, &all, "a", &mut loaded),
        Err(PluginInstantiationError::Wasmer(_))
    ));
    assert_eq!(loaded.len(), 0);
}

#[test]
fn what_the_host_provides_comes_first() {
    let mut store = new_store();
    let mut store = store.as_store_mut();
    let all = modules(
        &store,
        &[
            ("a", r#"(module (import "c" "f" (func (result i32))) (export "f" (func 0)))"#),
            ("c", ONE),
        ],
    );
    let first: Extern = Function::new_typed(&mut store, || 5i32).into();
    let second: Extern = Function::new_typed(&mut store, || 7i32).into();
    let mut external = ExternMap::new();
    external.insert("c".to_string(), "f".to_string(), first);
    external.insert("c".to_string(), "f".to_string(), second);
    assert!(external.get("c", "g").is_none());
    assert!(external.get("c", "f").is_some());
    let mut loaded = NameMap::new();
    let module = all.get("a").unwrap();
    let result =
        instantiate_module(&mut store, module, &mut loaded, &all, &external, &Vec::new());
    assert!(result.is_ok());
    assert_eq!(loaded.len(), 1);
    assert_eq!(call(&mut store, &loaded, "a", "f"), 7);
}

#[test]
fn what_the_host_provides_has_to_fit() {
    let mut store = new_store();
    let mut store = store.as_store_mut();
    let all = modules(&store, &[("a", r#"(module (import "h" "f" (func)))"#)]);
    let mut external = ExternMap::new();
    let memory = Memory::new(&mut store, MemoryType::new(1, None, false)).unwrap();
    external.insert("h".to_string(), "f".to_string(), memory.into());
    let mut loaded = NameMap::new();
    let module = all.get("a").unwrap();
    let result =
        instantiate_module(&mut store, module, &mut loaded, &all, &external, &Vec::new());
    assert!(matches!(result, Err(PluginInstantiationError::IncompatibleType(_, _))));
}

#[test]
fn modules_that_fail_do_not_run() {
    let mut store = new_store();
    let mut store = store.as_store_mut();
    let all = modules(
        &store,
        &[
            ("a", r#"(module (import "c" "f" (func (result i32))) (import "b" "f" (func)))"#),
            ("b", r#"(module (func $f (export "f") unreachable) (start $f))"#),
            ("c", ONE),
        ],
    );
    let mut loaded = NameMap::new();
    assert!(matches!(
        start(&mut store, &all, "a", &mut loaded),
        Err(PluginInstantiationError::Wasmer(_))
    ));
    assert!(loaded.get("a").is_none());
    assert!(loaded.get("b").is_none());
    assert!(loaded.get("c").is_some());
    assert!(start(&mut store, &all, "b", &mut loaded).is_err());
    assert_eq!(loaded.len(), 1);
}

#[test]
fn one_memory_is_not_made_twice() {
    let mut features = Features::default();
    features.multi_memory(true);
    let engine = EngineBuilder::new(Cranelift::default()).set_features(Some(features)).engine();
    let mut engine = Engine::from(engine);
    engine.set_tunables(BaseTunables {
        static_memory_bound: Pages(1),
        static_memory_offset_guard_size: 0x20000,
        dynamic_memory_offset_guard_size: 0x10000,
    });
    let mut store = Store::new(engine);
    let mut store = store.as_store_mut();
    let two = r#"(module (import "env" "m" (memory 1 1)) (import "env" "m" (memory 2)))"#;
    let all = modules(&store, &[("a", two)]);
    let mut loaded = NameMap::new();
    match start(&mut store, &all, "a", &mut loaded) {
        Err(PluginInstantiationError::IncompatibleType(module, name)) => {
            assert_eq!((module.as_str(), name.as_str()), ("env", "m"));
        }
        _ => panic!("the memories fitted"),
    }
    assert_eq!(loaded.len(), 0);
}
