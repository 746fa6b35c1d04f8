use std::sync::{Arc, Mutex};
use wasmer::sys::{BaseTunables, NativeEngineExt};
use wasmer::{AsStoreMut, Engine, Module, Pages, Store, StoreMut};
use webxtism::engine::ExportError;
use webxtism::names::NameMap;
use webxtism::load::{load_module, load_modules, PluginInput, WasmSource};
use webxtism::wasm_input::{HttpRequest, Wasm, WasmMetadata};
use webxtism::{
    compile_runtime, Context, ContextGoneError, ConvertError, ExportDefinition, HostExport,
    HostEvent, HttpAnswer, InMemoryVars, Kernel, KernelError, LogLevel, MemoryHandle, Plugin,
    PluginInstantiationError,
    PluginLoadError, PluginMetadata, PluginRunError, PluginVars,
};
use webxtism::function::{Plain, Taking};

/// A store whose memories reserve no more address space than they use.
fn new_store() -> Store {
    let mut engine = Engine::default();
    engine.set_tunables(BaseTunables {
        static_memory_bound: Pages(0),
        static_memory_offset_guard_size: 0x10000,
        dynamic_memory_offset_guard_size: 0x10000,
    });
    Store::new(engine)
}

/// A kernel that puts blocks behind one another. Before a block stand a mark and its length.
const RUNTIME: &str = r#"
(module
  (import "extism:host/env" "memory" (memory 0))
  (export "memory" (memory 0))
  (global $next (mut i64) (i64.const 64))
  (global $in_offset (mut i64) (i64.const 0))
  (global $in_length (mut i64) (i64.const 0))
  (global $out_offset (mut i64) (i64.const 0))
  (global $out_length (mut i64) (i64.const 0))
  (func $grow (drop (memory.grow (i32.const 1))))
  (start $grow)
  (func (export "alloc") (param $n i64) (result i64)
    (local $p i64)
    (local.set $p (i64.add (global.get $next) (i64.const 16)))
    (if (i64.gt_u (local.get $n) (i64.const 60000)) (then (return (i64.const 0))))
    (if (i64.gt_u (i64.add (local.get $p) (local.get $n)) (i64.const 65000))
      (then (return (i64.const 0))))
    (i64.store (i32.wrap_i64 (i64.sub (local.get $p) (i64.const 16))) (i64.const 77))
    (i64.store (i32.wrap_i64 (i64.sub (local.get $p) (i64.const 8))) (local.get $n))
    (global.set $next
      (i64.and (i64.add (i64.add (local.get $p) (local.get $n)) (i64.const 7)) (i64.const -8)))
    (local.get $p))
  (func (export "length") (param $o i64) (result i64)
    (if (i64.lt_u (local.get $o) (i64.const 80)) (then (return (i64.const 0))))
    (if (i64.gt_u (local.get $o) (i64.const 65000)) (then (return (i64.const 0))))
    (if (i64.ne (i64.load (i32.wrap_i64 (i64.sub (local.get $o) (i64.const 16)))) (i64.const 77))
      (then (return (i64.const 0))))
    (i64.load (i32.wrap_i64 (i64.sub (local.get $o) (i64.const 8)))))
  (func (export "free") (param $o i64)
    (if (i64.eqz (local.get $o)) (then (return)))
    (i64.store (i32.wrap_i64 (i64.sub (local.get $o) (i64.const 16))) (i64.const 0)))
  (func (export "input_set") (param i64 i64)
    (global.set $in_offset (local.get 0)) (global.set $in_length (local.get 1)))
  (func (export "output_set") (param i64 i64)
    (global.set $out_offset (local.get 0)) (global.set $out_length (local.get 1)))
  (func (export "input_offset") (result i64) (global.get $in_offset))
  (func (export "input_length") (result i64) (global.get $in_length))
  (func (export "output_offset") (result i64) (global.get $out_offset))
  (func (export "output_length") (result i64) (global.get $out_length))
  (func (export "store_u8") (param i64 i32)
    (i32.store8 (i32.wrap_i64 (local.get 0)) (local.get 1))))
"#;

fn runtime(store: &StoreMut<'_>) -> Module {
    compile_runtime(store, RUNTIME.as_bytes()).unwrap()
}

fn ignore(_id: &String, _event: HostEvent) {}

fn refuse(_request: Vec<u8>, _body: Vec<u8>) -> Result<HttpAnswer, ()> {
    Err(())
}

/// An event in few words.
fn summary(event: &HostEvent) -> String {
    match event {
        HostEvent::Message(_, text) => format!("message {text}"),
        HostEvent::HandleNotFound(offset) => format!("nothing at {offset}"),
        HostEvent::MemoryAccess(_) => "no access".to_string(),
        HostEvent::NotFreed(_) => "not freed".to_string(),
        HostEvent::ConfigNotFound(key) => format!("no config {key}"),
        HostEvent::VarNotFound(key) => format!("no var {key}"),
        HostEvent::RequestFailed => "no answer".to_string(),
    }
}

fn summaries(events: &[HostEvent]) -> Vec<(LogLevel, String)> {
    events.iter().map(|event| (event.level(), summary(event))).collect()
}

type Events = Arc<Mutex<Vec<(LogLevel, String)>>>;

type Sent = Arc<Mutex<Vec<(Vec<u8>, Vec<u8>)>>>;

/// A plugin whose events are kept, and whose requests are answered in turn.
fn load_watched(
    store: &mut StoreMut<'_>,
    input: PluginInput,
    mut answers: Vec<Result<HttpAnswer, ()>>,
) -> (Plugin, Events, Sent) {
    let (events, sent) = (Events::default(), Sent::default());
    let (sink, outbox) = (events.clone(), sent.clone());
    answers.reverse();
    let answers = Mutex::new(answers);
    let runtime = runtime(store);
    let plugin = Plugin::new(
        store,
        &runtime,
        9,
        "test".to_string(),
        input,
        vec![],
        move |_id: &String, event: HostEvent| {
            sink.lock().unwrap().push((event.level(), summary(&event)));
        },
        move |request: Vec<u8>, body: Vec<u8>| {
            outbox.lock().unwrap().push((request, body));
            answers.lock().unwrap().pop().unwrap()
        },
    )
    .unwrap();
    (plugin, events, sent)
}

fn load(
    store: &mut StoreMut<'_>,
    input: PluginInput,
    exports: Vec<HostExport>,
) -> Result<Plugin, PluginLoadError> {
    let runtime = runtime(store);
    Plugin::new(store, &runtime, 9, "test".to_string(), input, exports, ignore, refuse)
}

fn data(text: &str) -> PluginInput {
    PluginInput::Data(text.as_bytes().to_vec())
}

fn source(text: &str, name: Option<&str>) -> WasmSource {
    WasmSource { data: text.as_bytes().to_vec(), name: name.map(str::to_string) }
}

fn manifest(wasm: Vec<WasmSource>, config: &[(&str, &str)]) -> PluginInput {
    let mut map = NameMap::new();
    for (name, value) in config {
        map.insert(name.to_string(), value.to_string());
    }
    PluginInput::Manifest { wasm, config: map }
}

fn bytes(data: Vec<u8>) -> Result<Vec<u8>, extism_convert::Error> {
    Ok(data)
}

const ECHO: &str = r#"
(module
  (import "extism:host/env" "input_offset" (func $in_offset (result i64)))
  (import "extism:host/env" "input_length" (func $in_length (result i64)))
  (import "extism:host/env" "output_set" (func $output (param i64 i64)))
  (func (export "echo") (result i32)
    (call $output (call $in_offset) (call $in_length)) (i32.const 0))
  (func (export "fail") (result i32) (i32.const 3))
  (func (export "trap") (result i32) unreachable)
  (func (export "ok") (result i32) (i32.const 0))
  (func (export "odd") (param i32) (result i32) (i32.const 0))
  (global (export "none") i32 (i32.const 0)))
"#;

/// Functions that hand their input to a function of the host, and the result to their output.
const ASKING: &str = r#"
(module
  (import "extism:host/env" "input_offset" (func $in_offset (result i64)))
  (import "extism:host/env" "input_length" (func $in_length (result i64)))
  (import "extism:host/env" "output_set" (func $output (param i64 i64)))
  (import "extism:host/env" "length" (func $length (param i64) (result i64)))
  (import "extism:host/env" "alloc" (func $alloc (param i64) (result i64)))
  (import "extism:host/env" "store_u8" (func $store (param i64 i32)))
  (import "extism:host/env" "config_get" (func $config_get (param i64) (result i64)))
  (import "extism:host/env" "var_get" (func $var_get (param i64) (result i64)))
  (import "extism:host/env" "var_set" (func $var_set (param i64 i64)))
  (import "extism:host/env" "log_warn" (func $log_warn (param i64)))
  (import "extism:host/env" "log_info" (func $log_info (param i64)))
  (import "extism:host/env" "log_debug" (func $log_debug (param i64)))
  (import "extism:host/env" "log_error" (func $log_error (param i64)))
  (import "extism:host/env" "log_trace" (func $log_trace (param i64)))
  (import "extism:host/env" "get_log_level" (func $level (result i64)))
  (import "extism:host/env" "http_request" (func $http (param i64 i64) (result i64)))
  (import "extism:host/env" "http_status_code" (func $status (result i32)))
  (import "extism:host/env" "http_headers" (func $headers (result i64)))
  (func $reply (param $place i64)
    (if (i64.eqz (local.get $place)) (then (call $output (i64.const 0) (i64.const 0)) (return)))
    (call $output (local.get $place) (call $length (local.get $place))))
  (func $letter (param $c i32) (result i64)
    (local $p i64)
    (local.set $p (call $alloc (i64.const 1)))
    (call $store (local.get $p) (local.get $c))
    (local.get $p))
  (func (export "config") (result i32)
    (call $reply (call $config_get (call $in_offset))) (i32.const 0))
  (func (export "var") (result i32)
    (call $reply (call $var_get (call $in_offset))) (i32.const 0))
  (func (export "set") (result i32)
    (call $var_set (call $letter (i32.const 107)) (call $in_offset)) (i32.const 0))
  (func (export "unset") (result i32)
    (call $var_set (call $in_offset) (i64.const 0)) (i32.const 0))
  (func (export "set_nowhere") (result i32)
    (call $var_set (i64.const 5) (call $in_offset)) (i32.const 0))
  (func (export "set_nothing") (result i32)
    (call $var_set (call $in_offset) (i64.const 5)) (i32.const 0))
  (func (export "set_same") (result i32)
    (call $var_set (call $in_offset) (call $in_offset)) (i32.const 0))
  (func (export "log") (result i32)
    (call $log_trace (call $letter (i32.const 97)))
    (call $log_debug (call $letter (i32.const 98)))
    (call $log_info (call $letter (i32.const 99)))
    (call $log_warn (call $letter (i32.const 100)))
    (call $log_error (call $in_offset))
    (call $log_error (i64.const 5))
    (i32.const 0))
  (func (export "level") (result i32)
    (i64.ne (call $level) (i64.const 0x7fffffffffffffff)))
  (func (export "http") (result i32)
    (call $reply (call $http (call $in_offset) (call $letter (i32.const 66)))) (i32.const 0))
  (func (export "http_alone") (result i32)
    (call $reply (call $http (call $in_offset) (i64.const 0))) (i32.const 0))
  (func (export "http_same") (result i32)
    (call $reply (call $http (call $in_offset) (call $in_offset))) (i32.const 0))
  (func (export "status") (result i32) (call $status))
  (func (export "headers") (result i32) (call $reply (call $headers)) (i32.const 0)))
"#;

#[test]
fn outputs_come_back() {
    let mut store = new_store();
    let mut store = store.as_store_mut();
    let plugin = load(&mut store, data(ECHO), vec![]).unwrap();
    assert_eq!(plugin.id(), 9);
    assert_eq!(plugin.kernel().id(), 9);
    assert_eq!(plugin.call_in_out(&mut store, "echo", Ok(vec![1, 2, 3]), &bytes).unwrap(), [1, 2, 3]);
    let length = |data: Vec<u8>| Ok::<usize, extism_convert::Error>(data.len());
    assert_eq!(plugin.call_in_out(&mut store, "echo", Ok(vec![0; 40]), &length).unwrap(), 40);
    assert_eq!(plugin.call_in_out(&mut store, "echo", Ok(vec![]), &length).unwrap(), 0);
    assert!(plugin.call(&mut store, "ok").is_ok());
    assert!(plugin.call_in(&mut store, "echo", Ok(vec![5])).is_ok());
    assert_eq!(plugin.call_out(&mut store, "ok", &bytes).unwrap(), [5]);
}

#[test]
fn outputs_are_given_back() {
    let mut store = new_store();
    let mut store = store.as_store_mut();
    let plugin = load(&mut store, data(ECHO), vec![]).unwrap();
    assert!(plugin.call_in_out(&mut store, "echo", Ok(vec![1]), &bytes).is_ok());
    let handle = plugin.kernel().get_output(&mut store).unwrap();
    assert_eq!(handle.length, 1);
    assert_eq!(plugin.kernel().memory_length(&mut store, handle.offset).unwrap(), 0);
    let refuse = |_data: Vec<u8>| Err::<u8, _>(extism_convert::Error::msg("bad"));
    match plugin.call_in_out(&mut store, "echo", Ok(vec![1]), &refuse) {
        Err(PluginRunError::Extism(ConvertError::Convert(err))) => {
            assert_eq!(err.to_string(), "bad");
        }
        _ => panic!("the output was decoded"),
    }
    let handle = plugin.kernel().get_output(&mut store).unwrap();
    assert_eq!(plugin.kernel().memory_length(&mut store, handle.offset).unwrap(), 1);
}

#[test]
fn failures_are_told_apart() {
    let mut store = new_store();
    let mut store = store.as_store_mut();
    let plugin = load(&mut store, data(ECHO), vec![]).unwrap();
    assert!(matches!(plugin.call(&mut store, "fail"), Err(PluginRunError::Failed(3))));
    assert!(matches!(
        plugin.call_in(&mut store, "fail", Ok(vec![1])),
        Err(PluginRunError::Failed(3))
    ));
    assert!(matches!(
        plugin.call_out(&mut store, "fail", &bytes),
        Err(PluginRunError::Failed(3))
    ));
    assert!(matches!(
        plugin.call_in_out(&mut store, "fail", Ok(vec![]), &bytes),
        Err(PluginRunError::Failed(3))
    ));
    assert!(matches!(plugin.call(&mut store, "trap"), Err(PluginRunError::Runtime(_))));
    match plugin.call(&mut store, "missing") {
        Err(PluginRunError::Export(ExportError::Missing(name))) => assert_eq!(name, "missing"),
        _ => panic!("the function was found"),
    }
    for name in ["odd", "none"] {
        assert!(matches!(
            plugin.call(&mut store, name),
            Err(PluginRunError::Export(ExportError::IncompatibleType))
        ));
    }
    let encoded = || Err(extism_convert::Error::msg("no"));
    assert!(matches!(
        plugin.call_in(&mut store, "ok", encoded()),
        Err(PluginRunError::Context(KernelError::Extism(_)))
    ));
    assert!(matches!(
        plugin.call_in_out(&mut store, "ok", encoded(), &bytes),
        Err(PluginRunError::Context(KernelError::Extism(_)))
    ));
}

#[test]
fn other_contexts_are_refused() {
    let mut home = new_store();
    let plugin = load(&mut home.as_store_mut(), data(ECHO), vec![]).unwrap();
    let mut other = new_store();
    let mut other = other.as_store_mut();
    assert_eq!(plugin.context(&mut other), Err(ContextGoneError::ContextGone));
    assert_eq!(plugin.context(&mut home.as_store_mut()), Ok(()));
    assert!(matches!(plugin.call(&mut other, "ok"), Err(PluginRunError::ContextGone)));
    assert!(matches!(
        plugin.call_in(&mut other, "ok", Ok(vec![])),
        Err(PluginRunError::ContextGone)
    ));
    assert!(matches!(
        plugin.call_out(&mut other, "ok", &bytes),
        Err(PluginRunError::ContextGone)
    ));
    assert!(matches!(
        plugin.call_in_out(&mut other, "ok", Ok(vec![]), &bytes),
        Err(PluginRunError::ContextGone)
    ));
}

#[test]
fn modules_have_names() {
    let mut store = new_store();
    let store = store.as_store_mut();
    let named = r#"(module $own)"#;
    assert_eq!(load_module(&store, named.as_bytes(), &None).unwrap().name, "own");
    let wanted = Some("wanted".to_string());
    let module = load_module(&store, named.as_bytes(), &wanted).unwrap();
    assert_eq!(module.name, "wanted");
    assert_eq!(module.module.name(), Some("wanted"));
    let module = load_module(&store, b"(module)", &None).unwrap();
    assert_eq!(module.name, "main");
    assert_eq!(module.module.name(), Some("main"));
    assert!(load_module(&store, b"(modul)", &None).is_err());
    let modules =
        load_modules(&store, &vec![source(named, None), source("(module)", Some("x"))]).unwrap();
    assert_eq!(modules.len(), 2);
    assert_eq!(modules.get("main").unwrap().name, "own");
    assert_eq!(modules.get("x").unwrap().name, "x");
    let modules =
        load_modules(&store, &vec![source("(module)", None), source(named, None)]).unwrap();
    assert_eq!(modules.len(), 1);
    assert_eq!(modules.get("main").unwrap().name, "own");
    assert!(load_modules(&store, &vec![source("(modul)", None)]).is_err());
}

#[test]
fn only_the_main_module_is_called() {
    let mut store = new_store();
    let mut store = store.as_store_mut();
    let plugin = load(&mut store, data("(module $own)"), vec![]).unwrap();
    assert!(matches!(plugin.call(&mut store, "f"), Err(PluginRunError::NoMainModule)));
    assert!(matches!(
        plugin.call_in(&mut store, "f", Ok(vec![1])),
        Err(PluginRunError::NoMainModule)
    ));
    assert!(matches!(
        plugin.call_out(&mut store, "f", &bytes),
        Err(PluginRunError::NoMainModule)
    ));
    assert!(matches!(
        plugin.call_in_out(&mut store, "f", Ok(vec![1]), &bytes),
        Err(PluginRunError::NoMainModule)
    ));
}

#[test]
fn modules_of_a_manifest_are_linked() {
    let mut store = new_store();
    let mut store = store.as_store_mut();
    let main = r#"(module (import "lib" "code" (func $code (result i32)))
        (func (export "run") (result i32) (call $code)))"#;
    let lib = r#"(module (func (export "code") (result i32) (i32.const 42)))"#;
    let plugin =
        load(&mut store, manifest(vec![source(main, None), source(lib, Some("lib"))], &[]), vec![])
            .unwrap();
    assert!(matches!(plugin.call(&mut store, "run"), Err(PluginRunError::Failed(42))));
    let result = load(&mut store, manifest(vec![source(main, None)], &[]), vec![]);
    assert!(matches!(
        result,
        Err(PluginLoadError::Instantiation(PluginInstantiationError::Export(_)))
    ));
    let circle = r#"(module (import "main" "run" (func (result i32))) (export "code" (func 0)))"#;
    let result = load(
        &mut store,
        manifest(vec![source(main, None), source(circle, Some("lib"))], &[]),
        vec![],
    );
    assert!(matches!(
        result,
        Err(PluginLoadError::Instantiation(PluginInstantiationError::CyclicDependency))
    ));
    let result = load(&mut store, data("(modul)"), vec![]);
    assert!(matches!(result, Err(PluginLoadError::CompileError(_))));
}

#[test]
fn plugins_need_a_kernel() {
    let mut store = new_store();
    let mut store = store.as_store_mut();
    let bare = Module::new(&store, "(module)").unwrap();
    let result =
        Plugin::new(&mut store, &bare, 0, "x".to_string(), data(ECHO), vec![], ignore, refuse);
    assert!(matches!(
        result,
        Err(PluginLoadError::Instantiation(PluginInstantiationError::Export(
            ExportError::Missing(name)
        ))) if name == "memory"
    ));
    let greedy = Module::new(&store, r#"(module (import "a" "b" (func)))"#).unwrap();
    let result =
        Plugin::new(&mut store, &greedy, 0, "x".to_string(), data(ECHO), vec![], ignore, refuse);
    assert!(matches!(
        result,
        Err(PluginLoadError::Instantiation(PluginInstantiationError::Wasmer(_)))
    ));
}

#[test]
fn plugins_do_not_reach_the_memory_of_the_kernel() {
    let mut store = new_store();
    let mut store = store.as_store_mut();
    let result = load(
        &mut store,
        data(r#"(module (import "extism:host/env" "memory" (memory 0)))"#),
        vec![],
    );
    assert!(matches!(
        result,
        Err(PluginLoadError::Instantiation(PluginInstantiationError::NonFunctionKernelAccess))
    ));
}

#[test]
fn configuration_is_looked_up() {
    let mut store = new_store();
    let mut store = store.as_store_mut();
    let config = [("key", "value"), ("empty", "")];
    let plugin = load(&mut store, manifest(vec![source(ASKING, None)], &config), vec![]).unwrap();
    let mut get = |key: &str| {
        let encoded = Ok(key.as_bytes().to_vec());
        plugin.call_in_out(&mut store, "config", encoded, &bytes).unwrap()
    };
    assert_eq!(get("key"), b"value");
    assert_eq!(get("empty"), b"");
    assert_eq!(get("other"), b"");
    let input = plugin.kernel().get_input(&mut store).unwrap();
    assert_eq!(plugin.kernel().memory_handle(&mut store, input.offset), None);
    let plugin = load(&mut store, data(ASKING), vec![]).unwrap();
    assert_eq!(
        plugin.call_in_out(&mut store, "config", Ok(b"key".to_vec()), &bytes).unwrap(),
        b""
    );
}

#[test]
fn guests_set_and_remove_variables() {
    let mut store = new_store();
    let mut store = store.as_store_mut();
    let plugin = load(&mut store, data(ASKING), vec![]).unwrap();
    let other = load(&mut store, data(ASKING), vec![]).unwrap();
    let key = || Ok(b"k".to_vec());
    assert_eq!(plugin.call_in_out(&mut store, "var", key(), &bytes).unwrap(), b"");
    assert!(plugin.call_in(&mut store, "set", Ok(vec![6, 7])).is_ok());
    assert_eq!(plugin.call_in_out(&mut store, "var", key(), &bytes).unwrap(), [6, 7]);
    assert_eq!(other.call_in_out(&mut store, "var", key(), &bytes).unwrap(), b"");
    assert!(plugin.call_in(&mut store, "set", Ok(vec![8])).is_ok());
    assert_eq!(plugin.call_in_out(&mut store, "var", key(), &bytes).unwrap(), [8]);
    assert!(plugin.call_in(&mut store, "unset", Ok(b"other".to_vec())).is_ok());
    assert_eq!(plugin.call_in_out(&mut store, "var", key(), &bytes).unwrap(), [8]);
    assert!(plugin.call_in(&mut store, "unset", key()).is_ok());
    assert_eq!(plugin.call_in_out(&mut store, "var", key(), &bytes).unwrap(), b"");
}

#[test]
fn variables_need_both_blocks() {
    let mut store = new_store();
    let mut store = store.as_store_mut();
    let plugin = load(&mut store, data(ASKING), vec![]).unwrap();
    assert!(plugin.call_in(&mut store, "set", Ok(vec![6])).is_ok());
    assert!(plugin.call_in(&mut store, "set_nowhere", Ok(vec![1])).is_ok());
    let input = plugin.kernel().get_input(&mut store).unwrap();
    assert_eq!(plugin.kernel().memory_handle(&mut store, input.offset), None);
    assert!(plugin.call_in(&mut store, "set_nothing", Ok(b"k".to_vec())).is_ok());
    let input = plugin.kernel().get_input(&mut store).unwrap();
    assert_eq!(plugin.kernel().memory_handle(&mut store, input.offset), None);
    for name in ["unset", "set_same"] {
        assert!(plugin.call_in(&mut store, name, Ok(vec![0xff])).is_ok());
        let input = plugin.kernel().get_input(&mut store).unwrap();
        assert_eq!(plugin.kernel().memory_handle(&mut store, input.offset), None);
    }
    assert_eq!(
        plugin.call_in_out(&mut store, "var", Ok(b"k".to_vec()), &bytes).unwrap(),
        [6]
    );
}

#[test]
fn blocks_of_variables_are_given_back() {
    let mut store = new_store();
    let mut store = store.as_store_mut();
    let runtime = runtime(&store);
    let kernel = Kernel::new(&mut store, &runtime, 0).unwrap();
    let mut metadata =
        PluginMetadata { id: 1u8, config: NameMap::new(), vars: InMemoryVars::default() };
    for (key, is_set) in [(vec![107], true), (vec![0xff], false)] {
        let key = kernel.memory_new(&mut store, Ok(key)).unwrap();
        let value = kernel.memory_new(&mut store, Ok(vec![3, 4])).unwrap();
        let events =
            kernel.var_set(&mut store, &mut metadata, key.offset as i64, value.offset as i64);
        assert_eq!(events.is_empty(), is_set);
        assert_eq!(kernel.memory_handle(&mut store, key.offset), None);
        assert_eq!(kernel.memory_handle(&mut store, value.offset), None);
        assert_eq!(metadata.vars.get_var("k").is_some(), is_set);
        metadata.vars.remove_var("k");
    }
}

#[test]
fn keys_that_are_no_text_are_given_back() {
    let mut store = new_store();
    let mut store = store.as_store_mut();
    let plugin = load(&mut store, data(ASKING), vec![]).unwrap();
    for name in ["config", "var"] {
        let none = plugin.call_in_out(&mut store, name, Ok(vec![0xff]), &bytes).unwrap();
        assert_eq!(none, b"");
        let input = plugin.kernel().get_input(&mut store).unwrap();
        assert_eq!(plugin.kernel().memory_handle(&mut store, input.offset), None);
    }
}

#[test]
fn messages_are_handed_on() {
    let mut store = new_store();
    let mut store = store.as_store_mut();
    let runtime = runtime(&store);
    let messages = Arc::new(Mutex::new(Vec::new()));
    let sink = messages.clone();
    let plugin = Plugin::new(
        &mut store,
        &runtime,
        0,
        "me".to_string(),
        data(ASKING),
        vec![],
        move |id: &String, event: HostEvent| {
            sink.lock().unwrap().push((id.clone(), event.level(), summary(&event)));
        },
        refuse,
    )
    .unwrap();
    assert!(plugin.call_in(&mut store, "log", Ok("last".as_bytes().to_vec())).is_ok());
    let input = plugin.kernel().get_input(&mut store).unwrap();
    assert_eq!(plugin.kernel().memory_handle(&mut store, input.offset), None);
    let seen = messages.lock().unwrap();
    let me = || "me".to_string();
    assert_eq!(
        *seen,
        vec![
            (me(), LogLevel::Trace, "message a".to_string()),
            (me(), LogLevel::Debug, "message b".to_string()),
            (me(), LogLevel::Info, "message c".to_string()),
            (me(), LogLevel::Warn, "message d".to_string()),
            (me(), LogLevel::Error, "message last".to_string()),
        ]
    );
}

#[test]
fn messages_that_are_no_text_are_errors() {
    let mut store = new_store();
    let mut store = store.as_store_mut();
    let runtime = runtime(&store);
    let kernel = Kernel::new(&mut store, &runtime, 0).unwrap();
    let handle = kernel.memory_new(&mut store, Ok(vec![0xff])).unwrap();
    let events = kernel.log(&mut store, LogLevel::Info, handle.offset as i64);
    assert_eq!(summaries(&events), vec![(LogLevel::Error, "no access".to_string())]);
    match &events[0] {
        HostEvent::MemoryAccess(KernelError::FromUtf8Error(err)) => {
            assert_eq!(err.as_bytes(), [0xff]);
        }
        _ => panic!("the text was read"),
    }
    assert_eq!(kernel.memory_handle(&mut store, handle.offset), Some(handle));
    assert!(kernel.log(&mut store, LogLevel::Info, 5).is_empty());
    let handle = kernel.memory_new(&mut store, Ok(b"text".to_vec())).unwrap();
    let events = kernel.log(&mut store, LogLevel::Info, handle.offset as i64);
    assert_eq!(summaries(&events), vec![(LogLevel::Info, "message text".to_string())]);
    assert_eq!(kernel.memory_handle(&mut store, handle.offset), None);
}

#[test]
fn guests_ask_for_the_log_level() {
    let mut store = new_store();
    let mut store = store.as_store_mut();
    let plugin = load(&mut store, data(ASKING), vec![]).unwrap();
    assert!(plugin.call(&mut store, "level").is_ok());
}

fn answer(status: u16, headers: &[u8], body: &[u8]) -> Result<HttpAnswer, ()> {
    Ok(HttpAnswer { status, headers: headers.to_vec(), body: body.to_vec() })
}

#[test]
fn guests_make_requests() {
    let mut store = new_store();
    let mut store = store.as_store_mut();
    let answers =
        vec![answer(404, b"a: b", b"gone"), answer(200, b"", b""), Err(()), answer(1, b"", b"x")];
    let (plugin, events, sent) = load_watched(&mut store, data(ASKING), answers);
    let request = |text: &str| Ok(text.as_bytes().to_vec());
    assert!(plugin.call(&mut store, "status").is_ok());
    assert_eq!(plugin.call_out(&mut store, "headers", &bytes).unwrap(), b"");
    let result = plugin.call_in_out(&mut store, "http", request("first"), &bytes);
    assert_eq!(result.unwrap(), b"gone");
    assert_eq!(*sent.lock().unwrap(), vec![(b"first".to_vec(), b"B".to_vec())]);
    let input = plugin.kernel().get_input(&mut store).unwrap();
    assert_eq!(plugin.kernel().memory_handle(&mut store, input.offset), None);
    assert!(matches!(plugin.call(&mut store, "status"), Err(PluginRunError::Failed(404))));
    assert_eq!(plugin.call_out(&mut store, "headers", &bytes).unwrap(), b"a: b");
    assert_eq!(plugin.call_out(&mut store, "headers", &bytes).unwrap(), b"a: b");
    let result = plugin.call_in_out(&mut store, "http_alone", request("second"), &bytes);
    assert_eq!(result.unwrap(), b"");
    assert_eq!(sent.lock().unwrap().pop().unwrap(), (b"second".to_vec(), vec![]));
    assert!(matches!(plugin.call(&mut store, "status"), Err(PluginRunError::Failed(200))));
    assert!(events.lock().unwrap().is_empty());
    let result = plugin.call_in_out(&mut store, "http", request("third"), &bytes);
    assert_eq!(result.unwrap(), b"");
    assert!(plugin.call(&mut store, "status").is_ok());
    assert_eq!(*events.lock().unwrap(), vec![(LogLevel::Error, "no answer".to_string())]);
    let result = plugin.call_in_out(&mut store, "http_same", request("fourth"), &bytes);
    assert_eq!(result.unwrap(), b"x");
    let last = sent.lock().unwrap().pop().unwrap();
    assert_eq!(last, (b"fourth".to_vec(), b"fourth".to_vec()));
    assert_eq!(events.lock().unwrap().len(), 1);
}

#[test]
fn requests_need_their_blocks() {
    let mut store = new_store();
    let mut store = store.as_store_mut();
    let runtime = runtime(&store);
    let kernel = Kernel::new(&mut store, &runtime, 0).unwrap();
    let mut last = None;
    let (place, events) =
        kernel.hand_answer_out(&mut store, &mut last, answer(5, b"h", b"body"));
    assert!(events.is_empty());
    let handle = kernel.memory_handle(&mut store, place as u64).unwrap();
    assert_eq!(kernel.memory_bytes(&mut store, handle).unwrap(), b"body");
    assert_eq!(kernel.http_status_code(&last), 5);
    let send = |_request: Vec<u8>, _body: Vec<u8>| panic!("sent");
    let send: &dyn Fn(Vec<u8>, Vec<u8>) -> Result<HttpAnswer, ()> = &send;
    let body = kernel.memory_new(&mut store, Ok(b"b".to_vec())).unwrap();
    let place = body.offset as i64;
    let (none, events) = kernel.http_request(&mut store, &mut last, 5, place, &send);
    assert_eq!(none, 0);
    assert_eq!(summaries(&events), vec![(LogLevel::Warn, "nothing at 5".to_string())]);
    assert_eq!(kernel.memory_handle(&mut store, body.offset), None);
    let request = kernel.memory_new(&mut store, Ok(b"r".to_vec())).unwrap();
    let place = request.offset as i64;
    let (none, events) = kernel.http_request(&mut store, &mut last, place, 7, &send);
    assert_eq!(none, 0);
    assert_eq!(summaries(&events), vec![(LogLevel::Warn, "nothing at 7".to_string())]);
    assert_eq!(kernel.memory_handle(&mut store, request.offset), None);
    assert_eq!(kernel.http_status_code(&last), 5);
    let request = kernel.memory_new(&mut store, Ok(b"r".to_vec())).unwrap();
    let (taken, events) = kernel.take_request(&mut store, request.offset as i64, 0);
    assert_eq!(taken, Some((b"r".to_vec(), vec![])));
    assert!(events.is_empty());
    let (place, events) = kernel.hand_answer_out(&mut store, &mut last, Err(()));
    assert_eq!((place, events.len(), last.is_none()), (0, 1, true));
    assert_eq!(kernel.http_headers(&mut store, &last).0, 0);
}

#[test]
fn what_goes_wrong_is_told() {
    let mut store = new_store();
    let mut store = store.as_store_mut();
    let (plugin, events, _sent) = load_watched(&mut store, data(ASKING), vec![]);
    let text = |text: &[u8]| Ok(text.to_vec());
    for (function, input) in [
        ("config", b"key".to_vec()),
        ("var", b"key".to_vec()),
        ("config", vec![0xff]),
        ("set_nowhere", vec![1]),
        ("set_nothing", vec![1]),
    ] {
        assert!(plugin.call_in(&mut store, function, text(&input)).is_ok());
    }
    let event = |level: LogLevel, text: &str| (level, text.to_string());
    assert_eq!(
        *events.lock().unwrap(),
        vec![
            event(LogLevel::Warn, "no config key"),
            event(LogLevel::Warn, "no var key"),
            event(LogLevel::Error, "no access"),
            event(LogLevel::Warn, "nothing at 5"),
            event(LogLevel::Warn, "nothing at 5"),
        ]
    );
}

/// Functions that call the exports of the embedding program.
const CALLING: &str = r#"
(module
  (import "extism:host/env" "input_offset" (func $in_offset (result i64)))
  (import "extism:host/env" "output_set" (func $output (param i64 i64)))
  (import "extism:host/env" "length" (func $length (param i64) (result i64)))
  (import "extism:host/user" "in_out" (func $in_out (param i64) (result i64)))
  (import "extism:host/user" "in" (func $in (param i64)))
  (import "space" "out" (func $out (result i64)))
  (import "extism:host/user" "bare" (func $bare))
  (func $reply (param $place i64)
    (if (i64.eqz (local.get $place)) (then (call $output (i64.const 0) (i64.const 0)) (return)))
    (call $output (local.get $place) (call $length (local.get $place))))
  (func (export "in_out") (result i32)
    (call $reply (call $in_out (call $in_offset))) (i32.const 0))
  (func (export "in_out_nowhere") (result i32)
    (call $reply (call $in_out (i64.const 5))) (i32.const 0))
  (func (export "in") (result i32) (call $in (call $in_offset)) (i32.const 0))
  (func (export "in_nowhere") (result i32) (call $in (i64.const 5)) (i32.const 0))
  (func (export "out") (result i32) (call $reply (call $out)) (i32.const 0))
  (func (export "bare") (result i32) (call $bare) (i32.const 0)))
"#;

fn text(data: Vec<u8>) -> Result<String, extism_convert::Error> {
    Ok(String::from_utf8(data)?)
}

fn encode(text: String) -> Result<Vec<u8>, extism_convert::Error> {
    if text == "unspeakable" {
        Err(extism_convert::Error::msg("no"))
    } else {
        Ok(text.into_bytes())
    }
}

type Seen = Arc<Mutex<Vec<String>>>;

fn exports(seen: &Seen) -> Vec<HostExport> {
    vec![
        HostExport::new_with_in_out(
            None,
            "in_out",
            |env: &Seen, input: String| {
                env.lock().unwrap().push(input.clone());
                if input == "bad" {
                    Err(())
                } else if input == "dumb" {
                    Ok("unspeakable".to_string())
                } else {
                    Ok(input.to_uppercase())
                }
            },
            seen.clone(),
            text,
            encode,
        ),
        HostExport::new_with_in(
            None,
            "in",
            |env: &Seen, input: String| env.lock().unwrap().push(input),
            seen.clone(),
            text,
        ),
        HostExport::new_with_out(
            Some("space"),
            "out",
            |env: &Seen| match env.lock().unwrap().pop() {
                Some(last) => Ok(last),
                None => Err(()),
            },
            seen.clone(),
            encode,
        ),
        HostExport::new(
            None,
            "bare",
            |env: &Seen| env.lock().unwrap().push("bare".to_string()),
            seen.clone(),
        ),
    ]
}

#[test]
fn exports_have_namespaces() {
    let exports = exports(&Seen::default());
    assert_eq!(exports[0].namespace(), "extism:host/user");
    assert_eq!(exports[0].name, "in_out");
    assert_eq!(exports[2].namespace(), "space");
    assert_eq!(exports[2].namespace, Some("space".to_string()));
    assert_eq!(exports[3].namespace, None);
}

#[test]
fn exports_are_called() {
    let mut store = new_store();
    let mut store = store.as_store_mut();
    let seen = Seen::default();
    let plugin = load(&mut store, data(CALLING), exports(&seen)).unwrap();
    let word = |word: &str| Ok(word.as_bytes().to_vec());
    let result = plugin.call_in_out(&mut store, "in_out", word("abc"), &text);
    assert_eq!(result.unwrap(), "ABC");
    assert_eq!(*seen.lock().unwrap(), vec!["abc"]);
    let input = plugin.kernel().get_input(&mut store).unwrap();
    assert_eq!(plugin.kernel().memory_handle(&mut store, input.offset), None);
    assert!(plugin.call_in(&mut store, "in", word("x")).is_ok());
    assert_eq!(*seen.lock().unwrap(), vec!["abc", "x"]);
    assert!(plugin.call(&mut store, "bare").is_ok());
    assert_eq!(plugin.call_out(&mut store, "out", &text).unwrap(), "bare");
    assert_eq!(plugin.call_out(&mut store, "out", &text).unwrap(), "x");
    assert_eq!(*seen.lock().unwrap(), vec!["abc"]);
}

#[test]
fn exports_that_fail_give_null() {
    let mut store = new_store();
    let mut store = store.as_store_mut();
    let seen = Seen::default();
    let plugin = load(&mut store, data(CALLING), exports(&seen)).unwrap();
    let word = |word: &str| Ok(word.as_bytes().to_vec());
    assert_eq!(plugin.call_in_out(&mut store, "in_out", word("bad"), &text).unwrap(), "");
    assert_eq!(plugin.call_in_out(&mut store, "in_out", word("dumb"), &text).unwrap(), "");
    assert_eq!(*seen.lock().unwrap(), vec!["bad", "dumb"]);
    seen.lock().unwrap().clear();
    assert_eq!(plugin.call_out(&mut store, "out", &text).unwrap(), "");
    assert_eq!(plugin.call_in_out(&mut store, "in_out", Ok(vec![0xff]), &text).unwrap(), "");
    let input = plugin.kernel().get_input(&mut store).unwrap();
    assert_eq!(plugin.kernel().memory_handle(&mut store, input.offset), Some(input));
    assert_eq!(plugin.call_out(&mut store, "in_out_nowhere", &text).unwrap(), "");
    assert!(plugin.call(&mut store, "in_nowhere").is_ok());
    assert!(seen.lock().unwrap().is_empty());
}

#[test]
fn exports_outlive_their_plugin_as_null() {
    let mut store = new_store();
    let mut store = store.as_store_mut();
    let runtime = runtime(&store);
    let kernel = Arc::new(Kernel::new(&mut store, &runtime, 0).unwrap());
    let input = kernel.memory_new(&mut store, Ok(b"ab".to_vec())).unwrap();
    let seen = Seen::default();
    let mut built = Vec::new();
    for export in exports(&seen) {
        built.push(export.build(&mut store, &kernel));
    }
    let call = |store: &mut StoreMut<'_>, i: usize, with: i64| {
        let args = if i < 2 { vec![wasmer::Value::I64(with)] } else { vec![] };
        match &built[i] {
            wasmer::Extern::Function(function) => function.call(store, &args).unwrap().to_vec(),
            _ => panic!("no function"),
        }
    };
    let place = call(&mut store, 0, input.offset as i64);
    let place = place[0].unwrap_i64();
    assert!(place != 0);
    let handle = MemoryHandle { offset: place as u64, length: 2 };
    assert_eq!(kernel.memory_string(&mut store, handle).unwrap(), "AB");
    seen.lock().unwrap().clear();
    drop(kernel);
    assert_eq!(call(&mut store, 0, input.offset as i64)[0].unwrap_i64(), 0);
    assert!(call(&mut store, 1, input.offset as i64).is_empty());
    assert_eq!(call(&mut store, 2, 0)[0].unwrap_i64(), 0);
    assert!(seen.lock().unwrap().is_empty());
    assert!(call(&mut store, 3, 0).is_empty());
    assert_eq!(*seen.lock().unwrap(), vec!["bare"]);
}

#[test]
fn definitions_become_functions() {
    let mut store = new_store();
    let mut store = store.as_store_mut();
    let runtime = runtime(&store);
    let kernel = Arc::new(Kernel::new(&mut store, &runtime, 0).unwrap());
    let length: ExportDefinition<String, String, ()> = ExportDefinition::InOut {
        function: Box::new(Taking(|_env: &(), input: String| {
            Ok::<String, ()>(input.len().to_string())
        })),
        env: (),
    };
    let constant: ExportDefinition<String, String, u8> = ExportDefinition::Out {
        function: Box::new(Plain(|env: &u8| Ok::<String, ()>(env.to_string()))),
        env: 200,
    };
    let length = length.to_extern(&mut store, &kernel, text, encode);
    let constant = constant.to_extern(&mut store, &kernel, text, encode);
    let input = kernel.memory_new(&mut store, Ok(b"four".to_vec())).unwrap();
    for (external, args, expected) in [
        (length, vec![wasmer::Value::I64(input.offset as i64)], "4"),
        (constant, vec![], "200"),
    ] {
        match external {
            wasmer::Extern::Function(function) => {
                let place = function.call(&mut store, &args).unwrap()[0].unwrap_i64();
                let handle = kernel.memory_handle(&mut store, place as u64).unwrap();
                assert_eq!(kernel.memory_string(&mut store, handle).unwrap(), expected);
            }
            _ => panic!("no function"),
        }
    }
}

#[test]
fn the_kernel_comes_before_exports() {
    let mut store = new_store();
    let mut store = store.as_store_mut();
    let seen = Seen::default();
    let mut all = exports(&seen);
    all.push(HostExport::new_with_out(
        Some("extism:host/env"),
        "input_offset",
        |_env: &()| Err::<String, ()>(()),
        (),
        encode,
    ));
    all.push(HostExport::new(None, "bare", |_env: &()| {}, ()));
    let plugin = load(&mut store, data(CALLING), all).unwrap();
    let word = Ok("abc".as_bytes().to_vec());
    assert_eq!(plugin.call_in_out(&mut store, "in_out", word, &text).unwrap(), "ABC");
    assert!(plugin.call(&mut store, "bare").is_ok());
    assert_eq!(*seen.lock().unwrap(), vec!["abc"]);
}

#[test]
fn contexts_keep_a_store_and_a_runtime() {
    let mut context = Context::new(new_store(), RUNTIME.as_bytes()).unwrap();
    let (mut store, runtime) = context.store_and_runtime();
    let plugin =
        Plugin::new(&mut store, runtime, 1, "x".to_string(), data(ECHO), vec![], ignore, refuse).unwrap();
    assert!(plugin.call(&mut context.store(), "ok").is_ok());
    assert!(Context::new(new_store(), b"(modul)").is_err());
    assert!(Context::new(webxtism::new_store(), RUNTIME.as_bytes()).is_ok());
}

#[test]
fn modules_keep_what_they_are() {
    let mut store = new_store();
    let mut store = store.as_store_mut();
    let code = |n: i32| format!("(module (func (export \"f\") (result i32) (i32.const {n})))");
    let (one, two) = (code(1), code(2));
    let wasm = vec![source(&one, None), source(&two, Some("other"))];
    let plugin = load(&mut store, manifest(wasm, &[]), vec![]).unwrap();
    assert!(matches!(plugin.call(&mut store, "f"), Err(PluginRunError::Failed(1))));
    let wasm = vec![source(&one, None), source(&two, None)];
    let plugin = load(&mut store, manifest(wasm, &[]), vec![]).unwrap();
    assert!(matches!(plugin.call(&mut store, "f"), Err(PluginRunError::Failed(2))));
}

#[test]
fn it_does_not_matter_where_bytes_are_from() {
    let mut store = new_store();
    let mut store = store.as_store_mut();
    let meta = || WasmMetadata { name: Some("main".to_string()), hash: None };
    let file = Wasm::File { path: "p".into(), meta: meta() };
    let inline = Wasm::Data { data: vec![], meta: meta() };
    let request = HttpRequest { url: "u".to_string(), headers: NameMap::new(), method: None };
    let url = Wasm::Url { req: request, meta: meta() };
    for wasm in [file, inline, url] {
        let fetched = wasm.with_data(ECHO.as_bytes().to_vec());
        let plugin = load(&mut store, manifest(vec![fetched], &[]), vec![]).unwrap();
        assert!(matches!(plugin.call(&mut store, "fail"), Err(PluginRunError::Failed(3))));
    }
}

#[test]
fn what_exports_store_they_fetch() {
    let mut store = new_store();
    let mut store = store.as_store_mut();
    let runtime = runtime(&store);
    let kernel = Arc::new(Kernel::new(&mut store, &runtime, 0).unwrap());
    let seen = Seen::default();
    seen.lock().unwrap().push("there and back".to_string());
    let mut built = Vec::new();
    for export in exports(&seen) {
        match export.build(&mut store, &kernel) {
            wasmer::Extern::Function(function) => built.push(function),
            _ => panic!("no function"),
        }
    }
    let place = built[2].call(&mut store, &[]).unwrap()[0].clone();
    assert!(seen.lock().unwrap().is_empty());
    assert!(built[1].call(&mut store, &[place]).is_ok());
    assert_eq!(*seen.lock().unwrap(), vec!["there and back"]);
}
