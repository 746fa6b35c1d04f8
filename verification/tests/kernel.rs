use wasmer::sys::{BaseTunables, NativeEngineExt};
use wasmer::{AsStoreMut, Engine, Module, Pages, Store, StoreMut};
use webxtism::engine::{ExportError, MemoryAccessError};
use webxtism::{ConvertError, Kernel, KernelError, MemoryHandle, PluginInstantiationError};

/// A store whose memories reserve no more address space than they use.
fn new_store() -> Store {
    let mut engine = Engine::default();
    engine.set_tunables(BaseTunables {
        static_memory_bound: Pages(0),
        static_memory_offset_guard_size: 0x10000,
        dynamic_memory_offset_guard_size: 0x10000,
    });
    Store::new(engine)
}

/// A kernel that puts blocks behind one another. Before a block stand a mark and its length.
const RUNTIME: &str = r#"
(module
  (import "extism:host/env" "memory" (memory 0))
  (export "memory" (memory 0))
  (global $next (mut i64) (i64.const 64))
  (global $in_offset (mut i64) (i64.const 0))
  (global $in_length (mut i64) (i64.const 0))
  (global $out_offset (mut i64) (i64.const 0))
  (global $out_length (mut i64) (i64.const 0))
  (func $grow (drop (memory.grow (i32.const 1))))
  (start $grow)
  (func (export "alloc") (param $n i64) (result i64)
    (local $p i64)
    (local.set $p (i64.add (global.get $next) (i64.const 16)))
    (if (i64.gt_u (local.get $n) (i64.const 60000)) (then (return (i64.const 0))))
    (if (i64.gt_u (i64.add (local.get $p) (local.get $n)) (i64.const 65000))
      (then (return (i64.const 0))))
    (i64.store (i32.wrap_i64 (i64.sub (local.get $p) (i64.const 16))) (i64.const 77))
    (i64.store (i32.wrap_i64 (i64.sub (local.get $p) (i64.const 8))) (local.get $n))
    (global.set $next
      (i64.and (i64.add (i64.add (local.get $p) (local.get $n)) (i64.const 7)) (i64.const -8)))
    (local.get $p))
  (func (export "length") (param $o i64) (result i64)
    (if (i64.lt_u (local.get $o) (i64.const 80)) (then (return (i64.const 0))))
    (if (i64.gt_u (local.get $o) (i64.const 65000)) (then (return (i64.const 0))))
    (if (i64.ne (i64.load (i32.wrap_i64 (i64.sub (local.get $o) (i64.const 16)))) (i64.const 77))
      (then (return (i64.const 0))))
    (i64.load (i32.wrap_i64 (i64.sub (local.get $o) (i64.const 8)))))
  (func (export "free") (param $o i64)
    (if (i64.eqz (local.get $o)) (then (return)))
    (i64.store (i32.wrap_i64 (i64.sub (local.get $o) (i64.const 16))) (i64.const 0)))
  (func (export "input_set") (param i64 i64)
    (global.set $in_offset (local.get 0)) (global.set $in_length (local.get 1)))
  (func (export "output_set") (param i64 i64)
    (global.set $out_offset (local.get 0)) (global.set $out_length (local.get 1)))
  (func (export "input_offset") (result i64) (global.get $in_offset))
  (func (export "input_length") (result i64) (global.get $in_length))
  (func (export "output_offset") (result i64) (global.get $out_offset))
  (func (export "output_length") (result i64) (global.get $out_length))
  (func (export "store_u8") (param i64 i32)
    (i32.store8 (i32.wrap_i64 (local.get 0)) (local.get 1))))
"#;

fn start(store: &mut StoreMut<'_>, runtime: &str) -> Kernel {
    let module = Module::new(store, runtime).unwrap();
    Kernel::new(store, &module, 5).unwrap()
}

#[test]
fn starts_with_the_number_of_the_plugin() {
    let mut store = new_store();
    let kernel = start(&mut store.as_store_mut(), RUNTIME);
    assert_eq!(kernel.id(), 5);
    assert_eq!(kernel.duplicate().id(), 5);
    assert!(kernel.memory().is_ok());
    let exports = kernel.exports();
    assert_eq!(exports.len(), 11);
    assert!(exports.iter().any(|(name, _)| name == "alloc"));
    assert!(exports.iter().any(|(name, _)| name == "memory"));
}

#[test]
fn bytes_are_read_back() {
    let mut store = new_store();
    let mut store = store.as_store_mut();
    let kernel = start(&mut store, RUNTIME);
    let first = kernel.memory_new(&mut store, Ok(vec![1, 2, 3])).unwrap();
    let second = kernel.memory_new(&mut store, Ok(vec![9; 10])).unwrap();
    assert_eq!(first, MemoryHandle { offset: 80, length: 3 });
    assert_eq!(second.length, 10);
    assert_eq!(kernel.memory_bytes(&mut store, first).unwrap(), vec![1, 2, 3]);
    assert_eq!(kernel.memory_bytes(&mut store, second).unwrap(), vec![9; 10]);
    assert_eq!(kernel.memory_length(&mut store, first.offset).unwrap(), 3);
    assert_eq!(kernel.memory_handle(&mut store, first.offset), Some(first));
}

#[test]
fn text_is_read_back() {
    let mut store = new_store();
    let mut store = store.as_store_mut();
    let kernel = start(&mut store, RUNTIME);
    let text = "h\u{e9}llo \u{1f600}";
    let handle = kernel.memory_new(&mut store, Ok(text.as_bytes().to_vec())).unwrap();
    assert_eq!(kernel.memory_string(&mut store, handle).unwrap(), text);
}

#[test]
fn nothing_has_no_block() {
    let mut store = new_store();
    let mut store = store.as_store_mut();
    let kernel = start(&mut store, RUNTIME);
    assert_eq!(kernel.memory_new(&mut store, Ok(vec![])).unwrap(), MemoryHandle::null());
    assert_eq!(kernel.memory_alloc(&mut store, 0).unwrap(), MemoryHandle::null());
    assert_eq!(kernel.memory_handle(&mut store, 0), Some(MemoryHandle::null()));
    assert_eq!(kernel.memory_bytes(&mut store, MemoryHandle::null()).unwrap(), Vec::<u8>::new());
}

#[test]
fn freed_blocks_are_not_found() {
    let mut store = new_store();
    let mut store = store.as_store_mut();
    let kernel = start(&mut store, RUNTIME);
    let handle = kernel.memory_alloc(&mut store, 7).unwrap();
    assert_eq!(handle.length, 7);
    assert_eq!(kernel.memory_length(&mut store, handle.offset).unwrap(), 7);
    assert!(kernel.memory_free(&mut store, handle).is_ok());
    assert_eq!(kernel.memory_length(&mut store, handle.offset).unwrap(), 0);
    assert_eq!(kernel.memory_handle(&mut store, handle.offset), None);
    assert_eq!(kernel.memory_handle(&mut store, 3), None);
}

#[test]
fn room_runs_out() {
    let mut store = new_store();
    let mut store = store.as_store_mut();
    let kernel = start(&mut store, RUNTIME);
    let result = kernel.memory_alloc(&mut store, 100_000);
    assert!(matches!(result, Err(KernelError::OutOfMemory)));
    let result = kernel.memory_new(&mut store, Ok(vec![0; 100_000]));
    assert!(matches!(result, Err(KernelError::OutOfMemory)));
}

#[test]
fn reads_stop_where_the_memory_ends() {
    let mut store = new_store();
    let mut store = store.as_store_mut();
    let kernel = start(&mut store, RUNTIME);
    let end = MemoryHandle { offset: 65_530, length: 100 };
    assert_eq!(kernel.memory_bytes(&mut store, end).unwrap(), vec![0; 6]);
    let beyond = MemoryHandle { offset: 70_000, length: 1 };
    assert_eq!(kernel.memory_bytes(&mut store, beyond).unwrap(), Vec::<u8>::new());
    let round = MemoryHandle { offset: 16, length: u64::MAX };
    assert_eq!(kernel.memory_bytes(&mut store, round).unwrap(), Vec::<u8>::new());
}

#[test]
fn bytes_that_are_no_text_are_refused() {
    let mut store = new_store();
    let mut store = store.as_store_mut();
    let kernel = start(&mut store, RUNTIME);
    let handle = kernel.memory_new(&mut store, Ok(vec![0xff, 0xfe])).unwrap();
    let result = kernel.memory_string(&mut store, handle);
    assert!(matches!(result, Err(KernelError::FromUtf8Error(_))));
}

#[test]
fn values_that_do_not_encode_are_refused() {
    let mut store = new_store();
    let mut store = store.as_store_mut();
    let kernel = start(&mut store, RUNTIME);
    let result = kernel.memory_new(&mut store, Err(extism_convert::Error::msg("no")));
    match result {
        Err(KernelError::Extism(err)) => assert_eq!(err.to_string(), "no"),
        _ => panic!("the value was taken"),
    }
}

#[test]
fn values_are_decoded() {
    let mut store = new_store();
    let mut store = store.as_store_mut();
    let kernel = start(&mut store, RUNTIME);
    let handle = kernel.memory_new(&mut store, Ok(vec![4, 5])).unwrap();
    let sum = |bytes: Vec<u8>| Ok(bytes.iter().map(|byte| *byte as u32).sum::<u32>());
    assert_eq!(kernel.memory_get(&mut store, handle, &sum).unwrap(), 9);
    let refuse = |_bytes: Vec<u8>| Err::<u32, _>(extism_convert::Error::msg("odd"));
    match kernel.memory_get(&mut store, handle, &refuse) {
        Err(ConvertError::Convert(err)) => assert_eq!(err.to_string(), "odd"),
        _ => panic!("the bytes were decoded"),
    }
}

#[test]
fn input_and_output_are_kept_apart() {
    let mut store = new_store();
    let mut store = store.as_store_mut();
    let kernel = start(&mut store, RUNTIME);
    let input = MemoryHandle { offset: 100, length: 20 };
    let output = MemoryHandle { offset: 300, length: u64::MAX };
    assert!(kernel.set_input(&mut store, input).is_ok());
    assert!(kernel.set_output(&mut store, output).is_ok());
    assert_eq!(kernel.get_input(&mut store).unwrap(), input);
    assert_eq!(kernel.get_output(&mut store).unwrap(), output);
}

#[test]
fn other_stores_are_refused() {
    let mut home = new_store();
    let kernel = start(&mut home.as_store_mut(), RUNTIME);
    let mut other = new_store();
    let mut other = other.as_store_mut();
    let handle = MemoryHandle { offset: 80, length: 1 };
    assert!(matches!(kernel.memory_length(&mut other, 80), Err(KernelError::ContextGone)));
    assert!(matches!(kernel.memory_alloc(&mut other, 1), Err(KernelError::ContextGone)));
    assert!(matches!(kernel.memory_new(&mut other, Ok(vec![1])), Err(KernelError::ContextGone)));
    assert!(matches!(kernel.memory_free(&mut other, handle), Err(KernelError::ContextGone)));
    assert!(matches!(kernel.memory_bytes(&mut other, handle), Err(KernelError::ContextGone)));
    assert!(matches!(kernel.memory_string(&mut other, handle), Err(KernelError::ContextGone)));
    assert!(matches!(kernel.set_input(&mut other, handle), Err(KernelError::ContextGone)));
    assert!(matches!(kernel.set_output(&mut other, handle), Err(KernelError::ContextGone)));
    assert!(matches!(kernel.get_input(&mut other), Err(KernelError::ContextGone)));
    assert!(matches!(kernel.get_output(&mut other), Err(KernelError::ContextGone)));
    assert_eq!(kernel.memory_handle(&mut other, 80), None);
    assert_eq!(kernel.memory_handle(&mut other, 0), Some(MemoryHandle::null()));
    assert_eq!(kernel.memory_alloc(&mut other, 0).unwrap(), MemoryHandle::null());
    let decode = |bytes: Vec<u8>| Ok::<Vec<u8>, extism_convert::Error>(bytes);
    assert!(matches!(
        kernel.memory_get(&mut other, handle, &decode),
        Err(ConvertError::Kernel(KernelError::ContextGone))
    ));
}

#[test]
fn kernels_may_lack_functions() {
    let mut store = new_store();
    let mut store = store.as_store_mut();
    let kernel = start(
        &mut store,
        r#"(module
            (func (export "length") (param i32) (result i64) (i64.const 1))
            (func (export "free") (param i64) unreachable)
            (func (export "alloc") (param i64) (result i64) (i64.const 8)))"#,
    );
    match kernel.get_output(&mut store) {
        Err(KernelError::Export(ExportError::Missing(name))) => assert_eq!(name, "output_offset"),
        _ => panic!("there was an answer"),
    }
    assert!(matches!(
        kernel.memory_length(&mut store, 1),
        Err(KernelError::Export(ExportError::IncompatibleType))
    ));
    assert!(matches!(
        kernel.memory_free(&mut store, MemoryHandle::null()),
        Err(KernelError::Runtime(_))
    ));
    match kernel.memory_new(&mut store, Ok(vec![1])) {
        Err(KernelError::Export(ExportError::Missing(name))) => assert_eq!(name, "memory"),
        _ => panic!("there was a memory"),
    }
    assert!(kernel.memory().is_err());
}

#[test]
fn blocks_beyond_the_memory_are_not_written() {
    let mut store = new_store();
    let mut store = store.as_store_mut();
    let kernel = start(
        &mut store,
        r#"(module
            (memory (export "memory") 1)
            (func (export "alloc") (param i64) (result i64)
              (if (i64.eq (local.get 0) (i64.const 1)) (then (return (i64.const 65536))))
              (i64.const -1)))"#,
    );
    assert!(matches!(
        kernel.memory_new(&mut store, Ok(vec![1])),
        Err(KernelError::MemoryAccess(MemoryAccessError::HeapOutOfBounds))
    ));
    assert!(matches!(
        kernel.memory_new(&mut store, Ok(vec![1, 2])),
        Err(KernelError::MemoryAccess(MemoryAccessError::Overflow))
    ));
}

#[test]
fn kernels_that_cannot_be_linked_do_not_start() {
    let mut store = new_store();
    let mut store = store.as_store_mut();
    let module = Module::new(&store, r#"(module (import "a" "b" (func)))"#).unwrap();
    assert!(matches!(
        Kernel::new(&mut store, &module, 0),
        Err(PluginInstantiationError::Wasmer(_))
    ));
}

#[test]
fn output_and_input_come_back() {
    let mut store = new_store();
    let mut store = store.as_store_mut();
    let kernel = start(&mut store, RUNTIME);
    let output = MemoryHandle { offset: u64::MAX - 3, length: 1 << 63 };
    let input = MemoryHandle { offset: 7, length: 0 };
    assert!(kernel.set_output(&mut store, output).is_ok());
    assert!(kernel.set_input(&mut store, input).is_ok());
    assert_eq!(kernel.get_output(&mut store).unwrap(), output);
    assert_eq!(kernel.get_input(&mut store).unwrap(), input);
    assert_eq!(kernel.duplicate().get_output(&mut store).unwrap(), output);
    assert!(kernel.set_input(&mut store, output).is_ok());
    assert!(kernel.set_input(&mut store, MemoryHandle::null()).is_ok());
    assert_eq!(kernel.get_output(&mut store).unwrap(), output);
    assert!(kernel.set_output(&mut store, input).is_ok());
    assert_eq!(kernel.get_input(&mut store).unwrap(), MemoryHandle::null());
}
