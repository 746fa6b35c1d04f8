use webxtism::engine::{CallError, ExportError};
use webxtism::kernel::{allocation, call_failure, located, text_of};
use webxtism::levels::{get_log_level, log_threshold_to_int};
use webxtism::load::{key_for, name_for};
use webxtism::names::NameMap;
use webxtism::plugin::judge;
use webxtism::{
    log_level_to_int, new_plugin_id, ContextGoneError, InMemoryVars, KernelError, LogLevel,
    MemoryHandle, PluginIdentifier, PluginRunError, PluginVars,
};

#[test]
fn levels_have_numbers() {
    assert_eq!(log_level_to_int(LogLevel::Trace), 0);
    assert_eq!(log_level_to_int(LogLevel::Debug), 1);
    assert_eq!(log_level_to_int(LogLevel::Info), 2);
    assert_eq!(log_level_to_int(LogLevel::Warn), 3);
    assert_eq!(log_level_to_int(LogLevel::Error), 4);
    assert_eq!(log_threshold_to_int(Some(LogLevel::Info)), 2);
    assert_eq!(log_threshold_to_int(None), i64::MAX);
}

#[test]
fn nothing_is_logged_without_a_subscriber() {
    assert_eq!(get_log_level(), i64::MAX);
}

#[test]
fn plugin_ids_are_counted() {
    let mut counter: usize = usize::MAX - 1;
    assert_eq!(new_plugin_id(&mut counter), usize::MAX - 1);
    assert_eq!(new_plugin_id(&mut counter), usize::MAX);
    assert_eq!(new_plugin_id(&mut counter), 0);
    assert_eq!(counter, 1);
}

#[test]
fn variables_are_set_and_removed() {
    let mut vars = InMemoryVars::default();
    assert_eq!(vars.get_var("a"), None);
    vars.set_var("a".to_string(), vec![1]);
    vars.set_var("b".to_string(), vec![]);
    assert_eq!(vars.get_var("a"), Some(vec![1]));
    assert_eq!(vars.get_var("b"), Some(vec![]));
    vars.set_var("a".to_string(), vec![2, 3]);
    assert_eq!(vars.get_var("a"), Some(vec![2, 3]));
    vars.remove_var("a");
    vars.remove_var("c");
    assert_eq!(vars.get_var("a"), None);
    assert_eq!(vars.get_var("b"), Some(vec![]));
}

#[test]
fn names_are_walked_in_order() {
    let mut map: NameMap<u8> = NameMap::new();
    assert_eq!(map.len(), 0);
    for (i, name) in ["b", "a", "\u{e9}", "", "ab", "Z", "a"].iter().enumerate() {
        map.insert(name.to_string(), i as u8);
    }
    let names: Vec<&str> = (0..map.len()).map(|i| map.name_at(i)).collect();
    assert_eq!(names, vec!["", "Z", "a", "ab", "b", "\u{e9}"]);
    assert_eq!(map.get("a"), Some(&6));
    assert_eq!(*map.value_at(2), 6);
    assert_eq!(map.get("c"), None);
    let copy = map.clone();
    assert_eq!(copy.len(), 6);
    assert_eq!(copy.get("Z"), Some(&5));
}

#[test]
fn many_types_identify_plugins() {
    fn identify<ID: PluginIdentifier>(_id: ID) {}
    identify("one");
    identify("two".to_string());
    identify(Box::<str>::from("three"));
}

#[test]
fn a_context_that_is_gone_is_an_error_everywhere() {
    let gone = ContextGoneError::ContextGone;
    assert!(matches!(KernelError::from(gone), KernelError::ContextGone));
    assert!(matches!(PluginRunError::from(gone), PluginRunError::ContextGone));
}

#[test]
fn answers_of_the_kernel_are_read() {
    assert_eq!(
        allocation(3, Ok(-8)).unwrap(),
        MemoryHandle { offset: u64::MAX - 7, length: 3 }
    );
    assert!(matches!(allocation(3, Ok(0)), Err(KernelError::OutOfMemory)));
    assert!(matches!(
        allocation(3, Err(KernelError::ContextGone)),
        Err(KernelError::ContextGone)
    ));
    assert_eq!(located(5, Ok(2)), Some(MemoryHandle { offset: 5, length: 2 }));
    assert_eq!(located(5, Ok(0)), None);
    assert_eq!(located(5, Err(KernelError::OutOfMemory)), None);
    assert_eq!(text_of(vec![104, 105]).unwrap(), "hi");
    assert!(matches!(text_of(vec![0xc0]), Err(KernelError::FromUtf8Error(_))));
    assert!(matches!(
        call_failure(CallError::Export(ExportError::IncompatibleType)),
        KernelError::Export(ExportError::IncompatibleType)
    ));
}

#[test]
fn ends_of_calls_are_judged() {
    assert!(judge(Ok(0)).is_ok());
    assert!(matches!(judge(Ok(-1)), Err(PluginRunError::Failed(-1))));
    let missing = ExportError::Missing("f".to_string());
    assert!(matches!(
        judge(Err(CallError::Export(missing))),
        Err(PluginRunError::Export(ExportError::Missing(name))) if name == "f"
    ));
    let trap = wasmer::RuntimeError::new("t");
    assert!(matches!(judge(Err(CallError::Runtime(trap))), Err(PluginRunError::Runtime(_))));
}

#[test]
fn names_are_chosen() {
    let some = |name: &str| Some(name.to_string());
    assert_eq!(name_for(&some("a"), some("b")), "a");
    assert_eq!(name_for(&None, some("b")), "b");
    assert_eq!(name_for(&None, None), "main");
    assert_eq!(key_for(&some("a")), "a");
    assert_eq!(key_for(&None), "main");
}
