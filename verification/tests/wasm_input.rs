use std::borrow::Cow;
use std::path::PathBuf;
use webxtism::names::NameMap;
use webxtism::load::{PluginInput, WasmSource};
use webxtism::wasm_input::{
    check_request, FetchPlan, HttpRequest, Manifest, Wasm, WasmMetadata,
};
use webxtism::{PluginLoadError, WasmInput};

fn request(method: Option<&str>, headers: &[(&str, &str)]) -> HttpRequest {
    let mut map = NameMap::new();
    for (name, value) in headers {
        map.insert(name.to_string(), value.to_string());
    }
    HttpRequest { url: "http://x/".to_string(), headers: map, method: method.map(str::to_string) }
}

#[test]
fn requests_have_a_method() {
    assert_eq!(check_request(&request(None, &[])).unwrap(), "GET");
    assert_eq!(check_request(&request(Some("POST"), &[])).unwrap(), "POST");
    let long = "a~!#$%&'*+-.^_`|".repeat(20);
    assert_eq!(check_request(&request(Some(&long), &[])).unwrap(), long);
    for method in ["", "GE T", "G\u{e9}T", "a{b", "a(", "a/b"] {
        assert!(matches!(
            check_request(&request(Some(method), &[])),
            Err(PluginLoadError::InvalidHttpMethod)
        ));
    }
}

#[test]
fn headers_are_checked() {
    assert!(check_request(&request(None, &[("accept", "a\tb \u{e9}"), ("X-Y", "")])).is_ok());
    assert!(check_request(&request(None, &[(&"a".repeat(65_535), "")])).is_ok());
    for name in ["", "a b", "a:b", "\u{e9}", &"a".repeat(65_536)] {
        assert!(matches!(
            check_request(&request(None, &[(name, "v")])),
            Err(PluginLoadError::InvalidHeaderName)
        ));
    }
    for value in ["a\nb", "\u{0}", "\u{7f}"] {
        assert!(matches!(
            check_request(&request(None, &[("name", value)])),
            Err(PluginLoadError::InvalidHeaderValue)
        ));
    }
}

#[test]
fn the_first_problem_counts() {
    assert!(matches!(
        check_request(&request(Some(""), &[("a b", "\n")])),
        Err(PluginLoadError::InvalidHttpMethod)
    ));
    assert!(matches!(
        check_request(&request(None, &[("b b", "v"), ("a", "\n")])),
        Err(PluginLoadError::InvalidHeaderValue)
    ));
    assert!(matches!(
        check_request(&request(None, &[("a b", "\n"), ("b", "\n")])),
        Err(PluginLoadError::InvalidHeaderName)
    ));
}

#[test]
fn modules_are_fetched_from_where_they_are() {
    let meta = WasmMetadata { name: Some("m".to_string()), hash: None };
    let file = Wasm::File { path: PathBuf::from("p"), meta: meta.clone() };
    assert!(matches!(file.plan(false), Err(PluginLoadError::NotSupportedOnWeb)));
    assert!(matches!(file.plan(true), Ok(FetchPlan::Read(path)) if path == &PathBuf::from("p")));
    let data = Wasm::Data { data: vec![1, 2], meta: WasmMetadata::default() };
    assert!(data.plan(false).is_ok());
    assert!(matches!(data.plan(true), Ok(FetchPlan::Inline(bytes)) if bytes == &vec![1, 2]));
    let url = Wasm::Url { req: request(None, &[]), meta: meta.clone() };
    match url.plan(true) {
        Ok(FetchPlan::Request { method, req }) => {
            assert_eq!((method.as_str(), req.url.as_str()), ("GET", "http://x/"));
        }
        _ => panic!("no request"),
    }
    let bad = Wasm::Url { req: request(Some(" "), &[]), meta };
    assert!(matches!(bad.plan(true), Err(PluginLoadError::InvalidHttpMethod)));
    let source = url.with_data(vec![7]);
    assert_eq!((source.data, source.name), (vec![7], Some("m".to_string())));
    assert_eq!(data.with_data(vec![]).name, None);
}

#[test]
fn manifests_are_copied() {
    let meta = WasmMetadata { name: None, hash: Some("h".to_string()) };
    let wasm = vec![Wasm::File { path: PathBuf::from("a/b"), meta }];
    let copy = Manifest { wasm, config: NameMap::new() }.clone();
    match &copy.wasm[0] {
        Wasm::File { path, meta } => {
            assert_eq!(path, &PathBuf::from("a/b"));
            assert_eq!(meta.hash.as_deref(), Some("h"));
        }
        _ => panic!("no file"),
    }
}

#[test]
fn files_are_manifests() {
    match WasmInput::file(PathBuf::from("a.wasm")) {
        WasmInput::Manifest(Cow::Owned(manifest)) => {
            assert_eq!(manifest.wasm.len(), 1);
            assert_eq!(manifest.config.len(), 0);
            match &manifest.wasm[0] {
                Wasm::File { path, meta } => {
                    assert_eq!(path, &PathBuf::from("a.wasm"));
                    assert!(meta.name.is_none() && meta.hash.is_none());
                }
                _ => panic!("no file"),
            }
        }
        _ => panic!("no manifest"),
    }
}

#[test]
fn inputs_come_from_many_things() {
    let bytes = vec![1u8, 2];
    assert!(matches!(WasmInput::from(&bytes), WasmInput::Data(Cow::Borrowed([1, 2]))));
    assert!(matches!(WasmInput::from(bytes.as_slice()), WasmInput::Data(Cow::Borrowed([1, 2]))));
    assert!(matches!(WasmInput::from(bytes), WasmInput::Data(Cow::Owned(_))));
    assert!(matches!(WasmInput::from("ab"), WasmInput::Data(Cow::Borrowed([97, 98]))));
    let manifest = Manifest { wasm: vec![], config: NameMap::new() };
    assert!(matches!(WasmInput::from(&manifest), WasmInput::Manifest(Cow::Borrowed(_))));
    assert!(matches!(WasmInput::from(manifest), WasmInput::Manifest(Cow::Owned(_))));
}

#[test]
fn inputs_become_loadable() {
    assert!(matches!(
        WasmInput::from("ab").with_modules(vec![]),
        PluginInput::Data(data) if data == vec![97, 98]
    ));
    assert!(matches!(
        WasmInput::from(vec![3u8]).with_modules(vec![]),
        PluginInput::Data(data) if data == vec![3]
    ));
    let mut config = NameMap::new();
    config.insert("k".to_string(), "v".to_string());
    let manifest = Manifest { wasm: vec![], config };
    let fetched = || vec![WasmSource { data: vec![1], name: None }];
    for input in [WasmInput::from(&manifest), WasmInput::from(manifest.clone())] {
        match input.with_modules(fetched()) {
            PluginInput::Manifest { wasm, config } => {
                assert_eq!(wasm.len(), 1);
                assert_eq!(wasm[0].data, vec![1]);
                assert_eq!(config.get("k"), Some(&"v".to_string()));
            }
            _ => panic!("no manifest"),
        }
    }
}
