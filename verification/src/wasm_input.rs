//! What plugins are loaded from.
use crate::engine;
use crate::errors::{LoadProblem, PluginLoadError};
use crate::link::NamedModule;
use crate::load::{self, PluginInput, WasmSource};
use crate::names::{self, NameMap};
use std::borrow::Cow;
use std::path::PathBuf;
use vstd::prelude::*;
use vstd::slice::*;
use vstd::string::*;
use vstd::utf8::*;
use wasmer::{CompileError, StoreMut};

verus! {

/// A path in the file system.
#[verifier::external_type_specification]
#[verifier::external_body]
pub struct ExPathBuf(std::path::PathBuf);

/// Copies a path.
///
/// `PathBuf::clone` gives an equal path.
pub assume_specification[ <std::path::PathBuf as std::clone::Clone>::clone ](
    path: &std::path::PathBuf,
) -> (result: std::path::PathBuf)
    ensures
        result == *path,
;

/// What is said of a module besides its bytes.
#[derive(Debug, Clone)]
pub struct WasmMetadata {
    pub name: Option<String>,
    pub hash: Option<String>,
}

impl Default for WasmMetadata {
    fn default() -> (result: Self)
        ensures
            result.name is None,
            result.hash is None,
    {
        WasmMetadata { name: None, hash: None }
    }
}

/// A request by which a module is fetched.
#[derive(Debug, Clone)]
pub struct HttpRequest {
    pub url: String,
    pub headers: NameMap<String>,
    pub method: Option<String>,
}

/// Where a module is had from.
#[derive(Debug, Clone)]
pub enum Wasm {
    File { path: PathBuf, meta: WasmMetadata },
    Data { data: Vec<u8>, meta: WasmMetadata },
    Url { req: HttpRequest, meta: WasmMetadata },
}

/// The modules of a plugin, and its configuration.
#[derive(Debug, Clone)]
pub struct Manifest {
    pub wasm: Vec<Wasm>,
    pub config: NameMap<String>,
}

/// What a plugin is loaded from: a module, or a manifest.
#[derive(Debug)]
pub enum WasmInput<'a> {
    Data(Cow<'a, [u8]>),
    Manifest(Cow<'a, Manifest>),
}

impl WasmInput<'_> {
    /// A module in a file.
    pub fn file(path: PathBuf) -> (result: Self)
        ensures
            is_file(result, path),
    {
        let mut wasm: Vec<Wasm> = Vec::new();
        wasm.push(Wasm::File { path, meta: WasmMetadata::default() });
        WasmInput::Manifest(Cow::Owned(Manifest { wasm, config: NameMap::new() }))
    }
}

/// Whether an input is a manifest with one module, which is in a file and has no name, and without
/// configuration.
pub open spec fn is_file(input: WasmInput<'_>, path: PathBuf) -> bool {
    &&& input matches WasmInput::Manifest(Cow::Owned(manifest))
    &&& manifest.wasm@.len() == 1
    &&& manifest.wasm@[0] matches Wasm::File { path: kept, meta }
    &&& kept == path
    &&& meta.name is None
    &&& meta.hash is None
    &&& manifest.config@ == Map::<Seq<char>, String>::empty()
}

impl<'a> From<&'a Manifest> for WasmInput<'a> {
    fn from(manifest: &'a Manifest) -> (result: Self) {
        WasmInput::Manifest(Cow::Borrowed(manifest))
    }
}

impl<'a> vstd::std_specs::convert::FromSpecImpl<&'a Manifest> for WasmInput<'a> {
    open spec fn obeys_from_spec() -> bool {
        true
    }

    open spec fn from_spec(manifest: &'a Manifest) -> Self {
        WasmInput::Manifest(Cow::Borrowed(manifest))
    }
}

impl From<Manifest> for WasmInput<'_> {
    fn from(manifest: Manifest) -> (result: Self) {
        WasmInput::Manifest(Cow::Owned(manifest))
    }
}

impl vstd::std_specs::convert::FromSpecImpl<Manifest> for WasmInput<'_> {
    open spec fn obeys_from_spec() -> bool {
        true
    }

    open spec fn from_spec(manifest: Manifest) -> Self {
        WasmInput::Manifest(Cow::Owned(manifest))
    }
}

impl<'a> From<&'a [u8]> for WasmInput<'a> {
    fn from(data: &'a [u8]) -> (result: Self) {
        WasmInput::Data(Cow::Borrowed(data))
    }
}

impl<'a> vstd::std_specs::convert::FromSpecImpl<&'a [u8]> for WasmInput<'a> {
    open spec fn obeys_from_spec() -> bool {
        true
    }

    open spec fn from_spec(data: &'a [u8]) -> Self {
        WasmInput::Data(Cow::Borrowed(data))
    }
}

impl From<Vec<u8>> for WasmInput<'_> {
    fn from(data: Vec<u8>) -> (result: Self) {
        WasmInput::Data(Cow::Owned(data))
    }
}

impl vstd::std_specs::convert::FromSpecImpl<Vec<u8>> for WasmInput<'_> {
    open spec fn obeys_from_spec() -> bool {
        true
    }

    open spec fn from_spec(data: Vec<u8>) -> Self {
        WasmInput::Data(Cow::Owned(data))
    }
}

impl<'a> vstd::std_specs::convert::FromSpecImpl<&'a Vec<u8>> for WasmInput<'a> {
    open spec fn obeys_from_spec() -> bool {
        false
    }

    open spec fn from_spec(data: &'a Vec<u8>) -> Self {
        arbitrary()
    }
}

impl<'a> From<&'a Vec<u8>> for WasmInput<'a> {
    fn from(data: &'a Vec<u8>) -> (result: Self)
        ensures
            result matches WasmInput::Data(Cow::Borrowed(bytes)) && bytes@ == data@,
    {
        WasmInput::Data(Cow::Borrowed(data.as_slice()))
    }
}

impl<'a> vstd::std_specs::convert::FromSpecImpl<&'a str> for WasmInput<'a> {
    open spec fn obeys_from_spec() -> bool {
        false
    }

    open spec fn from_spec(data: &'a str) -> Self {
        arbitrary()
    }
}

impl<'a> From<&'a str> for WasmInput<'a> {
    fn from(data: &'a str) -> (result: Self)
        ensures
            result matches WasmInput::Data(Cow::Borrowed(bytes)) && bytes@ == encode_utf8(data@),
    {
        WasmInput::Data(Cow::Borrowed(data.as_bytes()))
    }
}

/// Whether a character may stand in a token of HTTP: a letter, a digit, or one of some marks.
pub open spec fn is_token_char(c: char) -> bool {
    ||| 'a' <= c <= 'z'
    ||| 'A' <= c <= 'Z'
    ||| '0' <= c <= '9'
    ||| c == '!' || c == '#' || c == '$' || c == '%' || c == '&' || c == '\'' || c == '*'
    ||| c == '+' || c == '-' || c == '.' || c == '^' || c == '_' || c == '`' || c == '|'
    ||| c == '~'
}

/// Whether a text is a token of HTTP.
pub open spec fn is_token(text: Seq<char>) -> bool {
    text.len() > 0 && forall|i: int| 0 <= i < text.len() ==> is_token_char(#[trigger] text[i])
}

/// Whether a text is the name of a header.
pub open spec fn is_header_name(text: Seq<char>) -> bool {
    is_token(text) && text.len() <= 65535
}

/// Whether a text is the value of a header: it holds no control characters but tabs.
pub open spec fn is_header_value(text: Seq<char>) -> bool {
    forall|i: int|
        0 <= i < text.len() ==> {
            ||| (#[trigger] text[i]) as int >= 32 && text[i] as int != 127
            ||| text[i] as int == 9
        }
}

/// Whether a text is a method of HTTP.
///
/// Calls `Method::from_str` of `reqwest`, which takes every token, however long.
#[verifier::external_body]
fn valid_method(text: &str) -> (result: bool)
    ensures
        result == is_token(text@),
{
    <reqwest::Method as std::str::FromStr>::from_str(text).is_ok()
}

/// Whether a text is the name of a header.
///
/// Calls `HeaderName::try_from` of `reqwest`, which takes every token up to a length.
#[verifier::external_body]
fn valid_header_name(text: &str) -> (result: bool)
    ensures
        result == is_header_name(text@),
{
    reqwest::header::HeaderName::try_from(text).is_ok()
}

/// Whether a text is the value of a header.
///
/// Calls `HeaderValue::from_str` of `reqwest`: in the bytes of the text it refuses those below 32
/// other than tabs, and 127; all bytes of characters beyond ASCII are larger.
#[verifier::external_body]
fn valid_header_value(text: &str) -> (result: bool)
    ensures
        result == is_header_value(text@),
{
    reqwest::header::HeaderValue::from_str(text).is_ok()
}

/// The method that a request uses when it names none.
pub const DEFAULT_METHOD: &'static str = "GET";

/// The method of a request.
pub open spec fn method_of(req: HttpRequest) -> Seq<char> {
    match req.method {
        Some(method) => method@,
        None => DEFAULT_METHOD@,
    }
}

/// What is wrong with the first `count` headers of a request, in the order of their names: the first
/// that is not valid decides, and its name before its value.
pub open spec fn header_problem(
    headers: Map<Seq<char>, String>,
    order: Seq<Seq<char>>,
    count: nat,
) -> Option<LoadProblem>
    decreases count,
{
    if count == 0 {
        None
    } else {
        match header_problem(headers, order, (count - 1) as nat) {
            Some(problem) => Some(problem),
            None => if !is_header_name(order[count - 1]) {
                Some(LoadProblem::InvalidHeaderName)
            } else if !is_header_value(headers[order[count - 1]]@) {
                Some(LoadProblem::InvalidHeaderValue)
            } else {
                None
            },
        }
    }
}

/// What is wrong with a request. The method is looked at before the headers.
pub open spec fn request_problem(req: HttpRequest) -> Option<LoadProblem> {
    if !is_token(method_of(req)) {
        Some(LoadProblem::InvalidHttpMethod)
    } else {
        header_problem(req.headers@, req.headers.names(), req.headers.names().len())
    }
}

/// After a header that is not valid, no other is looked at.
proof fn problem_stays(
    headers: Map<Seq<char>, String>,
    order: Seq<Seq<char>>,
    count: nat,
    total: nat,
)
    requires
        count <= total,
        header_problem(headers, order, count) is Some,
    ensures
        header_problem(headers, order, total) == header_problem(headers, order, count),
    decreases total,
{
    if count < total {
        problem_stays(headers, order, count, (total - 1) as nat);
    }
}

/// The method by which a module is fetched, if the request can be made at all.
pub fn check_request(req: &HttpRequest) -> (result: Result<String, PluginLoadError>)
    ensures
        match request_problem(*req) {
            Some(problem) => result matches Err(err) && err@ == problem,
            None => result matches Ok(method) && method@ == method_of(*req),
        },
        names::in_order(req.headers.names()),
        req.headers.names().to_set() == req.headers@.dom(),
{
    let method = match &req.method {
        Some(method) => method.clone(),
        None => DEFAULT_METHOD.to_owned(),
    };
    let count = req.headers.len();
    if !valid_method(method.as_str()) {
        return Err(PluginLoadError::InvalidHttpMethod);
    }
    let mut i: usize = 0;
    while i < count
        invariant
            i <= count,
            count == req.headers.names().len(),
            names::in_order(req.headers.names()),
            req.headers.names().to_set() == req.headers@.dom(),
            is_token(method_of(*req)),
            header_problem(req.headers@, req.headers.names(), i as nat) is None,
        decreases count - i,
    {
        if !valid_header_name(req.headers.name_at(i)) {
            proof {
                problem_stays(
                    req.headers@,
                    req.headers.names(),
                    (i + 1) as nat,
                    count as nat,
                );
            }
            return Err(PluginLoadError::InvalidHeaderName);
        }
        if !valid_header_value(req.headers.value_at(i).as_str()) {
            proof {
                problem_stays(
                    req.headers@,
                    req.headers.names(),
                    (i + 1) as nat,
                    count as nat,
                );
            }
            return Err(PluginLoadError::InvalidHeaderValue);
        }
        i = i + 1;
    }
    Ok(method)
}

/// What has to be done to get the bytes of a module.
#[derive(Debug)]
pub enum FetchPlan<'a> {
    /// A file has to be read.
    Read(&'a PathBuf),
    /// The bytes are there.
    Inline(&'a Vec<u8>),
    /// A request has to be made, with this method.
    Request { method: String, req: &'a HttpRequest },
}

impl Wasm {
    /// What is said of the module besides its bytes.
    pub open spec fn metadata(self) -> WasmMetadata {
        match self {
            Wasm::File { meta, .. } => meta,
            Wasm::Data { meta, .. } => meta,
            Wasm::Url { meta, .. } => meta,
        }
    }

    /// What has to be done to get the bytes of the module. A request that cannot be made is refused,
    /// and so is a file where there are none.
    pub fn plan(&self, has_files: bool) -> (result: Result<FetchPlan<'_>, PluginLoadError>)
        ensures
            match *self {
                Wasm::File { path, .. } => if has_files {
                    result matches Ok(FetchPlan::Read(kept)) && *kept == path
                } else {
                    result matches Err(PluginLoadError::NotSupportedOnWeb)
                },
                Wasm::Data { data, .. } => result matches Ok(FetchPlan::Inline(kept)) && *kept
                    == data,
                Wasm::Url { req, .. } => match request_problem(req) {
                    Some(problem) => result matches Err(err) && err@ == problem,
                    None => result matches Ok(FetchPlan::Request { method, req: kept }) && method@
                        == method_of(req) && *kept == req,
                },
            },
    {
        match self {
            Wasm::File { path, .. } => if has_files {
                Ok(FetchPlan::Read(path))
            } else {
                Err(PluginLoadError::NotSupportedOnWeb)
            },
            Wasm::Data { data, .. } => Ok(FetchPlan::Inline(data)),
            Wasm::Url { req, .. } => match check_request(req) {
                Ok(method) => Ok(FetchPlan::Request { method, req }),
                Err(err) => Err(err),
            },
        }
    }

    /// The module with its bytes, once they are there.
    pub fn with_data(&self, data: Vec<u8>) -> (result: WasmSource)
        ensures
            result.data == data,
            result.name == self.metadata().name,
    {
        let meta = match self {
            Wasm::File { meta, .. } => meta,
            Wasm::Data { meta, .. } => meta,
            Wasm::Url { meta, .. } => meta,
        };
        let name = match &meta.name {
            Some(name) => Some(name.clone()),
            None => None,
        };
        WasmSource { data, name }
    }
}

/// Whether something to load a plugin from is what an input becomes once the modules of its manifest
/// are there.
pub open spec fn is_loadable(
    input: WasmInput<'_>,
    fetched: Seq<WasmSource>,
    loadable: PluginInput,
) -> bool {
    match input {
        WasmInput::Data(Cow::Borrowed(data)) => loadable matches PluginInput::Data(kept) && kept@
            == data@,
        WasmInput::Data(Cow::Owned(data)) => loadable matches PluginInput::Data(kept) && kept@
            == data@,
        WasmInput::Manifest(Cow::Borrowed(manifest)) => {
            &&& loadable matches PluginInput::Manifest { wasm, config }
            &&& wasm@ == fetched
            &&& config@ == manifest.config@
        },
        WasmInput::Manifest(Cow::Owned(manifest)) => {
            &&& loadable matches PluginInput::Manifest { wasm, config }
            &&& wasm@ == fetched
            &&& config@ == manifest.config@
        },
    }
}

impl WasmInput<'_> {
    /// What a plugin is loaded from, once the modules of a manifest are there.
    pub fn with_modules(self, fetched: Vec<WasmSource>) -> (result: PluginInput)
        ensures
            is_loadable(self, fetched@, result),
    {
        match self {
            WasmInput::Data(data) => match data {
                Cow::Borrowed(data) => PluginInput::Data(slice_to_vec(data)),
                Cow::Owned(data) => PluginInput::Data(data),
            },
            WasmInput::Manifest(manifest) => match manifest {
                Cow::Borrowed(manifest) => {
                    let config = manifest.config.clone();
                    assert(config@ =~= manifest.config@);
                    PluginInput::Manifest { wasm: fetched, config }
                },
                Cow::Owned(manifest) => PluginInput::Manifest {
                    wasm: fetched,
                    config: manifest.config,
                },
            },
        }
    }
}

/// Whether modules are what their descriptions become once their bytes are there.
pub open spec fn are_fetched(
    wasm: Seq<Wasm>,
    data: Seq<Seq<u8>>,
    fetched: Seq<WasmSource>,
) -> bool {
    &&& wasm.len() == data.len()
    &&& fetched.len() == data.len()
    &&& forall|i: int|
        #![trigger fetched[i]]
        0 <= i < fetched.len() ==> fetched[i].data@ == data[i] && fetched[i].name
            == wasm[i].metadata().name
}

/// Whether the same names are asked for modules.
pub open spec fn same_names(left: Seq<Wasm>, right: Seq<Wasm>) -> bool {
    &&& left.len() == right.len()
    &&& forall|i: int|
        0 <= i < left.len() ==> load::name_text((#[trigger] left[i]).metadata().name)
            == load::name_text(right[i].metadata().name)
}

/// It does not matter where the bytes of modules were had from, be they read from files, requested, or
/// given. With the same bytes and names, whatever may come of loading the ones may come of loading the
/// others; and where both are loaded, they are looked up by the same names, bear the same names, and
/// have the same imports.
pub proof fn origin_does_not_matter(
    left_store: StoreMut<'_>,
    right_store: StoreMut<'_>,
    left: Seq<Wasm>,
    right: Seq<Wasm>,
    data: Seq<Seq<u8>>,
    left_fetched: Seq<WasmSource>,
    right_fetched: Seq<WasmSource>,
    left_outcome: Result<Map<Seq<char>, NamedModule>, CompileError>,
    right_outcome: Result<Map<Seq<char>, NamedModule>, CompileError>,
)
    requires
        engine::is_steady(left_store),
        engine::is_steady(right_store),
        same_names(left, right),
        are_fetched(left, data, left_fetched),
        are_fetched(right, data, right_fetched),
        load::loads_all(left_store, left_fetched, left_outcome),
        load::loads_all(right_store, right_fetched, right_outcome),
    ensures
        load::loads_all(left_store, right_fetched, left_outcome),
        load::loads_all(right_store, left_fetched, right_outcome),
        match (left_outcome, right_outcome) {
            (Ok(left_modules), Ok(right_modules)) => load::same_modules(
                left_modules,
                right_modules,
            ),
            _ => true,
        },
{
    assert forall|i: int| 0 <= i < left_fetched.len() implies load::name_text(
        (#[trigger] left_fetched[i]).name,
    ) == load::name_text(right_fetched[i].name) && left_fetched[i].data@ == right_fetched[i].data@ by {
        assert(load::name_text(left[i].metadata().name) == load::name_text(
            right[i].metadata().name,
        ));
    }
    assert(load::same_sources(left_fetched, right_fetched));
    assert(load::same_sources(right_fetched, left_fetched));
    load::same_sources_compile_alike(left_store, left_fetched, right_fetched, left_outcome);
    load::same_sources_compile_alike(right_store, right_fetched, left_fetched, right_outcome);
    if let Ok(left_modules) = left_outcome {
        if let Ok(right_modules) = right_outcome {
            load::same_sources_give_the_same_modules(
                left_store,
                right_store,
                left_fetched,
                right_fetched,
                left_modules,
                right_modules,
            );
        }
    }
}

} // verus!
