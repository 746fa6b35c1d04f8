//! That what is made, loaded and linked is made, loaded and linked as the laws say.
use super::linking;
use super::loading;
use super::origins;
use crate::engine::{self, CallError};
use crate::env;
use crate::errors::{
    self, KernelError, KernelErrorView, LoadProblem, PluginInstantiationError, PluginLoadError,
    PluginRunError, RunProblem,
};
use crate::function::HostExport;
use crate::host::{HostEvent, HttpAnswer, PluginIdentifier, PluginMetadata};
use crate::kernel::{self, Kernel, MemoryHandle};
use crate::levels::{self, LogLevel};
use crate::link::{self, Definitions, ExternMap, LinkState, LinkWorld, NamedModule};
use crate::load::{self, PluginInput, WasmSource};
use crate::names::{self, NameMap};
use crate::plugin::{self, Plugin};
use crate::vars::{InMemoryVars, PluginVars};
use crate::wasm_input::{self, FetchPlan, HttpRequest, Wasm, WasmInput};
use vstd::prelude::*;
use vstd::utf8::*;
use wasmer::{CompileError, Extern, Instance, Module, StoreMut};

verus! {

/// A plugin is loaded from all of its input, or there is a reason why not.
pub proof fn new_loads_the_whole_plugin<
    ID: PluginIdentifier,
    L: Fn(&ID, HostEvent) + Send + 'static,
    S: Fn(Vec<u8>, Vec<u8>) -> Result<HttpAnswer, ()> + Send + 'static,
>(
    store: &mut StoreMut<'_>,
    runtime: &Module,
    plugin_id: usize,
    id: ID,
    input: PluginInput,
    given: Vec<HostExport>,
    emit: L,
    send: S,
    result: Result<Plugin, PluginLoadError>,
)
    requires
        call_ensures(
            Plugin::new::<ID, L, S>,
            (store, runtime, plugin_id, id, input, given, emit, send),
            result,
        ),
    ensures
        match result {
            Ok(plugin) => {
                &&& plugin.number() == plugin_id
                &&& plugin.home() == engine::store_id(*final(store))
                &&& plugin.home() == engine::store_id(*old(store))
                &&& plugin.own_kernel() == plugin.parts().kernel
                &&& plugin.own_kernel().number() == plugin_id
                &&& engine::instance_store(plugin.own_kernel().instance()) == plugin.home()
                &&& loading::was_loaded(
                    *old(store),
                    *runtime,
                    id,
                    input,
                    given@,
                    emit,
                    send,
                    plugin.parts(),
                    *final(store),
                )
            },
            Err(err) => loading::could_not_be_loaded(
                *old(store),
                *runtime,
                input,
                given@,
                err@,
                *final(store),
            ),
        },
{
    match result {
        Ok(plugin) => {
            loading::plugins_start_afresh(
                *old(store),
                *runtime,
                id,
                input,
                given@,
                emit,
                send,
                plugin.parts(),
                *final(store),
            );
        },
        Err(err) => {
            loading::loading_fails_only_with_a_reason(
                *old(store),
                *runtime,
                id,
                input,
                given@,
                emit,
                send,
                err@,
                *final(store),
            );
        },
    }
}

/// A module is compiled from all of its bytes, and named.
pub proof fn load_module_makes_the_module(
    store: &StoreMut<'_>,
    data: &[u8],
    name: &Option<String>,
    result: Result<NamedModule, CompileError>,
)
    requires
        call_ensures(load::load_module, (store, data, name), result),
    ensures
        match result {
            Ok(named) => loading::is_made_of(
                *store,
                data@,
                match *name {
                    Some(text) => Some(text@),
                    None => None,
                },
                named,
            ),
            Err(err) => engine::compilation(*store, data@, Err(err)),
        },
{
    loading::modules_are_made_of_their_bytes(*store, data@, load::name_text(*name), result);
}

/// The modules of a manifest are all compiled, and looked up by their names; the first one that does not compile
/// is told.
pub proof fn load_modules_makes_all_modules(
    store: &StoreMut<'_>,
    sources: &Vec<WasmSource>,
    result: Result<NameMap<NamedModule>, CompileError>,
)
    requires
        call_ensures(load::load_modules, (store, sources), result),
    ensures
        result matches Ok(modules) ==> {
            &&& forall|i: int|
                0 <= i < sources@.len() ==> modules@.contains_key(
                    loading::looked_up_by(#[trigger] sources@[i]),
                )
            &&& forall|i: int|
                0 <= i < sources@.len() && loading::is_last(sources@, i) ==> loading::is_made_of(
                    *store,
                    (#[trigger] sources@[i]).data@,
                    loading::wanted(sources@[i]),
                    modules@[loading::looked_up_by(sources@[i])],
                )
            &&& forall|key: Seq<char>| #[trigger]
                modules@.contains_key(key) ==> exists|i: int|
                    0 <= i < sources@.len() && loading::looked_up_by(#[trigger] sources@[i]) == key
        },
        result matches Err(err) ==> exists|i: int|
            0 <= i < sources@.len() && engine::compilation(
                *store,
                (#[trigger] sources@[i]).data@,
                Err(err),
            ) && forall|j: int|
                0 <= j < i ==> loading::does_compile(*store, #[trigger] sources@[j]),
{
    match result {
        Ok(modules) => {
            loading::manifests_give_all_their_modules(*store, sources@, modules@);
        },
        Err(err) => {
            loading::manifests_fail_with_a_module(*store, sources@, err);
        },
    }
}

/// A module bears the name that is asked for it, else its own, else `main`; and is looked up by the name that is
/// asked for it, else by `main`.
pub proof fn names_are_chosen(
    wanted: &Option<String>,
    own: Option<String>,
    name: String,
    key: String,
)
    requires
        call_ensures(load::name_for, (wanted, own), name),
        call_ensures(load::key_for, (wanted,), key),
    ensures
        wanted matches Some(text) ==> name@ == text@ && key@ == text@,
        wanted is None ==> key@ == "main"@,
        wanted is None && own is None ==> name@ == "main"@,
        wanted is None ==> (own matches Some(text) ==> name@ == text@),
{
}

/// A module is started with its imports as they have been defined, and those that it depends on before it.
pub proof fn instantiate_module_starts_the_module(
    store: &mut StoreMut<'_>,
    module: &NamedModule,
    loaded: &mut NameMap<Instance>,
    all_modules: &NameMap<NamedModule>,
    external_imports: &ExternMap,
    dependency_tree: &Vec<String>,
    result: Result<(), PluginInstantiationError>,
)
    requires
        call_ensures(
            link::instantiate_module,
            (store, module, loaded, all_modules, external_imports, dependency_tree),
            result,
        ),
    ensures
        old(loaded)@.contains_key(module.name@) ==> result is Ok && final(loaded)@ == old(loaded)@
            && *final(store) == *old(store),
        !old(loaded)@.contains_key(module.name@) && link::texts(dependency_tree@).contains(
            module.name@,
        ) ==> (result matches Err(err) && err is CyclicDependency) && final(loaded)@ == old(
            loaded,
        )@ && *final(store) == *old(store),
        !old(loaded)@.contains_key(module.name@) && !link::texts(dependency_tree@).contains(
            module.name@,
        ) ==> exists|defined: Definitions, between: LinkState<'_>|
            #[trigger] link::links(
                link::depth_below(all_modules@, link::texts(dependency_tree@)),
                LinkWorld { modules: all_modules@, external: external_imports@ },
                LinkState { store: *old(store), loaded: old(loaded)@ },
                *module,
                link::texts(dependency_tree@),
                engine::module_imports(module.module).len(),
                defined,
                between,
            ) && match defined {
                Ok(imports) => linking::was_instantiated(
                    between,
                    *module,
                    imports,
                    errors::link_result(result),
                    LinkState { store: *final(store), loaded: final(loaded)@ },
                ),
                Err(problem) => (result matches Err(err) && err@ == problem)
                    && *final(store) == between.store && final(loaded)@ == between.loaded,
            },
{
    linking::modules_are_instantiated_with_their_imports(
        link::depth_below(all_modules@, link::texts(dependency_tree@)),
        LinkWorld { modules: all_modules@, external: external_imports@ },
        LinkState { store: *old(store), loaded: old(loaded)@ },
        *module,
        link::texts(dependency_tree@),
        errors::link_result(result),
        LinkState { store: *final(store), loaded: final(loaded)@ },
    );
}

/// A kernel is started in the store at hand, and bears the number that it is given.
pub proof fn new_starts_a_kernel(
    store: &mut StoreMut<'_>,
    runtime: &Module,
    id: usize,
    result: Result<Kernel, PluginInstantiationError>,
)
    requires
        call_ensures(Kernel::new, (store, runtime, id), result),
    ensures
        match result {
            Ok(kernel) => {
                &&& kernel.number() == id
                &&& engine::instance_store(kernel.instance()) == engine::store_id(*final(store))
                &&& kernel::kernel_starts(
                    *old(store),
                    *runtime,
                    Ok(kernel.instance()),
                    *final(store),
                )
            },
            Err(err) => kernel::kernel_starts(*old(store), *runtime, Err(err@), *final(store)),
        },
        engine::store_id(*final(store)) == engine::store_id(*old(store)),
{
}

/// Kernels and plugins say which number they were given, and a copy of a handle on a kernel is one on the same
/// kernel.
pub proof fn numbers_are_told(
    kernel: &Kernel,
    kernel_id: usize,
    copy: Kernel,
    plugin: &Plugin,
    plugin_id: usize,
    own: &Kernel,
)
    requires
        call_ensures(Kernel::id, (kernel,), kernel_id),
        call_ensures(Kernel::duplicate, (kernel,), copy),
        call_ensures(Plugin::id, (plugin,), plugin_id),
        call_ensures(Plugin::kernel, (plugin,), own),
    ensures
        kernel_id == kernel.number(),
        copy.instance() == kernel.instance(),
        copy.number() == kernel.number(),
        plugin_id == plugin.number(),
        *own == plugin.own_kernel(),
{
}

/// Plugins are numbered one after the other: the number that is given is not given again until the counter has
/// come round.
pub proof fn new_plugin_id_counts(counter: &mut usize, result: usize)
    requires
        call_ensures(plugin::new_plugin_id, (counter,), result),
    ensures
        result == *old(counter),
        *old(counter) < usize::MAX ==> *final(counter) == *old(counter) + 1,
        *old(counter) == usize::MAX ==> *final(counter) == 0,
{
}

/// What plugins are offered in the namespace of the kernel is what it exports, and the functions of the host,
/// which work on what they are given.
pub proof fn host_env_offers_all<
    ID: Send + 'static,
    L: Fn(&ID, HostEvent) + Send + 'static,
    S: Fn(Vec<u8>, Vec<u8>) -> Result<HttpAnswer, ()> + Send + 'static,
>(
    store: &mut StoreMut<'_>,
    kernel: &Kernel,
    metadata: PluginMetadata<ID>,
    emit: L,
    send: S,
    result: Result<NameMap<Extern>, KernelError>,
)
    requires
        call_ensures(env::host_env::<ID, L, S>, (store, kernel, metadata, emit, send), result),
    ensures
        result is Err <==> engine::memory_export(kernel.instance(), "memory"@) is Err,
        result matches Ok(offered) ==> forall|name: Seq<char>| #[trigger]
            is_offered_as(kernel, offered@, name),
{
    if let Ok(offered) = result {
        let view = env::host_view(kernel, metadata, emit, send);
        let shared = choose|shared: wasmer::FunctionEnv<Box<dyn env::GuestHost>>| #[trigger]
            env::starts_with(shared, view) && forall|name: Seq<char>| #[trigger]
                env::is_offered(*final(store), kernel.instance(), shared, offered@, name);
        assert forall|name: Seq<char>| #[trigger] is_offered_as(kernel, offered@, name) by {
            assert(env::is_offered(*final(store), kernel.instance(), shared, offered@, name));
        }
    }
}

/// Whether what is offered under a name is what the kernel exports, else the function of the host of that name,
/// else nothing.
pub open spec fn is_offered_as(
    kernel: &Kernel,
    offered: Map<Seq<char>, Extern>,
    name: Seq<char>,
) -> bool {
    if engine::instance_exports(kernel.instance()).contains_key(name) {
        offered.contains_key(name) && offered[name] == engine::instance_exports(
            kernel.instance(),
        )[name]
    } else {
        match env::function_named(name) {
            Some(function) => offered.contains_key(name) && env::host_function(offered[name])
                == function,
            None => !offered.contains_key(name),
        }
    }
}

/// A variable that is set is had again with all of its bytes, whatever it held before, until it is set again or
/// removed; others stay as they are.
pub proof fn variables_are_kept(
    vars: &mut InMemoryVars,
    key: String,
    value: Vec<u8>,
    wanted: &str,
    got: Option<Vec<u8>>,
)
    requires
        call_ensures(<InMemoryVars as PluginVars>::set_var, (vars, key, value), ()),
        call_ensures(<InMemoryVars as PluginVars>::get_var, (&*final(vars), wanted), got),
    ensures
        wanted@ == key@ ==> (got matches Some(bytes) && bytes@ == value@),
        wanted@ != key@ && old(vars)@.contains_key(wanted@) ==> (got matches Some(bytes) && bytes@
            == old(vars)@[wanted@]),
        wanted@ != key@ && !old(vars)@.contains_key(wanted@) ==> got is None,
{
}

/// A variable that is removed is not there any more; others stay as they are.
pub proof fn variables_are_removed(
    vars: &mut InMemoryVars,
    key: &str,
    wanted: &str,
    got: Option<Vec<u8>>,
)
    requires
        call_ensures(InMemoryVars::remove_var, (vars, key), ()),
        call_ensures(<InMemoryVars as PluginVars>::get_var, (&*final(vars), wanted), got),
    ensures
        wanted@ == key@ ==> got is None,
        wanted@ != key@ && old(vars)@.contains_key(wanted@) ==> (got matches Some(bytes) && bytes@
            == old(vars)@[wanted@]),
        wanted@ != key@ && !old(vars)@.contains_key(wanted@) ==> got is None,
{
}

/// A value that is put into a map is had again by its name; others stay as they are.
pub proof fn named_values_are_kept<V>(
    map: &mut NameMap<V>,
    name: String,
    value: V,
    wanted: &str,
    got: Option<&V>,
)
    requires
        call_ensures(NameMap::<V>::insert, (map, name, value), ()),
        call_ensures(NameMap::<V>::get, (&*final(map), wanted), got),
    ensures
        wanted@ == name@ ==> got == Some(&value),
        wanted@ != name@ && old(map)@.contains_key(wanted@) ==> got == Some(&old(map)@[wanted@]),
        wanted@ != name@ && !old(map)@.contains_key(wanted@) ==> got is None,
{
}

/// An extern that is put into a map is had again by its namespace and name; others stay as they are.
pub proof fn externs_are_kept(
    map: &mut ExternMap,
    namespace: String,
    name: String,
    external: Extern,
    wanted_namespace: &str,
    wanted: &str,
    got: Option<&Extern>,
)
    requires
        call_ensures(ExternMap::insert, (map, namespace, name, external), ()),
        call_ensures(ExternMap::get, (&*final(map), wanted_namespace, wanted), got),
    ensures
        wanted_namespace@ == namespace@ && wanted@ == name@ ==> got == Some(&external),
        !(wanted_namespace@ == namespace@ && wanted@ == name@) && old(map)@.contains_key(
            (wanted_namespace@, wanted@),
        ) ==> got == Some(&old(map)@[(wanted_namespace@, wanted@)]),
        !(wanted_namespace@ == namespace@ && wanted@ == name@) && !old(map)@.contains_key(
            (wanted_namespace@, wanted@),
        ) ==> got is None,
{
}

/// The number of a level is larger, the more it matters.
pub proof fn level_numbers_are_told(level: LogLevel, number: i64, other: LogLevel, second: i64)
    requires
        call_ensures(levels::log_level_to_int, (level,), number),
        call_ensures(levels::log_threshold_to_int, (Some(other),), second),
    ensures
        level == other ==> number == second,
        number == match level {
            LogLevel::Trace => 0i64,
            LogLevel::Debug => 1i64,
            LogLevel::Info => 2i64,
            LogLevel::Warn => 3i64,
            LogLevel::Error => 4i64,
        },
{
}

/// An event is logged at the level that it is of.
pub proof fn event_levels_are_told(event: &HostEvent, level: LogLevel)
    requires
        call_ensures(HostEvent::level, (event,), level),
    ensures
        match event {
            HostEvent::Message(own, _) => level == *own,
            HostEvent::HandleNotFound(_)
            | HostEvent::ConfigNotFound(_)
            | HostEvent::VarNotFound(_) => level == LogLevel::Warn,
            HostEvent::MemoryAccess(_)
            | HostEvent::NotFreed(_)
            | HostEvent::RequestFailed => level == LogLevel::Error,
        },
{
}

/// The bytes of a module are read from the file that it is in, or are there, or are requested.
pub proof fn plans_get_the_bytes<'a>(
    wasm: &'a Wasm,
    has_files: bool,
    result: Result<FetchPlan<'a>, PluginLoadError>,
)
    requires
        call_ensures(Wasm::plan, (wasm, has_files), result),
    ensures
        match *wasm {
            Wasm::File { path, meta: _ } => if has_files {
                result matches Ok(FetchPlan::Read(kept)) && *kept == path
            } else {
                result matches Err(err) && err is NotSupportedOnWeb
            },
            Wasm::Data { data, meta: _ } => result matches Ok(FetchPlan::Inline(kept)) && *kept
                == data,
            Wasm::Url { req, meta: _ } => match result {
                Ok(FetchPlan::Request { method, req: kept }) => {
                    &&& *kept == req
                    &&& wasm_input::request_problem(req) is None
                    &&& req.method matches Some(named) ==> method@ == named@
                    &&& req.method is None ==> method@ == "GET"@
                },
                Ok(_) => false,
                Err(err) => wasm_input::request_problem(req) == Some(err@),
            },
        },
{
}

/// A module has the bytes that were got for it, and the name that is asked for it.
pub proof fn bytes_are_put_in_place(wasm: &Wasm, data: Vec<u8>, result: WasmSource)
    requires
        call_ensures(Wasm::with_data, (wasm, data), result),
    ensures
        result.data == data,
        result.name == (match *wasm {
            Wasm::File { path: _, meta } => meta.name,
            Wasm::Data { data: _, meta } => meta.name,
            Wasm::Url { req: _, meta } => meta.name,
        }),
{
}

/// A request can be made just where its method is a token and all of its headers are valid, and is made by the
/// method that it names, else by `GET`.
pub proof fn requests_are_checked(req: &HttpRequest, result: Result<String, PluginLoadError>)
    requires
        call_ensures(wasm_input::check_request, (req,), result),
    ensures
        result is Ok <==> {
            &&& req.method matches Some(method) ==> wasm_input::is_token(method@)
            &&& forall|name: Seq<char>| #[trigger]
                req.headers@.contains_key(name) ==> wasm_input::is_header_name(name)
                    && wasm_input::is_header_value(req.headers@[name]@)
        },
        result matches Ok(method) ==> (req.method matches Some(named) ==> method@ == named@) && (
        req.method is None ==> method@ == "GET"@),
        result matches Err(err) ==> {
            ||| err is InvalidHttpMethod && (req.method matches Some(method)
                && !wasm_input::is_token(method@))
            ||| err is InvalidHeaderName && exists|name: Seq<char>| #[trigger]
                req.headers@.contains_key(name) && !wasm_input::is_header_name(name)
            ||| err is InvalidHeaderValue && exists|name: Seq<char>| #[trigger]
                req.headers@.contains_key(name) && !wasm_input::is_header_value(
                    req.headers@[name]@,
                )
        },
{
    origins::valid_requests_can_be_made(*req);
    let order = req.headers.names();
    origins::the_first_bad_header_is_told(req.headers@, order, order.len());
    if let Err(err) = result {
        if !(err is InvalidHttpMethod) {
            let i = choose|i: int|
                {
                    &&& 0 <= i < order.len()
                    &&& origins::are_valid(req.headers@, order, i)
                    &&& !wasm_input::is_header_name(#[trigger] order[i]) ==> err@
                        == LoadProblem::InvalidHeaderName
                    &&& wasm_input::is_header_name(order[i]) ==> err@
                        == LoadProblem::InvalidHeaderValue && !wasm_input::is_header_value(
                        req.headers@[order[i]]@,
                    )
                };
            assert(order.to_set().contains(order[i]));
            assert(req.headers@.contains_key(order[i]));
        }
    }
}

/// What a plugin is loaded from holds all that its input held.
pub proof fn inputs_are_handed_on_whole(
    input: WasmInput<'_>,
    fetched: Vec<WasmSource>,
    result: PluginInput,
)
    requires
        call_ensures(WasmInput::<'_>::with_modules, (input, fetched), result),
    ensures
        match (input, result) {
            (WasmInput::Data(data), PluginInput::Data(kept)) => kept@ == origins::given_bytes(
                data,
            ),
            (WasmInput::Manifest(manifest), PluginInput::Manifest { wasm, config }) => wasm@
                == fetched@ && config@ == origins::given_manifest(manifest).config@,
            _ => false,
        },
{
}

/// A function of a plugin has succeeded just where it returned 0; else the failure says what it returned, or why
/// it did not.
pub proof fn ends_are_judged(end: Result<i32, CallError>, result: Result<(), PluginRunError>)
    requires
        call_ensures(plugin::judge, (end,), result),
    ensures
        match end {
            Ok(code) => if code == 0 {
                result is Ok
            } else {
                result matches Err(err) && err@ == RunProblem::Failed(code)
            },
            Err(CallError::Export(problem)) => result matches Err(err) && err@ == RunProblem::Export(
                problem@,
            ),
            Err(CallError::Runtime(trap)) => result matches Err(err) && err@ == RunProblem::Runtime(
                trap,
            ),
        },
{
}

/// A text is the one that the bytes are the encoding of; there is none just where they are the encoding of none.
pub proof fn texts_are_decoded_whole(bytes: Vec<u8>, result: Result<String, KernelError>)
    requires
        call_ensures(kernel::text_of, (bytes,), result),
    ensures
        match result {
            Ok(text) => encode_utf8(text@) == bytes@,
            Err(err) => !valid_utf8(bytes@) && err@ == KernelErrorView::FromUtf8Error(bytes@),
        },
{
    if valid_utf8(bytes@) {
        decode_utf8_encode_utf8(bytes@);
    }
}

/// A block of some length has its offset and that length; there is none of length 0, nor where the length could
/// not be had.
pub proof fn blocks_are_located(
    offset: u64,
    length: Result<u64, KernelError>,
    result: Option<MemoryHandle>,
)
    requires
        call_ensures(kernel::located, (offset, length), result),
    ensures
        result == match length {
            Ok(length) => if length == 0 {
                None
            } else {
                Some(MemoryHandle { offset, length })
            },
            Err(_) => None,
        },
{
}

/// Room has the length that was asked for, and is where the kernel says; at 0 there is none.
pub proof fn room_is_where_the_kernel_says(
    n: u64,
    offset: Result<i64, KernelError>,
    result: Result<MemoryHandle, KernelError>,
)
    requires
        call_ensures(kernel::allocation, (n, offset), result),
    ensures
        match offset {
            Ok(place) => if place == 0 {
                result matches Err(err) && err@ == KernelErrorView::OutOfMemory
            } else {
                result matches Ok(handle) && handle.offset == place as u64 && handle.length == n
            },
            Err(problem) => result matches Err(err) && err@ == problem@,
        },
{
    if let Ok(place) = offset {
        assert((place as u64 == 0) == (place == 0)) by (bit_vector);
    }
}

/// The null handle is at offset 0, and has no length.
pub proof fn null_is_nowhere(result: MemoryHandle)
    requires
        call_ensures(MemoryHandle::null, (), result),
    ensures
        result.offset == 0,
        result.length == 0,
{
}

/// A map is walked in the order of its names, through all of its values.
pub proof fn maps_are_walked_whole<V>(map: &NameMap<V>, count: usize, i: usize, name: &str, value: &V)
    requires
        call_ensures(NameMap::<V>::len, (map,), count),
        i < count,
        call_ensures(NameMap::<V>::name_at, (map, i), name),
        call_ensures(NameMap::<V>::value_at, (map, i), value),
    ensures
        map@.contains_key(name@),
        map@[name@] == *value,
        map.names().to_set() == map@.dom(),
        names::in_order(map.names()),
        map.names().len() == count,
        map.names()[i as int] == name@,
{
}

} // verus!
