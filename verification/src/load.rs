//! Loading: modules are compiled and named, provided with what they can import, and started.
use crate::engine::{self, compile, copy_extern, name_of, rename, ExportError, ExportErrorView};
use crate::env::{self, host_env, GuestHost, HostView};
use crate::errors::{self, KernelError, LinkProblem, LoadProblem, PluginInstantiationError};
use crate::function::{self, HostExport};
use crate::host::{self, HostEvent, HttpAnswer, PluginMetadata};
use crate::kernel::{self, Kernel};
use crate::link::{self, instantiate_module, ExternMap, LinkState, LinkWorld, NamedModule};
use crate::names::{self, NameMap};
use crate::vars;
use crate::EXTISM_ENV_MODULE;
use std::sync::Arc;
use vstd::prelude::*;
use wasmer::{CompileError, Extern, FunctionEnv, Instance, Module, StoreMut};

verus! {

/// The name of a module that has no other, and of the module whose functions are called.
pub const DEFAULT_MODULE_NAME: &'static str = "main";

/// The bytes of a module, and the name that it is to bear.
#[derive(Debug)]
pub struct WasmSource {
    pub data: Vec<u8>,
    pub name: Option<String>,
}

/// The text of a name, if there is one.
pub open spec fn name_text(name: Option<String>) -> Option<Seq<char>> {
    match name {
        Some(name) => Some(name@),
        None => None,
    }
}

/// The name that a module bears: the one asked for, else its own, else the default.
pub open spec fn chosen_name(wanted: Option<Seq<char>>, own: Option<Seq<char>>) -> Seq<char> {
    match wanted {
        Some(name) => name,
        None => match own {
            Some(name) => name,
            None => DEFAULT_MODULE_NAME@,
        },
    }
}

/// What a module of a manifest is looked up by: the name asked for, else the default.
pub open spec fn module_key(wanted: Option<Seq<char>>) -> Seq<char> {
    match wanted {
        Some(name) => name,
        None => DEFAULT_MODULE_NAME@,
    }
}

/// Whether a named module is what a compiled module becomes when a name is asked for it.
pub open spec fn is_named_as(
    compiled: Module,
    wanted: Option<Seq<char>>,
    named: NamedModule,
) -> bool {
    &&& named.name@ == chosen_name(wanted, engine::module_name(compiled))
    &&& engine::module_imports(named.module) == engine::module_imports(compiled)
    &&& if wanted is None && engine::module_name(compiled) is Some {
        named.module == compiled
    } else {
        bears(compiled, named.name@, named.module)
    }
}

/// Whether a module is what another becomes when it is given a name: it bears the name, unless the
/// engine has refused it.
pub open spec fn bears(compiled: Module, name: Seq<char>, named: Module) -> bool {
    exists|accepted: bool| #[trigger]
        engine::naming(compiled, name, accepted, named) && if accepted {
            named == engine::renamed(compiled, name) && engine::module_name(named) == Some(name)
        } else {
            named == compiled
        }
}

/// Whether a module bears the name and has the imports that are written in bytes.
pub open spec fn is_written(data: Seq<u8>, module: Module) -> bool {
    &&& engine::module_name(module) == engine::written_name(data)
    &&& engine::module_imports(module) == engine::written_imports(data)
}

/// Whether compiling bytes and naming the module may end in `outcome`.
pub open spec fn loads(
    store: StoreMut<'_>,
    data: Seq<u8>,
    wanted: Option<Seq<char>>,
    outcome: Result<NamedModule, CompileError>,
) -> bool {
    exists|compiled: Result<Module, CompileError>| #[trigger]
        engine::compilation(store, data, compiled) && match compiled {
            Ok(module) => {
                &&& outcome matches Ok(named)
                &&& is_named_as(module, wanted, named)
                &&& engine::is_steady(store) ==> is_written(data, module)
            },
            Err(err) => outcome == Err::<NamedModule, CompileError>(err),
        }
}

/// The name that a module bears, from the one asked for and its own.
pub fn name_for(wanted: &Option<String>, own: Option<String>) -> (result: String)
    ensures
        result@ == chosen_name(name_text(*wanted), name_text(own)),
{
    match wanted {
        Some(name) => name.clone(),
        None => match own {
            Some(name) => name,
            None => DEFAULT_MODULE_NAME.to_owned(),
        },
    }
}

/// What a module of a manifest is looked up by, from the name asked for.
pub fn key_for(wanted: &Option<String>) -> (result: String)
    ensures
        result@ == module_key(name_text(*wanted)),
{
    match wanted {
        Some(name) => name.clone(),
        None => DEFAULT_MODULE_NAME.to_owned(),
    }
}

/// Compiles a module and names it.
pub fn load_module(store: &StoreMut<'_>, data: &[u8], name: &Option<String>) -> (result: Result<
    NamedModule,
    CompileError,
>)
    ensures
        loads(*store, data@, name_text(*name), result),
        engine::is_steady(*store) ==> (result matches Ok(named) ==> engine::is_compiled_for(
            *store,
            named.module,
        )),
{
    let compiled = compile(store, data);
    assert(engine::compilation(*store, data@, compiled));
    let mut module = match compiled {
        Ok(module) => module,
        Err(err) => {
            return Err(err);
        },
    };
    let ghost given = module;
    let own = name_of(&module);
    let keeps = name.is_none() && own.is_some();
    let chosen = name_for(name, own);
    if !keeps {
        let accepted = rename(&mut module, chosen.as_str());
        assert(engine::naming(given, chosen@, accepted, module));
    }
    Ok(NamedModule { name: chosen, module })
}

/// What compiling the modules of a manifest gives, by what they are looked up by. Of modules that
/// are looked up by the same name, the last one counts.
pub open spec fn loads_all(
    store: StoreMut<'_>,
    sources: Seq<WasmSource>,
    outcome: Result<Map<Seq<char>, NamedModule>, CompileError>,
) -> bool
    decreases sources.len(),
{
    if sources.len() == 0 {
        outcome == Ok::<_, CompileError>(Map::<Seq<char>, NamedModule>::empty())
    } else {
        exists|earlier: Result<Map<Seq<char>, NamedModule>, CompileError>| #[trigger]
            reaches(earlier) && loads_all(store, sources.drop_last(), earlier) && match earlier {
                Err(err) => outcome == Err::<Map<Seq<char>, NamedModule>, CompileError>(err),
                Ok(modules) => adds(store, modules, sources.last(), outcome),
            }
    }
}

/// A point that loading passes through. Any may be.
pub open spec fn reaches(modules: Result<Map<Seq<char>, NamedModule>, CompileError>) -> bool {
    true
}

/// What compiling one more module gives.
pub open spec fn adds(
    store: StoreMut<'_>,
    modules: Map<Seq<char>, NamedModule>,
    source: WasmSource,
    outcome: Result<Map<Seq<char>, NamedModule>, CompileError>,
) -> bool {
    exists|loaded: Result<NamedModule, CompileError>| #[trigger]
        loads(store, source.data@, name_text(source.name), loaded) && outcome == match loaded {
            Ok(named) => Ok(modules.insert(module_key(name_text(source.name)), named)),
            Err(err) => Err(err),
        }
}

/// What has been loaded, as plain values.
pub open spec fn loaded_modules(
    result: Result<NameMap<NamedModule>, CompileError>,
) -> Result<Map<Seq<char>, NamedModule>, CompileError> {
    match result {
        Ok(modules) => Ok(modules@),
        Err(err) => Err(err),
    }
}

/// Compiles the modules of a manifest.
pub fn load_modules(store: &StoreMut<'_>, sources: &Vec<WasmSource>) -> (result: Result<
    NameMap<NamedModule>,
    CompileError,
>)
    ensures
        loads_all(*store, sources@, loaded_modules(result)),
        engine::is_steady(*store) ==> (result matches Ok(modules) ==> link::are_compiled_for(
            *store,
            modules@,
        )),
{
    let mut modules: NameMap<NamedModule> = NameMap::new();
    let count = sources.len();
    let mut i: usize = 0;
    while i < count
        invariant
            i <= count,
            count == sources@.len(),
            loads_all(*store, sources@.take(i as int), Ok(modules@)),
            engine::is_steady(*store) ==> link::are_compiled_for(*store, modules@),
        decreases count - i,
    {
        let source = &sources[i];
        let ghost rest = sources@.take(i + 1);
        assert(rest.drop_last() =~= sources@.take(i as int));
        assert(rest.last() == *source);
        assert(reaches(Ok(modules@)));
        let loaded = load_module(store, source.data.as_slice(), &source.name);
        assert(loads(*store, source.data@, name_text(source.name), loaded));
        match loaded {
            Ok(named) => {
                modules.insert(key_for(&source.name), named);
            },
            Err(err) => {
                assert(adds(*store, modules@, *source, Err(err)));
                assert(loads_all(*store, rest, Err(err)));
                proof {
                    no_more_is_loaded(*store, sources@, i + 1, err);
                }
                return Err(err);
            },
        }
        i = i + 1;
    }
    assert(sources@.take(count as int) =~= sources@);
    Ok(modules)
}

/// After a module that does not compile, no other is compiled.
proof fn no_more_is_loaded(
    store: StoreMut<'_>,
    sources: Seq<WasmSource>,
    count: int,
    err: CompileError,
)
    requires
        0 <= count <= sources.len(),
        loads_all(store, sources.take(count), Err(err)),
    ensures
        loads_all(store, sources, Err(err)),
    decreases sources.len() - count,
{
    if count == sources.len() {
        assert(sources.take(count) =~= sources);
    } else {
        let more = sources.take(count + 1);
        assert(more.drop_last() =~= sources.take(count));
        assert(reaches(Err(err)));
        assert(loads_all(store, more, Err(err)));
        no_more_is_loaded(store, sources, count + 1, err);
    }
}

/// What the exports of the embedding program provide, by namespace and name. Of those that have the
/// same, the last one counts.
pub open spec fn exported(exports: Seq<HostExport>, built: Seq<Extern>) -> Map<
    (Seq<char>, Seq<char>),
    Extern,
>
    decreases exports.len(),
{
    if exports.len() == 0 {
        engine::no_definitions()
    } else {
        exported(exports.drop_last(), built.drop_last()).insert(
            (exports.last().space(), exports.last().name@),
            built.last(),
        )
    }
}

/// Whether externs stand for the exports of the embedding program, and work on a kernel.
pub open spec fn are_built(
    store: StoreMut<'_>,
    kernel: Kernel,
    exports: Seq<HostExport>,
    built: Seq<Extern>,
) -> bool {
    &&& built.len() == exports.len()
    &&& forall|i: int|
        0 <= i < built.len() ==> {
            &&& exports[i].is_behind(#[trigger] built[i])
            &&& function::call_kernel(built[i]) == kernel
            &&& engine::extern_store(built[i]) == engine::store_id(store)
            &&& engine::extern_type(store, built[i]) == exports[i].shape()
        }
}

/// Externs with those that are offered in the namespace of the kernel, which count before others.
pub open spec fn with_offered(
    external: Map<(Seq<char>, Seq<char>), Extern>,
    offered: Map<Seq<char>, Extern>,
) -> Map<(Seq<char>, Seq<char>), Extern> {
    Map::new(
        |key: (Seq<char>, Seq<char>)|
            external.contains_key(key) || key.0 == EXTISM_ENV_MODULE@ && offered.contains_key(
                key.1,
            ),
        |key: (Seq<char>, Seq<char>)|
            if key.0 == EXTISM_ENV_MODULE@ && offered.contains_key(key.1) {
                offered[key.1]
            } else {
                external[key]
            },
    )
}

/// Whether all exports can be made available to guest code, by functions.
pub open spec fn are_usable(exports: Seq<HostExport>) -> bool {
    forall|i: int|
        0 <= i < exports.len() ==> (#[trigger] exports[i]).is_usable() && exports[i].shape() is Function
}

/// Whether `external` is what the modules of a plugin can import from the host.
pub open spec fn is_provided(
    store: StoreMut<'_>,
    view: HostView,
    exports: Seq<HostExport>,
    external: Map<(Seq<char>, Seq<char>), Extern>,
) -> bool {
    exists|built: Seq<Extern>, offered: Map<Seq<char>, Extern>|
        #![trigger are_built(store, view.kernel, exports, built), env::are_offered(store, view, offered)]
        {
            &&& are_built(store, view.kernel, exports, built)
            &&& env::are_offered(store, view, offered)
            &&& external == with_offered(exported(exports, built), offered)
        }
}

/// Makes the exports of the embedding program available to guest code.
fn build_exports(
    store: &mut StoreMut<'_>,
    kernel: &Arc<Kernel>,
    mut exports: Vec<HostExport>,
) -> (result: (ExternMap, Ghost<Seq<Extern>>))
    requires
        are_usable(exports@),
    ensures
        engine::extends(*old(store), *final(store)),
        are_built(*final(store), **kernel, exports@, result.1@),
        result.0@ == exported(exports@, result.1@),
        link::belong_to(result.0@, engine::store_id(*final(store))),
{
    let ghost all = exports@;
    let ghost mut built: Seq<Extern> = Seq::empty();
    let mut external = ExternMap::new();
    let count = exports.len();
    let mut i: usize = 0;
    assert(all.take(0) =~= Seq::empty());
    while i < count
        invariant
            i <= count,
            count == all.len(),
            exports@ == all.skip(i as int),
            are_usable(all),
            engine::extends(*old(store), *store),
            are_built(*store, **kernel, all.take(i as int), built),
            external@ == exported(all.take(i as int), built),
            link::belong_to(external@, engine::store_id(*store)),
        decreases count - i,
    {
        let ghost earlier = built;
        let export = exports.remove(0);
        assert(export == all[i as int]);
        let namespace = export.namespace().to_owned();
        let name = export.name.clone();
        let one = export.build(store, kernel);
        proof {
            built = built.push(one);
            let now = all.take(i + 1);
            assert(now.drop_last() =~= all.take(i as int));
            assert(built.drop_last() =~= earlier);
            assert forall|j: int| 0 <= j < built.len() implies {
                &&& now[j].is_behind(#[trigger] built[j])
                &&& function::call_kernel(built[j]) == **kernel
                &&& engine::extern_store(built[j]) == engine::store_id(*store)
                &&& engine::extern_type(*store, built[j]) == now[j].shape()
            } by {
                if j < i {
                    assert(built[j] == earlier[j]);
                    assert(now[j] == all.take(i as int)[j]);
                    assert(all[j].shape() is Function);
                }
            }
        }
        external.insert(namespace, name, one);
        assert(exports@ =~= all.skip(i + 1));
        i = i + 1;
    }
    assert(all.take(count as int) =~= all);
    (external, Ghost(built))
}

/// What providing modules with what they can import from the host does. It fails where the kernel
/// exports no memory.
pub open spec fn provides(
    before: StoreMut<'_>,
    view: HostView,
    exports: Seq<HostExport>,
    outcome: Result<Map<(Seq<char>, Seq<char>), Extern>, ExportErrorView>,
    after: StoreMut<'_>,
) -> bool {
    &&& engine::extends(before, after)
    &&& match engine::memory_export(view.kernel.instance(), "memory"@) {
        Ok(_) => outcome matches Ok(external) && is_provided(after, view, exports, external),
        Err(problem) => outcome == Err::<Map<(Seq<char>, Seq<char>), Extern>, ExportErrorView>(
            problem,
        ),
    }
}

/// Provides modules with what they can import from the host.
pub(crate) fn provide<
    ID: Send + 'static,
    L: Fn(&ID, HostEvent) + Send + 'static,
    S: Fn(Vec<u8>, Vec<u8>) -> Result<HttpAnswer, ()> + Send + 'static,
>(
    store: &mut StoreMut<'_>,
    kernel: &Arc<Kernel>,
    exports: Vec<HostExport>,
    metadata: PluginMetadata<ID>,
    emit: L,
    send: S,
) -> (result: Result<ExternMap, ExportError>)
    requires
        kernel.runs_in(*old(store)),
        are_usable(exports@),
        host::is_open(emit),
        host::is_sender(send),
    ensures
        provides(
            *old(store),
            env::host_view(&**kernel, metadata, emit, send),
            exports@,
            match result {
                Ok(external) => Ok(external@),
                Err(err) => Err(err@),
            },
            *final(store),
        ),
        result matches Ok(external) ==> link::belong_to(
            external@,
            engine::store_id(*final(store)),
        ),
{
    let (mut external, built) = build_exports(store, kernel, exports);
    let ghost between = *store;
    let ghost user = external@;
    let ghost view = env::host_view(&**kernel, metadata, emit, send);
    let offered = match host_env(store, kernel, metadata, emit, send) {
        Ok(offered) => offered,
        Err(KernelError::Export(err)) => {
            return Err(err);
        },
        Err(_) => {
            return Err(ExportError::IncompatibleType);
        },
    };
    proof {
        assert forall|i: int| 0 <= i < built@.len() implies {
            &&& exports@[i].is_behind(#[trigger] built@[i])
            &&& function::call_kernel(built@[i]) == **kernel
            &&& engine::extern_store(built@[i]) == engine::store_id(*store)
            &&& engine::extern_type(*store, built@[i]) == exports@[i].shape()
        } by {
            assert(engine::extern_type(between, built@[i]) is Function);
        }
        assert(are_built(*store, **kernel, exports@, built@));
        assert(env::are_offered(*store, view, offered@));
    }
    let count = offered.len();
    let ghost order = offered.names();
    let mut i: usize = 0;
    assert(external@ =~= with_offered(user, Map::empty()));
    while i < count
        invariant
            i <= count,
            count == order.len(),
            order == offered.names(),
            order.no_duplicates(),
            offered@.dom() == order.to_set(),
            forall|key: (Seq<char>, Seq<char>)|
                #![trigger external@.contains_key(key)]
                external@.contains_key(key) <==> user.contains_key(key) || key.0
                    == EXTISM_ENV_MODULE@ && order.take(i as int).contains(key.1),
            forall|key: (Seq<char>, Seq<char>)|
                #![trigger external@[key]]
                external@.contains_key(key) ==> external@[key] == if key.0 == EXTISM_ENV_MODULE@
                    && order.take(i as int).contains(key.1) {
                    offered@[key.1]
                } else {
                    user[key]
                },
        decreases count - i,
    {
        let name = offered.name_at(i).to_owned();
        let one = copy_extern(offered.value_at(i));
        let ghost before = external@;
        external.insert(EXTISM_ENV_MODULE.to_owned(), name, one);
        proof {
            let added = (EXTISM_ENV_MODULE@, order[i as int]);
            assert(order.take(i + 1) =~= order.take(i as int).push(order[i as int]));
            assert forall|text: Seq<char>|
                #![trigger order.take(i + 1).contains(text)]
                order.take(i + 1).contains(text) <==> order.take(i as int).contains(text) || text
                    == order[i as int] by {
                if order.take(i as int).contains(text) {
                    let j = order.take(i as int).index_of(text);
                    assert(order.take(i + 1)[j] == text);
                }
                assert(order.take(i + 1)[i as int] == order[i as int]);
            }
            assert(external@ == before.insert(added, one));
            assert forall|key: (Seq<char>, Seq<char>)|
                #![trigger external@.contains_key(key)]
                external@.contains_key(key) <==> user.contains_key(key) || key.0
                    == EXTISM_ENV_MODULE@ && order.take(i + 1).contains(key.1) by {
                assert(external@.contains_key(key) <==> before.contains_key(key) || key == added);
            }
            assert forall|key: (Seq<char>, Seq<char>)|
                #![trigger external@[key]]
                external@.contains_key(key) implies external@[key] == if key.0
                == EXTISM_ENV_MODULE@ && order.take(i + 1).contains(key.1) {
                offered@[key.1]
            } else {
                user[key]
            } by {
                if key != added {
                    assert(before.contains_key(key));
                    assert(external@[key] == before[key]);
                }
            }
        }
        i = i + 1;
    }
    proof {
        assert(order.take(count as int) =~= order);
        assert forall|name: Seq<char>| #[trigger] offered@.contains_key(name)
            == order.contains(name) by {
            assert(offered@.dom().contains(name) == order.to_set().contains(name));
        }
        assert(external@ =~= with_offered(user, offered@));
        let shared = choose|shared: FunctionEnv<Box<dyn GuestHost>>| #[trigger]
            env::starts_with(shared, view) && forall|name: Seq<char>| #[trigger]
                env::is_offered(*store, kernel.instance(), shared, offered@, name);
        assert forall|key: (Seq<char>, Seq<char>)| #[trigger]
            external@.contains_key(key) implies engine::extern_store(external@[key])
            == engine::store_id(*store) by {
            if key.0 == EXTISM_ENV_MODULE@ && offered@.contains_key(key.1) {
                assert(env::is_offered(*store, kernel.instance(), shared, offered@, key.1));
            } else {
                assert(user.contains_key(key));
            }
        }
    }
    Ok(external)
}

/// What starting the first `count` modules in an order does, one after the other.
pub open spec fn starts_all(
    world: LinkWorld,
    order: Seq<Seq<char>>,
    count: nat,
    before: LinkState<'_>,
    outcome: Result<(), LinkProblem>,
    after: LinkState<'_>,
) -> bool
    decreases count,
{
    if count == 0 {
        outcome == Ok::<(), LinkProblem>(()) && after == before
    } else {
        exists|earlier: Result<(), LinkProblem>, between: LinkState<'_>| #[trigger]
            arrives(earlier, between) && starts_all(
                world,
                order,
                (count - 1) as nat,
                before,
                earlier,
                between,
            ) && match earlier {
                Err(problem) => outcome == Err::<(), LinkProblem>(problem) && after == between,
                Ok(_) => link::starts(
                    link::depth_below(world.modules, Seq::empty()),
                    world,
                    between,
                    world.modules[order[count - 1]],
                    Seq::empty(),
                    outcome,
                    after,
                ),
            }
    }
}

/// A point that starting modules passes through. Any may be.
pub open spec fn arrives(outcome: Result<(), LinkProblem>, state: LinkState<'_>) -> bool {
    true
}

/// Whether an order is that of the names of modules.
pub open spec fn is_order(modules: Map<Seq<char>, NamedModule>, order: Seq<Seq<char>>) -> bool {
    names::in_order(order) && order.to_set() == modules.dom()
}

/// After a module that does not start, no other is started.
proof fn no_more_is_started(
    world: LinkWorld,
    order: Seq<Seq<char>>,
    count: nat,
    total: nat,
    before: LinkState<'_>,
    problem: LinkProblem,
    after: LinkState<'_>,
)
    requires
        count <= total,
        starts_all(world, order, count, before, Err(problem), after),
    ensures
        starts_all(world, order, total, before, Err(problem), after),
    decreases total,
{
    if count < total {
        no_more_is_started(world, order, count, (total - 1) as nat, before, problem, after);
        assert(arrives(Err(problem), after));
    }
}

/// Starts all modules, in the order of what they are looked up by.
pub(crate) fn start_modules(
    store: &mut StoreMut<'_>,
    modules: &NameMap<NamedModule>,
    external: &ExternMap,
) -> (result: (Result<(), PluginInstantiationError>, NameMap<Instance>))
    requires
        link::are_compiled_for(*old(store), modules@),
        link::belong_to(external@, engine::store_id(*old(store))),
    ensures
        is_order(modules@, modules.names()),
        starts_all(
            LinkWorld { modules: modules@, external: external@ },
            modules.names(),
            modules.names().len(),
            LinkState { store: *old(store), loaded: Map::empty() },
            errors::link_result(result.0),
            LinkState { store: *final(store), loaded: result.1@ },
        ),
        engine::continues(*old(store), *final(store)),
        link::run_in(result.1@, engine::store_id(*final(store))),
{
    let mut loaded: NameMap<Instance> = NameMap::new();
    let no_tree: Vec<String> = Vec::new();
    let count = modules.len();
    let ghost world = LinkWorld { modules: modules@, external: external@ };
    let ghost order = modules.names();
    let ghost before = LinkState { store: *store, loaded: Map::empty() };
    assert(link::texts(no_tree@) =~= Seq::empty());
    let mut i: usize = 0;
    while i < count
        invariant
            i <= count,
            count == order.len(),
            order == modules.names(),
            modules@.dom() == order.to_set(),
            world == (LinkWorld { modules: modules@, external: external@ }),
            before == (LinkState { store: *old(store), loaded: Map::empty() }),
            link::texts(no_tree@) == Seq::<Seq<char>>::empty(),
            link::run_in(loaded@, engine::store_id(*store)),
            link::belong_to(external@, engine::store_id(*store)),
            engine::continues(*old(store), *store),
            link::are_compiled_for(*store, modules@),
            is_order(modules@, order),
            starts_all(
                world,
                order,
                i as nat,
                before,
                Ok(()),
                LinkState { store: *store, loaded: loaded@ },
            ),
        decreases count - i,
    {
        proof {
            assert(arrives(Ok(()), LinkState { store: *store, loaded: loaded@ }));
            assert(order.to_set().contains(order[i as int]));
            assert(modules@.contains_key(order[i as int]));
        }
        let module = modules.value_at(i);
        assert(link::is_module(modules@, *module));
        let started = instantiate_module(store, module, &mut loaded, modules, external, &no_tree);
        let ghost after = LinkState { store: *store, loaded: loaded@ };
        assert(starts_all(
            world,
            order,
            (i + 1) as nat,
            before,
            errors::link_result(started),
            after,
        ));
        match started {
            Ok(_) => {},
            Err(err) => {
                proof {
                    no_more_is_started(
                        world,
                        order,
                        (i + 1) as nat,
                        count as nat,
                        before,
                        err@,
                        after,
                    );
                }
                return (Err(err), loaded);
            },
        }
        i = i + 1;
    }
    (Ok(()), loaded)
}

/// What a plugin is made of.
pub struct PluginParts {
    pub kernel: Kernel,
    pub modules: Map<Seq<char>, NamedModule>,
    pub instances: Map<Seq<char>, Instance>,
}

/// What linking the modules of a plugin with its kernel and the host does.
pub open spec fn assembles(
    before: StoreMut<'_>,
    view: HostView,
    modules: Map<Seq<char>, NamedModule>,
    exports: Seq<HostExport>,
    outcome: Result<PluginParts, LoadProblem>,
    after: StoreMut<'_>,
) -> bool {
    exists|
        provided: Result<Map<(Seq<char>, Seq<char>), Extern>, ExportErrorView>,
        between: StoreMut<'_>,
    | #[trigger]
        provides(before, view, exports, provided, between) && match provided {
            Err(problem) => {
                &&& outcome == Err::<PluginParts, LoadProblem>(
                    LoadProblem::Instantiation(LinkProblem::Export(problem)),
                )
                &&& after == between
            },
            Ok(external) => runs_modules(
                between,
                view.kernel,
                LinkWorld { modules, external },
                outcome,
                after,
            ),
        }
}

/// What starting the modules of a plugin does.
pub open spec fn runs_modules(
    before: StoreMut<'_>,
    kernel: Kernel,
    world: LinkWorld,
    outcome: Result<PluginParts, LoadProblem>,
    after: StoreMut<'_>,
) -> bool {
    exists|
        order: Seq<Seq<char>>,
        started: Result<(), LinkProblem>,
        instances: Map<Seq<char>, Instance>,
    |
        is_order(world.modules, order) && #[trigger] starts_all(
            world,
            order,
            order.len(),
            LinkState { store: before, loaded: Map::empty() },
            started,
            LinkState { store: after, loaded: instances },
        ) && outcome == load_result(
            started,
            PluginParts { kernel, modules: world.modules, instances },
        )
}

/// What a plugin is loaded from.
#[derive(Debug)]
pub enum PluginInput {
    /// One module.
    Data(Vec<u8>),
    /// The modules of a manifest, and its configuration.
    Manifest { wasm: Vec<WasmSource>, config: NameMap<String> },
}

/// What compiling the modules of a plugin gives, by what they are looked up by. A single module is
/// looked up by the name that it bears.
pub open spec fn reads(
    store: StoreMut<'_>,
    input: PluginInput,
    outcome: Result<Map<Seq<char>, NamedModule>, CompileError>,
) -> bool {
    match input {
        PluginInput::Data(data) => reads_one(store, data@, outcome),
        PluginInput::Manifest { wasm, .. } => loads_all(store, wasm@, outcome),
    }
}

/// What compiling a single module gives.
pub open spec fn reads_one(
    store: StoreMut<'_>,
    data: Seq<u8>,
    outcome: Result<Map<Seq<char>, NamedModule>, CompileError>,
) -> bool {
    exists|loaded: Result<NamedModule, CompileError>| #[trigger]
        loads(store, data, None, loaded) && outcome == match loaded {
            Ok(named) => Ok(
                Map::<Seq<char>, NamedModule>::empty().insert(named.name@, named),
            ),
            Err(err) => Err(err),
        }
}

/// What has been compiled, as plain values.
pub open spec fn read_modules(
    result: Result<(NameMap<NamedModule>, NameMap<String>), CompileError>,
) -> Result<Map<Seq<char>, NamedModule>, CompileError> {
    match result {
        Ok((modules, _)) => Ok(modules@),
        Err(err) => Err(err),
    }
}

/// The configuration that a plugin gets.
pub open spec fn config_in(input: PluginInput) -> Map<Seq<char>, String> {
    match input {
        PluginInput::Data(_) => Map::empty(),
        PluginInput::Manifest { config, .. } => config@,
    }
}

/// Compiles the modules of a plugin, and hands on its configuration.
pub(crate) fn read_input(store: &StoreMut<'_>, input: PluginInput) -> (result: Result<
    (NameMap<NamedModule>, NameMap<String>),
    CompileError,
>)
    ensures
        reads(*store, input, read_modules(result)),
        engine::is_steady(*store) ==> (result matches Ok((modules, _)) ==> link::are_compiled_for(
            *store,
            modules@,
        )),
        result matches Ok((_, config)) ==> config@ == config_in(input),
{
    match input {
        PluginInput::Data(data) => {
            let loaded = load_module(store, data.as_slice(), &None);
            assert(loads(*store, data@, None, loaded));
            match loaded {
                Ok(named) => {
                    let mut modules: NameMap<NamedModule> = NameMap::new();
                    modules.insert(named.name.clone(), named);
                    Ok((modules, NameMap::new()))
                },
                Err(err) => Err(err),
            }
        },
        PluginInput::Manifest { wasm, config } => match load_modules(store, &wasm) {
            Ok(modules) => Ok((modules, config)),
            Err(err) => Err(err),
        },
    }
}

/// What the functions of the host work on for a plugin at first: its configuration, no variables, and
/// no answer to an HTTP request.
pub open spec fn first_view<
    ID,
    L: Fn(&ID, HostEvent),
    S: Fn(Vec<u8>, Vec<u8>) -> Result<HttpAnswer, ()>,
>(
    kernel: &Kernel,
    config: Map<Seq<char>, String>,
    id: ID,
    emit: L,
    send: S,
) -> HostView {
    HostView {
        kernel: *kernel,
        config: host::config_bytes(config),
        vars: vars::no_vars(),
        last: None,
        sink: host::sink_of(emit, id),
        replies: host::answers_of(send),
    }
}

/// What loading a plugin does. It gets a kernel of its own; its modules are compiled; and they are
/// linked with the kernel, the host and one another.
pub open spec fn sets_up<
    ID,
    L: Fn(&ID, HostEvent),
    S: Fn(Vec<u8>, Vec<u8>) -> Result<HttpAnswer, ()>,
>(
    before: StoreMut<'_>,
    runtime: Module,
    id: ID,
    input: PluginInput,
    exports: Seq<HostExport>,
    emit: L,
    send: S,
    outcome: Result<PluginParts, LoadProblem>,
    after: StoreMut<'_>,
) -> bool {
    exists|started: Result<Instance, LinkProblem>, between: StoreMut<'_>| #[trigger]
        kernel::kernel_starts(before, runtime, started, between) && match started {
            Err(problem) => {
                &&& outcome == Err::<PluginParts, LoadProblem>(LoadProblem::Instantiation(problem))
                &&& after == between
            },
            Ok(instance) => sets_up_on(
                between,
                instance,
                id,
                input,
                exports,
                emit,
                send,
                outcome,
                after,
            ),
        }
}

/// What loading a plugin does once its kernel runs.
pub open spec fn sets_up_on<
    ID,
    L: Fn(&ID, HostEvent),
    S: Fn(Vec<u8>, Vec<u8>) -> Result<HttpAnswer, ()>,
>(
    before: StoreMut<'_>,
    instance: Instance,
    id: ID,
    input: PluginInput,
    exports: Seq<HostExport>,
    emit: L,
    send: S,
    outcome: Result<PluginParts, LoadProblem>,
    after: StoreMut<'_>,
) -> bool {
    exists|modules: Result<Map<Seq<char>, NamedModule>, CompileError>| #[trigger]
        reads(before, input, modules) && match modules {
            Err(err) => {
                &&& outcome == Err::<PluginParts, LoadProblem>(LoadProblem::CompileError(err))
                &&& after == before
            },
            Ok(modules) => joins(
                before,
                instance,
                id,
                input,
                modules,
                exports,
                emit,
                send,
                outcome,
                after,
            ),
        }
}

/// What loading a plugin does once its modules are compiled.
pub open spec fn joins<
    ID,
    L: Fn(&ID, HostEvent),
    S: Fn(Vec<u8>, Vec<u8>) -> Result<HttpAnswer, ()>,
>(
    before: StoreMut<'_>,
    instance: Instance,
    id: ID,
    input: PluginInput,
    modules: Map<Seq<char>, NamedModule>,
    exports: Seq<HostExport>,
    emit: L,
    send: S,
    outcome: Result<PluginParts, LoadProblem>,
    after: StoreMut<'_>,
) -> bool {
    exists|view: HostView| #[trigger]
        assembles(before, view, modules, exports, outcome, after) && view.kernel.instance()
            == instance && view.kernel.is_own() && view == first_view(&view.kernel, config_in(input), id, emit, send)
}

/// What loading a plugin gives once its modules have been started, or not.
pub open spec fn load_result(started: Result<(), LinkProblem>, parts: PluginParts) -> Result<
    PluginParts,
    LoadProblem,
> {
    match started {
        Ok(_) => Ok(parts),
        Err(problem) => Err(LoadProblem::Instantiation(problem)),
    }
}

/// Whether modules have the same bytes, and the same names are asked for them.
pub open spec fn same_sources(left: Seq<WasmSource>, right: Seq<WasmSource>) -> bool {
    &&& left.len() == right.len()
    &&& forall|i: int|
        #![trigger left[i]]
        #![trigger right[i]]
        0 <= i < left.len() ==> left[i].data@ == right[i].data@ && name_text(left[i].name)
            == name_text(right[i].name)
}

/// Whether two inputs hold the same modules and the same configuration.
pub open spec fn same_input(left: PluginInput, right: PluginInput) -> bool {
    match (left, right) {
        (PluginInput::Data(left), PluginInput::Data(right)) => left@ == right@,
        (
            PluginInput::Manifest { wasm: left_wasm, config: left_config },
            PluginInput::Manifest { wasm: right_wasm, config: right_config },
        ) => same_sources(left_wasm@, right_wasm@) && left_config@ == right_config@,
        _ => false,
    }
}

/// Modules of the same bytes and names are compiled alike.
pub proof fn same_sources_compile_alike(
    store: StoreMut<'_>,
    left: Seq<WasmSource>,
    right: Seq<WasmSource>,
    outcome: Result<Map<Seq<char>, NamedModule>, CompileError>,
)
    requires
        same_sources(left, right),
        loads_all(store, left, outcome),
    ensures
        loads_all(store, right, outcome),
    decreases left.len(),
{
    if left.len() > 0 {
        let earlier = choose|earlier: Result<Map<Seq<char>, NamedModule>, CompileError>| #[trigger]
            reaches(earlier) && loads_all(store, left.drop_last(), earlier) && match earlier {
                Err(err) => outcome == Err::<Map<Seq<char>, NamedModule>, CompileError>(err),
                Ok(modules) => adds(store, modules, left.last(), outcome),
            };
        assert(same_sources(left.drop_last(), right.drop_last()));
        same_sources_compile_alike(store, left.drop_last(), right.drop_last(), earlier);
        assert(left.last() == left[left.len() - 1] && right.last() == right[left.len() - 1]);
        if let Ok(modules) = earlier {
            let loaded = choose|loaded: Result<NamedModule, CompileError>| #[trigger]
                loads(store, left.last().data@, name_text(left.last().name), loaded) && outcome
                    == match loaded {
                    Ok(named) => Ok(
                        modules.insert(module_key(name_text(left.last().name)), named),
                    ),
                    Err(err) => Err(err),
                };
            assert(loads(store, right.last().data@, name_text(right.last().name), loaded));
            assert(adds(store, modules, right.last(), outcome));
        }
        assert(reaches(earlier));
    }
}

/// Whether two modules bear the same name and have the same imports.
pub open spec fn same_module(left: NamedModule, right: NamedModule) -> bool {
    &&& left.name@ == right.name@
    &&& engine::module_imports(left.module) == engine::module_imports(right.module)
}

/// Whether modules are looked up by the same names, and then are the same.
pub open spec fn same_modules(
    left: Map<Seq<char>, NamedModule>,
    right: Map<Seq<char>, NamedModule>,
) -> bool {
    &&& left.dom() == right.dom()
    &&& forall|key: Seq<char>| #[trigger]
        left.contains_key(key) ==> same_module(left[key], right[key])
}

/// Modules of the same bytes and names that are compiled twice are looked up by the same names, bear
/// the same names, and have the same imports, whenever both compilations succeed.
pub proof fn same_sources_give_the_same_modules(
    left_store: StoreMut<'_>,
    right_store: StoreMut<'_>,
    left: Seq<WasmSource>,
    right: Seq<WasmSource>,
    left_modules: Map<Seq<char>, NamedModule>,
    right_modules: Map<Seq<char>, NamedModule>,
)
    requires
        engine::is_steady(left_store),
        engine::is_steady(right_store),
        same_sources(left, right),
        loads_all(left_store, left, Ok(left_modules)),
        loads_all(right_store, right, Ok(right_modules)),
    ensures
        same_modules(left_modules, right_modules),
    decreases left.len(),
{
    if left.len() > 0 {
        let (left_rest, left_last) = last_load(left_store, left, left_modules);
        let (right_rest, right_last) = last_load(right_store, right, right_modules);
        assert(same_sources(left.drop_last(), right.drop_last()));
        same_sources_give_the_same_modules(
            left_store,
            right_store,
            left.drop_last(),
            right.drop_last(),
            left_rest,
            right_rest,
        );
        assert(left.last() == left[left.len() - 1] && right.last() == right[left.len() - 1]);
        assert(left_modules.dom() =~= right_modules.dom());
        assert forall|key: Seq<char>| #[trigger] left_modules.contains_key(key) implies same_module(
            left_modules[key],
            right_modules[key],
        ) by {
            if key != module_key(name_text(left.last().name)) {
                assert(left_rest.contains_key(key));
            }
        }
    }
}

/// The modules before the last one is compiled, and the last one.
proof fn last_load(
    store: StoreMut<'_>,
    sources: Seq<WasmSource>,
    modules: Map<Seq<char>, NamedModule>,
) -> (steps: (Map<Seq<char>, NamedModule>, NamedModule))
    requires
        engine::is_steady(store),
        sources.len() > 0,
        loads_all(store, sources, Ok(modules)),
    ensures
        loads_all(store, sources.drop_last(), Ok(steps.0)),
        modules == steps.0.insert(module_key(name_text(sources.last().name)), steps.1),
        steps.1.name@ == chosen_name(
            name_text(sources.last().name),
            engine::written_name(sources.last().data@),
        ),
        engine::module_imports(steps.1.module) == engine::written_imports(sources.last().data@),
{
    let earlier = choose|earlier: Result<Map<Seq<char>, NamedModule>, CompileError>| #[trigger]
        reaches(earlier) && loads_all(store, sources.drop_last(), earlier) && match earlier {
            Err(err) => Ok::<Map<Seq<char>, NamedModule>, CompileError>(modules) == Err::<
                Map<Seq<char>, NamedModule>,
                CompileError,
            >(err),
            Ok(rest) => adds(store, rest, sources.last(), Ok(modules)),
        };
    let rest = earlier->Ok_0;
    let wanted = name_text(sources.last().name);
    let loaded = choose|loaded: Result<NamedModule, CompileError>| #[trigger]
        loads(store, sources.last().data@, wanted, loaded) && Ok::<
            Map<Seq<char>, NamedModule>,
            CompileError,
        >(modules) == match loaded {
            Ok(named) => Ok(rest.insert(module_key(wanted), named)),
            Err(err) => Err(err),
        };
    (rest, loaded->Ok_0)
}

/// Plugins of the same modules and the same configuration are loaded alike, wherever these were had
/// from.
pub proof fn same_input_loads_alike<
    ID,
    L: Fn(&ID, HostEvent),
    S: Fn(Vec<u8>, Vec<u8>) -> Result<HttpAnswer, ()>,
>(
    before: StoreMut<'_>,
    runtime: Module,
    id: ID,
    left: PluginInput,
    right: PluginInput,
    exports: Seq<HostExport>,
    emit: L,
    send: S,
    outcome: Result<PluginParts, LoadProblem>,
    after: StoreMut<'_>,
)
    requires
        same_input(left, right),
        sets_up(before, runtime, id, left, exports, emit, send, outcome, after),
    ensures
        sets_up(before, runtime, id, right, exports, emit, send, outcome, after),
{
    let (started, between) = choose|
        started: Result<Instance, LinkProblem>,
        between: StoreMut<'_>,
    | #[trigger]
        kernel::kernel_starts(before, runtime, started, between) && match started {
            Err(problem) => {
                &&& outcome == Err::<PluginParts, LoadProblem>(LoadProblem::Instantiation(problem))
                &&& after == between
            },
            Ok(instance) => sets_up_on(between, instance, id, left, exports, emit, send, outcome, after),
        };
    if let Ok(instance) = started {
        same_input_joins_alike(between, instance, id, left, right, exports, emit, send, outcome, after);
    }
    assert(kernel::kernel_starts(before, runtime, started, between));
}

proof fn same_input_joins_alike<
    ID,
    L: Fn(&ID, HostEvent),
    S: Fn(Vec<u8>, Vec<u8>) -> Result<HttpAnswer, ()>,
>(
    before: StoreMut<'_>,
    instance: Instance,
    id: ID,
    left: PluginInput,
    right: PluginInput,
    exports: Seq<HostExport>,
    emit: L,
    send: S,
    outcome: Result<PluginParts, LoadProblem>,
    after: StoreMut<'_>,
)
    requires
        same_input(left, right),
        sets_up_on(before, instance, id, left, exports, emit, send, outcome, after),
    ensures
        sets_up_on(before, instance, id, right, exports, emit, send, outcome, after),
{
    let modules = choose|modules: Result<Map<Seq<char>, NamedModule>, CompileError>| #[trigger]
        reads(before, left, modules) && match modules {
            Err(err) => {
                &&& outcome == Err::<PluginParts, LoadProblem>(LoadProblem::CompileError(err))
                &&& after == before
            },
            Ok(modules) => joins(
                before,
                instance,
                id,
                left,
                modules,
                exports,
                emit,
                send,
                outcome,
                after,
            ),
        };
    match (left, right) {
        (
            PluginInput::Manifest { wasm: left_wasm, .. },
            PluginInput::Manifest { wasm: right_wasm, .. },
        ) => {
            same_sources_compile_alike(before, left_wasm@, right_wasm@, modules);
        },
        _ => {},
    }
    assert(config_in(left) == config_in(right));
    assert(reads(before, right, modules));
    if let Ok(modules) = modules {
        assert(joins(before, instance, id, right, modules, exports, emit, send, outcome, after));
    }
}

} // verus!
