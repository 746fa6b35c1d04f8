//! What loading a plugin comes down to: which modules it has, what they can import, and why it fails.
use crate::engine::{self, ExportErrorView};
use crate::env::{self, GuestHost, HostView};
use crate::errors::{LinkProblem, LoadProblem};
use crate::function::{self, HostExport};
use crate::host::{self, HostEvent, HttpAnswer};
use crate::kernel;
use crate::link::{self, LinkState, LinkWorld, NamedModule};
use crate::load::{self, PluginInput, PluginParts, WasmSource};
use vstd::prelude::*;
use vstd::utf8::*;
use wasmer::{CompileError, Extern, FunctionEnv, Instance, Module, StoreMut};

verus! {

/// Whether a module was made of bytes: they were compiled, and the module bears the name that is asked for
/// it, else the one that is written in it, else `main`. Its imports are those of the compiled module.
pub open spec fn is_made_of(
    store: StoreMut<'_>,
    data: Seq<u8>,
    wanted: Option<Seq<char>>,
    named: NamedModule,
) -> bool {
    exists|compiled: Module|
        {
            &&& #[trigger] engine::compilation(store, data, Ok(compiled))
            &&& engine::module_imports(named.module) == engine::module_imports(compiled)
            &&& wanted matches Some(name) ==> named.name@ == name
            &&& wanted is None ==> named.name@ == (match engine::module_name(compiled) {
                Some(own) => own,
                None => "main"@,
            })
            &&& named.module == compiled || (named.module == engine::renamed(
                compiled,
                named.name@,
            ) && engine::module_name(named.module) == Some(named.name@))
            &&& engine::module_name(compiled) is Some && wanted is None ==> named.module
                == compiled
            &&& engine::module_name(compiled) is None || wanted is Some ==> was_given_its_name(
                compiled,
                named,
            )
        }
}

/// Whether a compiled module was given its name, as far as the engine has taken it.
pub open spec fn was_given_its_name(compiled: Module, named: NamedModule) -> bool {
    exists|accepted: bool| #[trigger]
        engine::naming(compiled, named.name@, accepted, named.module) && (accepted
            ==> named.module == engine::renamed(compiled, named.name@)) && (!accepted
            ==> named.module == compiled)
}

/// Whether a module could be made of its bytes.
pub open spec fn does_compile(store: StoreMut<'_>, source: WasmSource) -> bool {
    exists|named: NamedModule| #[trigger]
        is_made_of(store, source.data@, wanted(source), named)
}

/// A module is compiled from its bytes, and bears the name that is asked for it, else its own, else `main`.
/// There is none only where the bytes do not compile.
pub proof fn modules_are_made_of_their_bytes(
    store: StoreMut<'_>,
    data: Seq<u8>,
    wanted: Option<Seq<char>>,
    outcome: Result<NamedModule, CompileError>,
)
    requires
        load::loads(store, data, wanted, outcome),
    ensures
        match outcome {
            Ok(named) => is_made_of(store, data, wanted, named),
            Err(err) => engine::compilation(store, data, Err(err)),
        },
{
    let compiled = choose|compiled: Result<Module, CompileError>| #[trigger]
        engine::compilation(store, data, compiled) && match compiled {
            Ok(module) => {
                &&& outcome matches Ok(named)
                &&& load::is_named_as(module, wanted, named)
                &&& engine::is_steady(store) ==> load::is_written(data, module)
            },
            Err(err) => outcome == Err::<NamedModule, CompileError>(err),
        };
    match compiled {
        Ok(module) => {
            assert(engine::compilation(store, data, Ok(module)));
        },
        Err(err) => {
            assert(engine::compilation(store, data, Err(err)));
        },
    }
}

/// The name that is asked for a module.
pub open spec fn wanted(source: WasmSource) -> Option<Seq<char>> {
    match source.name {
        Some(name) => Some(name@),
        None => None,
    }
}

/// What a module of a manifest is looked up by: the name that is asked for it, else `main`.
pub open spec fn looked_up_by(source: WasmSource) -> Seq<char> {
    match source.name {
        Some(name) => name@,
        None => "main"@,
    }
}

/// Whether a module of a manifest is the last one that is looked up by its name.
pub open spec fn is_last(sources: Seq<WasmSource>, i: int) -> bool {
    forall|j: int|
        i < j < sources.len() ==> looked_up_by(#[trigger] sources[j]) != looked_up_by(sources[i])
}

/// All modules of a manifest are there, by the names that they are looked up by, and each is made of its own
/// bytes. Of those that are looked up by the same name, the last one is. No others are there. All of them have
/// been compiled.
pub proof fn manifests_give_all_their_modules(
    store: StoreMut<'_>,
    sources: Seq<WasmSource>,
    modules: Map<Seq<char>, NamedModule>,
)
    requires
        load::loads_all(store, sources, Ok(modules)),
    ensures
        forall|i: int|
            0 <= i < sources.len() ==> modules.contains_key(looked_up_by(#[trigger] sources[i])),
        forall|i: int|
            0 <= i < sources.len() && is_last(sources, i) ==> is_made_of(
                store,
                (#[trigger] sources[i]).data@,
                wanted(sources[i]),
                modules[looked_up_by(sources[i])],
            ),
        forall|i: int| 0 <= i < sources.len() ==> does_compile(store, #[trigger] sources[i]),
        forall|key: Seq<char>| #[trigger]
            modules.contains_key(key) ==> exists|i: int|
                0 <= i < sources.len() && looked_up_by(#[trigger] sources[i]) == key,
    decreases sources.len(),
{
    if sources.len() > 0 {
        let outcome = Ok::<Map<Seq<char>, NamedModule>, CompileError>(modules);
        let earlier = choose|earlier: Result<Map<Seq<char>, NamedModule>, CompileError>| #[trigger]
            load::reaches(earlier) && load::loads_all(store, sources.drop_last(), earlier)
                && match earlier {
                Err(err) => outcome == Err::<Map<Seq<char>, NamedModule>, CompileError>(err),
                Ok(rest) => load::adds(store, rest, sources.last(), outcome),
            };
        let rest = earlier->Ok_0;
        let front = sources.drop_last();
        let last = sources.last();
        manifests_give_all_their_modules(store, front, rest);
        let loaded = choose|loaded: Result<NamedModule, CompileError>| #[trigger]
            load::loads(store, last.data@, load::name_text(last.name), loaded) && outcome
                == match loaded {
                Ok(named) => Ok(
                    rest.insert(load::module_key(load::name_text(last.name)), named),
                ),
                Err(err) => Err(err),
            };
        modules_are_made_of_their_bytes(store, last.data@, wanted(last), loaded);
        let key = looked_up_by(last);
        assert(modules == rest.insert(key, loaded->Ok_0));
        assert(is_made_of(store, last.data@, wanted(last), loaded->Ok_0));
        assert(does_compile(store, last));
        assert forall|i: int| 0 <= i < sources.len() implies does_compile(
            store,
            #[trigger] sources[i],
        ) by {
            if i < front.len() {
                assert(front[i] == sources[i]);
            }
        }
        assert forall|i: int| 0 <= i < sources.len() implies modules.contains_key(
            looked_up_by(#[trigger] sources[i]),
        ) by {
            if i < front.len() {
                assert(front[i] == sources[i]);
            }
        }
        assert forall|i: int| 0 <= i < sources.len() && is_last(sources, i) implies is_made_of(
            store,
            (#[trigger] sources[i]).data@,
            wanted(sources[i]),
            modules[looked_up_by(sources[i])],
        ) by {
            if i < front.len() {
                assert(front[i] == sources[i]);
                assert(looked_up_by(sources[front.len() as int]) != looked_up_by(sources[i]));
                assert forall|j: int| i < j < front.len() implies looked_up_by(#[trigger] front[j])
                    != looked_up_by(front[i]) by {
                    assert(front[j] == sources[j]);
                }
                assert(is_last(front, i));
            }
        }
        assert forall|name: Seq<char>| #[trigger] modules.contains_key(name) implies exists|i: int|
            0 <= i < sources.len() && looked_up_by(#[trigger] sources[i]) == name by {
            if name == key {
                assert(looked_up_by(sources[sources.len() - 1]) == name);
            } else {
                assert(rest.contains_key(name));
                let i = choose|i: int|
                    0 <= i < front.len() && looked_up_by(#[trigger] front[i]) == name;
                assert(looked_up_by(sources[i]) == name);
            }
        }
    }
}

/// The modules of a manifest cannot be had only where one of them does not compile, and then that is told of the
/// first one.
pub proof fn manifests_fail_with_a_module(
    store: StoreMut<'_>,
    sources: Seq<WasmSource>,
    err: CompileError,
)
    requires
        load::loads_all(store, sources, Err(err)),
    ensures
        exists|i: int|
            0 <= i < sources.len() && engine::compilation(
                store,
                (#[trigger] sources[i]).data@,
                Err(err),
            ) && forall|j: int| 0 <= j < i ==> does_compile(store, #[trigger] sources[j]),
    decreases sources.len(),
{
    if sources.len() > 0 {
        let outcome = Err::<Map<Seq<char>, NamedModule>, CompileError>(err);
        let earlier = choose|earlier: Result<Map<Seq<char>, NamedModule>, CompileError>| #[trigger]
            load::reaches(earlier) && load::loads_all(store, sources.drop_last(), earlier)
                && match earlier {
                Err(err) => outcome == Err::<Map<Seq<char>, NamedModule>, CompileError>(err),
                Ok(rest) => load::adds(store, rest, sources.last(), outcome),
            };
        let front = sources.drop_last();
        let last = sources.last();
        match earlier {
            Err(_) => {
                manifests_fail_with_a_module(store, front, err);
                let i = choose|i: int|
                    0 <= i < front.len() && engine::compilation(
                        store,
                        (#[trigger] front[i]).data@,
                        Err(err),
                    ) && forall|j: int| 0 <= j < i ==> does_compile(store, #[trigger] front[j]);
                assert(sources[i] == front[i]);
                assert forall|j: int| 0 <= j < i implies does_compile(
                    store,
                    #[trigger] sources[j],
                ) by {
                    assert(front[j] == sources[j]);
                }
            },
            Ok(rest) => {
                let loaded = choose|loaded: Result<NamedModule, CompileError>| #[trigger]
                    load::loads(store, last.data@, load::name_text(last.name), loaded) && outcome
                        == match loaded {
                        Ok(named) => Ok(
                            rest.insert(load::module_key(load::name_text(last.name)), named),
                        ),
                        Err(err) => Err(err),
                    };
                modules_are_made_of_their_bytes(store, last.data@, wanted(last), loaded);
                manifests_give_all_their_modules(store, front, rest);
                assert(sources[sources.len() - 1] == last);
                assert forall|j: int| 0 <= j < sources.len() - 1 implies does_compile(
                    store,
                    #[trigger] sources[j],
                ) by {
                    assert(front[j] == sources[j]);
                }
            },
        }
    }
}

/// A single module is the only one, and is looked up by the name that it bears.
pub proof fn single_modules_are_alone(
    store: StoreMut<'_>,
    data: Vec<u8>,
    outcome: Result<Map<Seq<char>, NamedModule>, CompileError>,
)
    requires
        load::reads(store, PluginInput::Data(data), outcome),
    ensures
        match outcome {
            Ok(modules) => exists|named: NamedModule|
                #[trigger] is_made_of(store, data@, None, named) && modules.contains_key(
                    named.name@,
                ) && modules[named.name@] == named && modules.dom() == set![named.name@],
            Err(err) => engine::compilation(store, data@, Err(err)),
        },
{
    let loaded = choose|loaded: Result<NamedModule, CompileError>| #[trigger]
        load::loads(store, data@, None, loaded) && outcome == match loaded {
            Ok(named) => Ok(Map::<Seq<char>, NamedModule>::empty().insert(named.name@, named)),
            Err(err) => Err(err),
        };
    modules_are_made_of_their_bytes(store, data@, None, loaded);
    if let Ok(named) = loaded {
        assert(is_made_of(store, data@, None, named));
        assert(outcome->Ok_0.dom() =~= set![named.name@]);
    }
}

/// What an export of the embedding program is imported from: the namespace that it names, or that of such
/// functions.
pub open spec fn namespace_of(export: HostExport) -> Seq<char> {
    match export.namespace {
        Some(namespace) => namespace@,
        None => "extism:host/user"@,
    }
}

/// Whether an export is the last one of its namespace and name.
pub open spec fn is_last_export(exports: Seq<HostExport>, i: int) -> bool {
    forall|j: int|
        i < j < exports.len() ==> !(namespace_of(#[trigger] exports[j]) == namespace_of(exports[i])
            && exports[j].name@ == exports[i].name@)
}

/// An export is there by its namespace and name, unless a later one has the same.
proof fn export_is_there(exports: Seq<HostExport>, built: Seq<Extern>, i: int)
    requires
        built.len() == exports.len(),
        0 <= i < exports.len(),
        is_last_export(exports, i),
    ensures
        load::exported(exports, built).contains_key(
            (namespace_of(exports[i]), exports[i].name@),
        ),
        load::exported(exports, built)[(namespace_of(exports[i]), exports[i].name@)] == built[i],
    decreases exports.len(),
{
    let front = exports.drop_last();
    let last = exports.last();
    assert(last.space() == namespace_of(last));
    if i < front.len() {
        assert(front[i] == exports[i]);
        assert(exports[front.len() as int] == last);
        assert forall|j: int| i < j < front.len() implies !(namespace_of(#[trigger] front[j])
            == namespace_of(front[i]) && front[j].name@ == front[i].name@) by {
            assert(front[j] == exports[j]);
        }
        export_is_there(front, built.drop_last(), i);
    }
}

/// What is there by a namespace and a name is some export that has them.
proof fn export_is_meant(
    exports: Seq<HostExport>,
    built: Seq<Extern>,
    key: (Seq<char>, Seq<char>),
) -> (i: int)
    requires
        load::exported(exports, built).contains_key(key),
    ensures
        0 <= i < exports.len(),
        namespace_of(exports[i]) == key.0,
        exports[i].name@ == key.1,
    decreases exports.len(),
{
    let last = exports.last();
    if key == (last.space(), last.name@) {
        assert(last.space() == namespace_of(last));
        exports.len() - 1
    } else {
        export_is_meant(exports.drop_last(), built.drop_last(), key)
    }
}

/// Whether the host offers something in the namespace of the kernel under a name: the kernel exports it, or
/// it is a function of the host.
pub open spec fn is_in_kernel_space(view: HostView, name: Seq<char>) -> bool {
    engine::instance_exports(view.kernel.instance()).contains_key(name) || env::function_named(
        name,
    ) is Some
}

/// Every export of the embedding program can be imported from its namespace by its name, and stands for the
/// function that was given, unless a later one has the same or the kernel's namespace has it already.
pub proof fn exports_can_be_imported(
    store: StoreMut<'_>,
    view: HostView,
    exports: Seq<HostExport>,
    external: Map<(Seq<char>, Seq<char>), Extern>,
    i: int,
)
    requires
        load::is_provided(store, view, exports, external),
        0 <= i < exports.len(),
        is_last_export(exports, i),
        namespace_of(exports[i]) == "extism:host/env"@ ==> !is_in_kernel_space(
            view,
            exports[i].name@,
        ),
    ensures
        external.contains_key((namespace_of(exports[i]), exports[i].name@)),
        exports[i].is_behind(external[(namespace_of(exports[i]), exports[i].name@)]),
        function::call_kernel(external[(namespace_of(exports[i]), exports[i].name@)])
            == view.kernel,
        engine::extern_type(store, external[(namespace_of(exports[i]), exports[i].name@)])
            == exports[i].shape(),
{
    let (built, offered) = choose|built: Seq<Extern>, offered: Map<Seq<char>, Extern>|
        #![trigger load::are_built(store, view.kernel, exports, built), env::are_offered(store, view, offered)]
        {
            &&& load::are_built(store, view.kernel, exports, built)
            &&& env::are_offered(store, view, offered)
            &&& external == load::with_offered(load::exported(exports, built), offered)
        };
    export_is_there(exports, built, i);
    let shared = choose|shared: FunctionEnv<Box<dyn GuestHost>>| #[trigger]
        env::starts_with(shared, view) && forall|name: Seq<char>| #[trigger]
            env::is_offered(store, view.kernel.instance(), shared, offered, name);
    assert(env::is_offered(store, view.kernel.instance(), shared, offered, exports[i].name@));
    let key = (namespace_of(exports[i]), exports[i].name@);
    assert(load::exported(exports, built).contains_key(key));
    assert(external.contains_key(key));
    assert(external[key] == built[i]);
}

/// Nothing can be imported from the host but exports of the embedding program, and what the kernel and the
/// host offer in the kernel's namespace.
pub proof fn nothing_else_can_be_imported(
    store: StoreMut<'_>,
    view: HostView,
    exports: Seq<HostExport>,
    external: Map<(Seq<char>, Seq<char>), Extern>,
    key: (Seq<char>, Seq<char>),
)
    requires
        load::is_provided(store, view, exports, external),
        external.contains_key(key),
    ensures
        (key.0 == "extism:host/env"@ && is_in_kernel_space(view, key.1)) || exists|i: int|
            0 <= i < exports.len() && namespace_of(#[trigger] exports[i]) == key.0
                && exports[i].name@ == key.1,
{
    let (built, offered) = choose|built: Seq<Extern>, offered: Map<Seq<char>, Extern>|
        #![trigger load::are_built(store, view.kernel, exports, built), env::are_offered(store, view, offered)]
        {
            &&& load::are_built(store, view.kernel, exports, built)
            &&& env::are_offered(store, view, offered)
            &&& external == load::with_offered(load::exported(exports, built), offered)
        };
    if load::exported(exports, built).contains_key(key) {
        let i = export_is_meant(exports, built, key);
        assert(namespace_of(exports[i]) == key.0);
    }
    let shared = choose|shared: FunctionEnv<Box<dyn GuestHost>>| #[trigger]
        env::starts_with(shared, view) && forall|name: Seq<char>| #[trigger]
            env::is_offered(store, view.kernel.instance(), shared, offered, name);
    assert(env::is_offered(store, view.kernel.instance(), shared, offered, key.1));
}

/// What the kernel and the host offer in the kernel's namespace can be imported from there: what the kernel
/// exports, and then the functions of the host, which work on what the host keeps for the plugin.
pub proof fn offers_can_be_imported(
    store: StoreMut<'_>,
    view: HostView,
    exports: Seq<HostExport>,
    external: Map<(Seq<char>, Seq<char>), Extern>,
)
    requires
        load::is_provided(store, view, exports, external),
    ensures
        forall|name: Seq<char>|
            is_in_kernel_space(view, name) ==> #[trigger] external.contains_key(
                ("extism:host/env"@, name),
            ),
        forall|name: Seq<char>|
            engine::instance_exports(view.kernel.instance()).contains_key(name)
                ==> #[trigger] external[("extism:host/env"@, name)] == engine::instance_exports(
                view.kernel.instance(),
            )[name],
        exists|shared: FunctionEnv<Box<dyn GuestHost>>|
            #[trigger] env::env_start(shared).seen() == view.shared() && forall|name: Seq<char>|
                !engine::instance_exports(view.kernel.instance()).contains_key(name)
                    && env::function_named(name) is Some ==> env::is_function_of(
                    store,
                    shared,
                    #[trigger] external[("extism:host/env"@, name)],
                    env::function_named(name)->0,
                ),
{
    let (built, offered) = choose|built: Seq<Extern>, offered: Map<Seq<char>, Extern>|
        #![trigger load::are_built(store, view.kernel, exports, built), env::are_offered(store, view, offered)]
        {
            &&& load::are_built(store, view.kernel, exports, built)
            &&& env::are_offered(store, view, offered)
            &&& external == load::with_offered(load::exported(exports, built), offered)
        };
    let shared = choose|shared: FunctionEnv<Box<dyn GuestHost>>| #[trigger]
        env::starts_with(shared, view) && forall|name: Seq<char>| #[trigger]
            env::is_offered(store, view.kernel.instance(), shared, offered, name);
    assert(env::env_start(shared).seen() == view.shared());
    assert forall|name: Seq<char>|
        is_in_kernel_space(view, name) implies #[trigger] external.contains_key(
        ("extism:host/env"@, name),
    ) by {
        assert(env::is_offered(store, view.kernel.instance(), shared, offered, name));
    }
    assert forall|name: Seq<char>|
        engine::instance_exports(view.kernel.instance()).contains_key(
            name,
        ) implies #[trigger] external[("extism:host/env"@, name)] == engine::instance_exports(
        view.kernel.instance(),
    )[name] by {
        assert(env::is_offered(store, view.kernel.instance(), shared, offered, name));
    }
    assert forall|name: Seq<char>|
        !engine::instance_exports(view.kernel.instance()).contains_key(name)
            && env::function_named(name) is Some implies env::is_function_of(
        store,
        shared,
        #[trigger] external[("extism:host/env"@, name)],
        env::function_named(name)->0,
    ) by {
        assert(env::is_offered(store, view.kernel.instance(), shared, offered, name));
    }
}

/// What the host keeps for a plugin at first: the whole configuration of its manifest, each value as the
/// encoding of its text; no variables; and no answer.
pub open spec fn starts_afresh(view: HostView, config: Map<Seq<char>, String>) -> bool {
    &&& forall|name: Seq<char>| #[trigger]
        view.config.contains_key(name) <==> config.contains_key(name)
    &&& forall|name: Seq<char>|
        config.contains_key(name) ==> #[trigger] view.config[name] == encode_utf8(config[name]@)
    &&& forall|name: Seq<char>| !(#[trigger] view.vars.contains_key(name))
    &&& view.last is None
}

/// Whether a plugin was loaded from an input: with a kernel of its own, the modules of the input, what can be
/// imported by them, nothing but its configuration on the side of the host, and every module started.
pub open spec fn was_loaded<
    ID,
    L: Fn(&ID, HostEvent),
    S: Fn(Vec<u8>, Vec<u8>) -> Result<HttpAnswer, ()>,
>(
    before: StoreMut<'_>,
    runtime: Module,
    id: ID,
    input: PluginInput,
    exports: Seq<HostExport>,
    emit: L,
    send: S,
    parts: PluginParts,
    after: StoreMut<'_>,
) -> bool {
    exists|view: HostView, between: StoreMut<'_>, linked: StoreMut<'_>, world: LinkWorld|
        {
            &&& kernel::kernel_starts(before, runtime, Ok(parts.kernel.instance()), between)
            &&& #[trigger] load::reads(between, input, Ok(world.modules))
            &&& #[trigger] load::is_provided(linked, view, exports, world.external)
            &&& engine::extends(between, linked)
            &&& view.kernel == parts.kernel
            &&& starts_afresh(
                view,
                match input {
                    PluginInput::Manifest { wasm: _, config } => config@,
                    PluginInput::Data(_) => Map::empty(),
                },
            )
            &&& forall|event: host::HostEventView| #[trigger]
                (view.sink)(event) <==> host::hands_on(emit, &id, event)
            &&& forall|request: (Seq<u8>, Seq<u8>), answer: Result<host::AnswerView, ()>|
             #[trigger]
                (view.replies)(request, answer) <==> host::may_answer(send, request, answer)
            &&& parts.modules == world.modules
            &&& all_were_started(world, linked, parts.instances, after)
        }
}

/// A plugin that has been loaded has the modules that its input gives, linked with a kernel of its own and
/// what that and the embedding program provide; and the host has nothing for it but its configuration.
pub proof fn plugins_start_afresh<
    ID,
    L: Fn(&ID, HostEvent),
    S: Fn(Vec<u8>, Vec<u8>) -> Result<HttpAnswer, ()>,
>(
    before: StoreMut<'_>,
    runtime: Module,
    id: ID,
    input: PluginInput,
    exports: Seq<HostExport>,
    emit: L,
    send: S,
    parts: PluginParts,
    after: StoreMut<'_>,
)
    requires
        load::sets_up(before, runtime, id, input, exports, emit, send, Ok(parts), after),
    ensures
        was_loaded(before, runtime, id, input, exports, emit, send, parts, after),
{
    let (started, between) = choose|started: Result<Instance, LinkProblem>, between: StoreMut<'_>|
     #[trigger]
        kernel::kernel_starts(before, runtime, started, between) && match started {
            Err(problem) => false,
            Ok(instance) => load::sets_up_on(
                between,
                instance,
                id,
                input,
                exports,
                emit,
                send,
                Ok(parts),
                after,
            ),
        };
    let instance = started->Ok_0;
    let modules = choose|modules: Result<Map<Seq<char>, NamedModule>, CompileError>| #[trigger]
        load::reads(between, input, modules) && match modules {
            Err(err) => false,
            Ok(modules) => load::joins(
                between,
                instance,
                id,
                input,
                modules,
                exports,
                emit,
                send,
                Ok(parts),
                after,
            ),
        };
    let view = choose|view: HostView| #[trigger]
        load::assembles(between, view, modules->Ok_0, exports, Ok(parts), after)
            && view.kernel.instance() == instance && view.kernel.is_own() && view
            == load::first_view(&view.kernel, load::config_in(input), id, emit, send);
    let (provided, linked) = choose|
        provided: Result<Map<(Seq<char>, Seq<char>), Extern>, ExportErrorView>,
        linked: StoreMut<'_>,
    | #[trigger]
        load::provides(between, view, exports, provided, linked) && match provided {
            Err(problem) => false,
            Ok(external) => load::runs_modules(
                linked,
                view.kernel,
                LinkWorld { modules: modules->Ok_0, external },
                Ok(parts),
                after,
            ),
        };
    let world = LinkWorld { modules: modules->Ok_0, external: provided->Ok_0 };
    let (order, ended, instances) = choose|
        order: Seq<Seq<char>>,
        ended: Result<(), LinkProblem>,
        instances: Map<Seq<char>, Instance>,
    |
        load::is_order(world.modules, order) && #[trigger] load::starts_all(
            world,
            order,
            order.len(),
            LinkState { store: linked, loaded: Map::empty() },
            ended,
            LinkState { store: after, loaded: instances },
        ) && Ok::<PluginParts, LoadProblem>(parts) == load::load_result(
            ended,
            PluginParts { kernel: view.kernel, modules: world.modules, instances },
        );
    assert(ended == Ok::<(), LinkProblem>(()));
    assert(all_were_started(world, linked, parts.instances, after));
    assert(kernel::kernel_starts(before, runtime, Ok(parts.kernel.instance()), between));
    assert(load::reads(between, input, Ok(world.modules)));
    assert(load::is_provided(linked, view, exports, world.external));
}

/// Whether a plugin could not be loaded, and why: no kernel could be started for it; one of its modules does
/// not compile; the kernel exports no memory; or one of the modules could not be started.
pub open spec fn could_not_be_loaded(
    before: StoreMut<'_>,
    runtime: Module,
    input: PluginInput,
    exports: Seq<HostExport>,
    problem: LoadProblem,
    after: StoreMut<'_>,
) -> bool {
    ||| problem matches LoadProblem::Instantiation(reason) && kernel::kernel_starts(
        before,
        runtime,
        Err(reason),
        after,
    )
    ||| exists|instance: Instance, between: StoreMut<'_>|
        #[trigger] kernel::kernel_starts(before, runtime, Ok(instance), between) && {
            ||| problem matches LoadProblem::CompileError(err) && load::reads(
                between,
                input,
                Err(err),
            ) && after == between
            ||| problem matches LoadProblem::Instantiation(LinkProblem::Export(missing))
                && engine::memory_export(instance, "memory"@) == Err::<
                wasmer::Memory,
                ExportErrorView,
            >(missing) && engine::extends(between, after)
            ||| problem matches LoadProblem::Instantiation(reason) && one_could_not_start(
                between,
                instance,
                input,
                exports,
                reason,
                after,
            )
        }
}

/// Whether one of the modules of a plugin could not be started, and why.
pub open spec fn one_could_not_start(
    before: StoreMut<'_>,
    instance: Instance,
    input: PluginInput,
    exports: Seq<HostExport>,
    reason: LinkProblem,
    after: StoreMut<'_>,
) -> bool {
    exists|
        view: HostView,
        linked: StoreMut<'_>,
        world: LinkWorld,
        key: Seq<char>,
        loaded: Map<Seq<char>, Instance>,
    |
        {
            &&& #[trigger] load::is_provided(linked, view, exports, world.external)
            &&& engine::extends(before, linked)
            &&& view.kernel.instance() == instance
            &&& load::reads(before, input, Ok(world.modules))
            &&& world.modules.contains_key(key)
            &&& #[trigger] could_not_start(
                world,
                key,
                reason,
                LinkState { store: after, loaded },
            )
        }
}

/// Loading a plugin fails only with a reason.
pub proof fn loading_fails_only_with_a_reason<
    ID,
    L: Fn(&ID, HostEvent),
    S: Fn(Vec<u8>, Vec<u8>) -> Result<HttpAnswer, ()>,
>(
    before: StoreMut<'_>,
    runtime: Module,
    id: ID,
    input: PluginInput,
    exports: Seq<HostExport>,
    emit: L,
    send: S,
    problem: LoadProblem,
    after: StoreMut<'_>,
)
    requires
        load::sets_up(before, runtime, id, input, exports, emit, send, Err(problem), after),
    ensures
        could_not_be_loaded(before, runtime, input, exports, problem, after),
{
    let outcome = Err::<PluginParts, LoadProblem>(problem);
    let (started, between) = choose|started: Result<Instance, LinkProblem>, between: StoreMut<'_>|
     #[trigger]
        kernel::kernel_starts(before, runtime, started, between) && match started {
            Err(problem) => {
                &&& outcome == Err::<PluginParts, LoadProblem>(LoadProblem::Instantiation(problem))
                &&& after == between
            },
            Ok(instance) => load::sets_up_on(
                between,
                instance,
                id,
                input,
                exports,
                emit,
                send,
                outcome,
                after,
            ),
        };
    if let Ok(instance) = started {
        assert(kernel::kernel_starts(before, runtime, Ok(instance), between));
        let modules = choose|modules: Result<Map<Seq<char>, NamedModule>, CompileError>| #[trigger]
            load::reads(between, input, modules) && match modules {
                Err(err) => {
                    &&& outcome == Err::<PluginParts, LoadProblem>(LoadProblem::CompileError(err))
                    &&& after == between
                },
                Ok(modules) => load::joins(
                    between,
                    instance,
                    id,
                    input,
                    modules,
                    exports,
                    emit,
                    send,
                    outcome,
                    after,
                ),
            };
        match modules {
            Err(err) => {
                assert(load::reads(between, input, Err(err)));
            },
            Ok(modules) => {
                joining_fails_only_with_a_reason(
                    between,
                    instance,
                    id,
                    input,
                    modules,
                    exports,
                    emit,
                    send,
                    problem,
                    after,
                );
            },
        }
    } else {
        let reason = started->Err_0;
        assert(kernel::kernel_starts(before, runtime, Err(reason), after));
    }
}

proof fn joining_fails_only_with_a_reason<
    ID,
    L: Fn(&ID, HostEvent),
    S: Fn(Vec<u8>, Vec<u8>) -> Result<HttpAnswer, ()>,
>(
    before: StoreMut<'_>,
    instance: Instance,
    id: ID,
    input: PluginInput,
    modules: Map<Seq<char>, NamedModule>,
    exports: Seq<HostExport>,
    emit: L,
    send: S,
    problem: LoadProblem,
    after: StoreMut<'_>,
)
    requires
        load::reads(before, input, Ok(modules)),
        load::joins(
            before,
            instance,
            id,
            input,
            modules,
            exports,
            emit,
            send,
            Err(problem),
            after,
        ),
    ensures
        problem is Instantiation,
        (problem->Instantiation_0 matches LinkProblem::Export(missing) && engine::memory_export(
            instance,
            "memory"@,
        ) == Err::<wasmer::Memory, ExportErrorView>(missing) && engine::extends(before, after))
            || one_could_not_start(
            before,
            instance,
            input,
            exports,
            problem->Instantiation_0,
            after,
        ),
{
    let outcome = Err::<PluginParts, LoadProblem>(problem);
    let view = choose|view: HostView| #[trigger]
        load::assembles(before, view, modules, exports, outcome, after) && view.kernel.instance()
            == instance && view.kernel.is_own() && view == load::first_view(
            &view.kernel,
            load::config_in(input),
            id,
            emit,
            send,
        );
    let (provided, linked) = choose|
        provided: Result<Map<(Seq<char>, Seq<char>), Extern>, ExportErrorView>,
        linked: StoreMut<'_>,
    | #[trigger]
        load::provides(before, view, exports, provided, linked) && match provided {
            Err(missing) => {
                &&& outcome == Err::<PluginParts, LoadProblem>(
                    LoadProblem::Instantiation(LinkProblem::Export(missing)),
                )
                &&& after == linked
            },
            Ok(external) => load::runs_modules(
                linked,
                view.kernel,
                LinkWorld { modules, external },
                outcome,
                after,
            ),
        };
    if let Ok(external) = provided {
        let world = LinkWorld { modules, external };
        let (order, ended, instances) = choose|
            order: Seq<Seq<char>>,
            ended: Result<(), LinkProblem>,
            instances: Map<Seq<char>, Instance>,
        |
            load::is_order(world.modules, order) && #[trigger] load::starts_all(
                world,
                order,
                order.len(),
                LinkState { store: linked, loaded: Map::empty() },
                ended,
                LinkState { store: after, loaded: instances },
            ) && outcome == load::load_result(
                ended,
                PluginParts { kernel: view.kernel, modules: world.modules, instances },
            );
        let reason = ended->Err_0;
        let end = LinkState { store: after, loaded: instances };
        modules_are_started_one_by_one(
            world,
            order,
            order.len(),
            LinkState { store: linked, loaded: Map::empty() },
            ended,
            end,
        );
        let i = choose|i: int|
            0 <= i < order.len() && #[trigger] could_not_start(world, order[i], reason, end);
        assert(order.to_set().contains(order[i]));
        assert(world.modules.contains_key(order[i]));
        assert(load::reads(before, input, Ok(world.modules)));
        assert(load::is_provided(linked, view, exports, world.external));
        assert(one_could_not_start(before, instance, input, exports, reason, after));
    }
}

/// Whether the modules of a plugin were started, one after the other, in the order of what they are looked
/// up by, each once and none left out.
pub open spec fn all_were_started(
    world: LinkWorld,
    before: StoreMut<'_>,
    instances: Map<Seq<char>, Instance>,
    after: StoreMut<'_>,
) -> bool {
    exists|order: Seq<Seq<char>>|
        {
            &&& order.to_set() == world.modules.dom()
            &&& crate::names::in_order(order)
            &&& #[trigger] load::starts_all(
                world,
                order,
                order.len(),
                LinkState { store: before, loaded: Map::empty() },
                Ok(()),
                LinkState { store: after, loaded: instances },
            )
        }
}

/// Starting modules one after the other fails only where one of them fails, and no other is started then.
/// Where it succeeds, every one of them has been started.
pub proof fn modules_are_started_one_by_one(
    world: LinkWorld,
    order: Seq<Seq<char>>,
    count: nat,
    before: LinkState<'_>,
    outcome: Result<(), LinkProblem>,
    after: LinkState<'_>,
)
    requires
        count <= order.len(),
        load::starts_all(world, order, count, before, outcome, after),
    ensures
        match outcome {
            Ok(_) => forall|i: int| 0 <= i < count ==> was_started(world, #[trigger] order[i]),
            Err(problem) => exists|i: int|
                0 <= i < count && #[trigger] could_not_start(world, order[i], problem, after),
        },
    decreases count,
{
    if count > 0 {
        let (earlier, between) = choose|earlier: Result<(), LinkProblem>, between: LinkState<'_>|
         #[trigger]
            load::arrives(earlier, between) && load::starts_all(
                world,
                order,
                (count - 1) as nat,
                before,
                earlier,
                between,
            ) && match earlier {
                Err(problem) => outcome == Err::<(), LinkProblem>(problem) && after == between,
                Ok(_) => link::starts(
                    link::depth_below(world.modules, Seq::empty()),
                    world,
                    between,
                    world.modules[order[count - 1]],
                    Seq::empty(),
                    outcome,
                    after,
                ),
            };
        modules_are_started_one_by_one(
            world,
            order,
            (count - 1) as nat,
            before,
            earlier,
            between,
        );
        if earlier is Ok {
            match outcome {
                Ok(_) => {
                    assert(outcome == Ok::<(), LinkProblem>(()));
                    assert(was_started(world, order[count - 1]));
                },
                Err(problem) => {
                    assert(outcome == Err::<(), LinkProblem>(problem));
                    assert(could_not_start(world, order[count - 1], problem, after));
                },
            }
        } else {
            let problem = earlier->Err_0;
            let i = choose|i: int|
                0 <= i < count - 1 && #[trigger] could_not_start(world, order[i], problem, between);
            assert(could_not_start(world, order[i], problem, after));
        }
    }
}

/// Modules are started one after the other, each in the state that the one before it has left, until one of them
/// fails.
pub proof fn modules_are_started_in_order(
    world: LinkWorld,
    order: Seq<Seq<char>>,
    count: nat,
    before: LinkState<'_>,
    outcome: Result<(), LinkProblem>,
    after: LinkState<'_>,
)
    requires
        count <= order.len(),
        load::starts_all(world, order, count, before, outcome, after),
    ensures
        count == 0 ==> outcome is Ok && after == before,
        count > 0 ==> exists|earlier: Result<(), LinkProblem>, between: LinkState<'_>|
            #[trigger] load::starts_all(world, order, (count - 1) as nat, before, earlier, between)
                && (earlier is Err ==> outcome == earlier && after == between) && (earlier is Ok
                ==> exists|depth: nat| #[trigger]
                link::starts(
                    depth,
                    world,
                    between,
                    world.modules[order[count - 1]],
                    Seq::empty(),
                    outcome,
                    after,
                )),
{
    if count > 0 {
        let (earlier, between) = choose|earlier: Result<(), LinkProblem>, between: LinkState<'_>|
         #[trigger]
            load::arrives(earlier, between) && load::starts_all(
                world,
                order,
                (count - 1) as nat,
                before,
                earlier,
                between,
            ) && match earlier {
                Err(problem) => outcome == Err::<(), LinkProblem>(problem) && after == between,
                Ok(_) => link::starts(
                    link::depth_below(world.modules, Seq::empty()),
                    world,
                    between,
                    world.modules[order[count - 1]],
                    Seq::empty(),
                    outcome,
                    after,
                ),
            };
        assert(load::starts_all(world, order, (count - 1) as nat, before, earlier, between));
    }
}

/// Whether a module of a plugin was started, with no other module waiting for it.
pub open spec fn was_started(world: LinkWorld, key: Seq<char>) -> bool {
    exists|depth: nat, before: LinkState<'_>, after: LinkState<'_>| #[trigger]
        link::starts(depth, world, before, world.modules[key], Seq::empty(), Ok(()), after)
}

/// Whether a module of a plugin could not be started, with no other module waiting for it, and why.
pub open spec fn could_not_start(
    world: LinkWorld,
    key: Seq<char>,
    problem: LinkProblem,
    after: LinkState<'_>,
) -> bool {
    exists|depth: nat, before: LinkState<'_>| #[trigger]
        link::starts(depth, world, before, world.modules[key], Seq::empty(), Err(problem), after)
}

} // verus!
