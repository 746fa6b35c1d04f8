//! Plugins: modules that are linked with one another, with a kernel of their own and with the host.
use crate::engine::{
    self, call_to_int, current_store, same_store, CallError, CallOutcome, ExportErrorView,
    ImportView,
};
use crate::env::{self, GuestHost, HostFunction, HostView};
use crate::errors::{
    self, ContextGoneError, ConvertError, KernelErrorView, LinkProblem, LoadProblem,
    PluginInstantiationError, PluginLoadError, PluginRunError, RunProblem,
};
use crate::function::HostExport;
use crate::host::{self, HostEvent, HttpAnswer, PluginIdentifier, PluginMetadata};
use crate::kernel::{self, Kernel, MemoryHandle};
use crate::link::{self, LinkState, LinkWorld, NamedModule};
use crate::load::{
    self, provide, read_input, start_modules, PluginInput, PluginParts, DEFAULT_MODULE_NAME,
};
use crate::names::NameMap;
use crate::vars::InMemoryVars;
use crate::EXTISM_ENV_MODULE;
use std::sync::Arc;
use vstd::map_lib::*;
use vstd::prelude::*;
use wasmer::{CompileError, Extern, FunctionEnv, Instance, Module, StoreMut};
use wasmer_types::StoreId;

verus! {

/// The number of the next plugin.
pub fn new_plugin_id(counter: &mut usize) -> (result: usize)
    ensures
        result == *old(counter),
        *final(counter) == old(counter).wrapping_add(1),
{
    let id: usize = *counter;
    *counter = id.wrapping_add(1);
    id
}

/// The value of a counter after some numbers have been handed out.
pub open spec fn counted(start: usize, given: nat) -> usize
    decreases given,
{
    if given == 0 {
        start
    } else {
        counted(start, (given - 1) as nat).wrapping_add(1)
    }
}

/// How a counter goes on from its start.
proof fn counted_from(start: usize, given: nat)
    requires
        given <= usize::MAX,
    ensures
        counted(start, given) == if start + given <= usize::MAX {
            start + given
        } else {
            start + given - usize::MAX - 1
        },
    decreases given,
{
    if given > 0 {
        counted_from(start, (given - 1) as nat);
    }
}

/// No number is given to two plugins, as long as a counter has not come round.
pub proof fn plugin_ids_differ(start: usize, first: nat, second: nat)
    requires
        first < second <= usize::MAX,
    ensures
        counted(start, first) != counted(start, second),
{
    counted_from(start, first);
    counted_from(start, second);
}

/// A loaded plugin.
pub struct Plugin {
    id: usize,
    store: StoreId,
    modules: NameMap<NamedModule>,
    instances: NameMap<Instance>,
    kernel: Arc<Kernel>,
}

impl Plugin {
    #[verifier::type_invariant]
    spec fn runs_where_loaded(self) -> bool {
        link::run_in(self.instances@, self.store)
    }

    /// The number of the plugin.
    pub closed spec fn number(self) -> usize {
        self.id
    }

    /// The store that the plugin runs in.
    pub closed spec fn home(self) -> StoreId {
        self.store
    }

    /// What the plugin is made of.
    pub closed spec fn parts(self) -> PluginParts {
        PluginParts {
            kernel: *self.kernel,
            modules: self.modules@,
            instances: self.instances@,
        }
    }

    /// The kernel of the plugin.
    pub closed spec fn own_kernel(self) -> Kernel {
        *self.kernel
    }

    /// Loads a plugin: starts a kernel for it, compiles its modules, and links them with the kernel,
    /// the functions of the host, the exports of the embedding program, and one another.
    pub fn new<
        ID: PluginIdentifier,
        L: Fn(&ID, HostEvent) + Send + 'static,
        S: Fn(Vec<u8>, Vec<u8>) -> Result<HttpAnswer, ()> + Send + 'static,
    >(
        store: &mut StoreMut<'_>,
        runtime: &Module,
        plugin_id: usize,
        id: ID,
        input: PluginInput,
        exports: Vec<HostExport>,
        emit: L,
        send: S,
    ) -> (result: Result<Plugin, PluginLoadError>)
        requires
            engine::is_compiled_for(*old(store), *runtime),
            load::are_usable(exports@),
            host::is_open(emit),
            host::is_sender(send),
        ensures
            load::sets_up(
                *old(store),
                *runtime,
                id,
                input,
                exports@,
                emit,
                send,
                match result {
                    Ok(plugin) => Ok(plugin.parts()),
                    Err(err) => Err(err@),
                },
                *final(store),
            ),
            result matches Ok(plugin) ==> {
                &&& plugin.number() == plugin_id
                &&& plugin.home() == engine::store_id(*final(store))
                &&& plugin.own_kernel() == plugin.parts().kernel
                &&& plugin.own_kernel().is_own()
                &&& plugin.own_kernel().number() == plugin_id
                &&& plugin.own_kernel().runs_in(*final(store))
            },
            engine::continues(*old(store), *final(store)),
    {
        let started = Kernel::new(store, runtime, plugin_id);
        let ghost between = *store;
        let kernel = match started {
            Ok(kernel) => kernel,
            Err(err) => {
                return Err(PluginLoadError::Instantiation(err));
            },
        };
        let ghost instance = kernel.instance();
        assert(kernel::kernel_starts(*old(store), *runtime, Ok(instance), between));
        let kernel = Arc::new(kernel);
        let read = read_input(store, input);
        assert(load::reads(between, input, load::read_modules(read)));
        let (modules, config) = match read {
            Ok(read) => read,
            Err(err) => {
                return Err(PluginLoadError::CompileError(err));
            },
        };
        let metadata = PluginMetadata { id, config, vars: InMemoryVars::default() };
        let ghost view = load::first_view(&*kernel, load::config_in(input), id, emit, send);
        assert(env::host_view(&*kernel, metadata, emit, send) =~= view);
        let provided = provide(store, &kernel, exports, metadata, emit, send);
        let ghost linked = *store;
        let external = match provided {
            Ok(external) => external,
            Err(err) => {
                assert(load::provides(between, view, exports@, Err(err@), linked));
                assert(load::assembles(
                    between,
                    view,
                    modules@,
                    exports@,
                    Err(LoadProblem::Instantiation(LinkProblem::Export(err@))),
                    linked,
                ));
                assert(load::joins(
                    between,
                    instance,
                    id,
                    input,
                    modules@,
                    exports@,
                    emit,
                    send,
                    Err(LoadProblem::Instantiation(LinkProblem::Export(err@))),
                    linked,
                ));
                return Err(
                    PluginLoadError::Instantiation(PluginInstantiationError::Export(err)),
                );
            },
        };
        assert(load::provides(between, view, exports@, Ok(external@), linked));
        let (ran, instances) = start_modules(store, &modules, &external);
        let ghost end = load::load_result(
            errors::link_result(ran),
            PluginParts { kernel: view.kernel, modules: modules@, instances: instances@ },
        );
        proof {
            assert(load::runs_modules(
                linked,
                view.kernel,
                LinkWorld { modules: modules@, external: external@ },
                end,
                *store,
            ));
            assert(load::assembles(between, view, modules@, exports@, end, *store));
            assert(load::joins(between, instance, id, input, modules@, exports@, emit, send, end, *store));
        }
        match ran {
            Ok(_) => {
                let home = current_store(store);
                Ok(Plugin { id: plugin_id, store: home, modules, instances, kernel })
            },
            Err(err) => Err(PluginLoadError::Instantiation(err)),
        }
    }
}

/// Whether a call failed, and why.
pub open spec fn fails<T>(result: Result<T, PluginRunError>, problem: RunProblem) -> bool {
    result matches Err(err) && err@ == problem
}

/// What the end of a call of a function of a plugin says: a function that returns anything but 0
/// has failed.
pub open spec fn run_outcome(end: CallOutcome) -> Result<(), RunProblem> {
    match end {
        CallOutcome::NotCallable(problem) => Err(RunProblem::Export(problem)),
        CallOutcome::Trapped(trap) => Err(RunProblem::Runtime(trap)),
        CallOutcome::Returned(values) => if values[0] == 0 {
            Ok(())
        } else {
            Err(RunProblem::Failed(values[0] as i32))
        },
    }
}

/// What the end of a call of a function of a plugin means for the caller.
pub fn judge(end: Result<i32, CallError>) -> (result: Result<(), PluginRunError>)
    ensures
        run_result(result) == run_outcome(engine::int_outcome(end)),
{
    match end {
        Ok(code) => if code == 0 {
            Ok(())
        } else {
            Err(PluginRunError::Failed(code))
        },
        Err(CallError::Export(err)) => Err(PluginRunError::Export(err)),
        Err(CallError::Runtime(err)) => Err(PluginRunError::Runtime(err)),
    }
}

/// A result with its error seen as plain values.
pub open spec fn run_result<T>(result: Result<T, PluginRunError>) -> Result<T, RunProblem> {
    match result {
        Ok(value) => Ok(value),
        Err(err) => Err(err@),
    }
}

/// What reading the output of a plugin does: the kernel says where it is; it is decoded; and its
/// block is given back, whether or not that succeeds. An output that does not decode is kept.
pub open spec fn collects<OUT, D: Fn(Vec<u8>) -> Result<OUT, extism_convert::Error>>(
    kernel: Kernel,
    before: StoreMut<'_>,
    decode: D,
    result: Result<OUT, PluginRunError>,
    after: StoreMut<'_>,
) -> bool {
    exists|place: Result<MemoryHandle, KernelErrorView>, between: StoreMut<'_>| #[trigger]
        kernel.reports(before, "output_offset"@, "output_length"@, place, between) && match place {
            Err(err) => fails(result, RunProblem::Context(err)) && after == between,
            Ok(handle) => reads_output(kernel, between, handle, decode, result, after),
        }
}

/// What decoding the output of a plugin does.
pub open spec fn reads_output<OUT, D: Fn(Vec<u8>) -> Result<OUT, extism_convert::Error>>(
    kernel: Kernel,
    before: StoreMut<'_>,
    handle: MemoryHandle,
    decode: D,
    result: Result<OUT, PluginRunError>,
    after: StoreMut<'_>,
) -> bool {
    exists|value: Result<OUT, ConvertError>| #[trigger]
        kernel::decoded(kernel.bytes_at(before, handle), decode, value) && match value {
            Err(err) => fails(result, RunProblem::Extism(err@)) && after == before,
            Ok(value) => result == Ok::<OUT, PluginRunError>(value) && kernel.releases(
                before,
                handle,
                after,
            ),
        }
}

impl Plugin {
    /// Whether the store at hand is the one that the plugin runs in.
    pub open spec fn runs_in(self, store: StoreMut<'_>) -> bool {
        self.home() == engine::store_id(store)
    }

    /// What running a function of the main module does.
    pub open spec fn runs(
        self,
        before: StoreMut<'_>,
        name: Seq<char>,
        outcome: Result<(), RunProblem>,
        after: StoreMut<'_>,
    ) -> bool {
        if !self.parts().instances.contains_key(DEFAULT_MODULE_NAME@) {
            outcome == Err::<(), RunProblem>(RunProblem::NoMainModule) && after == before
        } else {
            exists|end: CallOutcome| #[trigger]
                engine::calls(
                    before,
                    self.parts().instances[DEFAULT_MODULE_NAME@],
                    name,
                    engine::no_args(),
                    engine::int_result(),
                    end,
                    after,
                ) && outcome == run_outcome(end)
        }
    }

    /// What [`Plugin::call_in_out`] does: the input is put into a new block, and the kernel told
    /// where; then the function is run, and the output read. A block that the kernel could not be
    /// told of is given back.
    pub open spec fn calls_in_out<OUT, D: Fn(Vec<u8>) -> Result<OUT, extism_convert::Error>>(
        self,
        before: StoreMut<'_>,
        name: Seq<char>,
        encoded: Result<Seq<u8>, extism_convert::Error>,
        decode: D,
        result: Result<OUT, PluginRunError>,
        after: StoreMut<'_>,
    ) -> bool {
        if !self.runs_in(before) {
            fails(result, RunProblem::ContextGone) && after == before
        } else {
            exists|kept: Result<MemoryHandle, KernelErrorView>, between: StoreMut<'_>| #[trigger]
                self.own_kernel().keeps(before, encoded, kept, between) && match kept {
                    Err(err) => fails(result, RunProblem::Context(err)) && after == between,
                    Ok(handle) => self.passes_in_out(between, name, handle, decode, result, after),
                }
        }
    }

    /// What [`Plugin::call_in_out`] does once the input has its block.
    pub open spec fn passes_in_out<OUT, D: Fn(Vec<u8>) -> Result<OUT, extism_convert::Error>>(
        self,
        before: StoreMut<'_>,
        name: Seq<char>,
        handle: MemoryHandle,
        decode: D,
        result: Result<OUT, PluginRunError>,
        after: StoreMut<'_>,
    ) -> bool {
        exists|told: Result<(), KernelErrorView>, between: StoreMut<'_>| #[trigger]
            self.own_kernel().announces(before, "input_set"@, handle, told, between) && match told {
                Err(err) => fails(result, RunProblem::Context(err)) && self.own_kernel().releases(
                    between,
                    handle,
                    after,
                ),
                Ok(_) => self.calls_out(between, name, decode, result, after),
            }
    }

    /// What running a function and reading the output does.
    pub open spec fn calls_out<OUT, D: Fn(Vec<u8>) -> Result<OUT, extism_convert::Error>>(
        self,
        before: StoreMut<'_>,
        name: Seq<char>,
        decode: D,
        result: Result<OUT, PluginRunError>,
        after: StoreMut<'_>,
    ) -> bool {
        exists|ran: Result<(), RunProblem>, between: StoreMut<'_>| #[trigger]
            self.runs(before, name, ran, between) && match ran {
                Err(problem) => fails(result, problem) && after == between,
                Ok(_) => collects(self.own_kernel(), between, decode, result, after),
            }
    }

    /// What [`Plugin::call_in`] does: the input is put into a new block; where there is a main
    /// module, the kernel is told where, and the function is run.
    pub open spec fn calls_in(
        self,
        before: StoreMut<'_>,
        name: Seq<char>,
        encoded: Result<Seq<u8>, extism_convert::Error>,
        outcome: Result<(), RunProblem>,
        after: StoreMut<'_>,
    ) -> bool {
        if !self.runs_in(before) {
            outcome == Err::<(), RunProblem>(RunProblem::ContextGone) && after == before
        } else {
            exists|kept: Result<MemoryHandle, KernelErrorView>, between: StoreMut<'_>| #[trigger]
                self.own_kernel().keeps(before, encoded, kept, between) && match kept {
                    Err(err) => outcome == Err::<(), RunProblem>(RunProblem::Context(err)) && after
                        == between,
                    Ok(handle) => self.passes_in(between, name, handle, outcome, after),
                }
        }
    }

    /// What [`Plugin::call_in`] does once the input has its block.
    pub open spec fn passes_in(
        self,
        before: StoreMut<'_>,
        name: Seq<char>,
        handle: MemoryHandle,
        outcome: Result<(), RunProblem>,
        after: StoreMut<'_>,
    ) -> bool {
        if !self.parts().instances.contains_key(DEFAULT_MODULE_NAME@) {
            outcome == Err::<(), RunProblem>(RunProblem::NoMainModule) && after == before
        } else {
            exists|told: Result<(), KernelErrorView>, between: StoreMut<'_>| #[trigger]
                self.own_kernel().announces(before, "input_set"@, handle, told, between)
                    && match told {
                    Err(err) => outcome == Err::<(), RunProblem>(RunProblem::Context(err)) && after
                        == between,
                    Ok(_) => self.runs(between, name, outcome, after),
                }
        }
    }

    /// The number of the plugin.
    pub fn id(&self) -> (result: usize)
        ensures
            result == self.number(),
    {
        self.id
    }

    /// The kernel of the plugin.
    pub fn kernel(&self) -> (result: &Kernel)
        ensures
            *result == self.own_kernel(),
    {
        &*self.kernel
    }

    /// Whether the store at hand is the one that the plugin runs in.
    fn is_at_home(&self, store: &mut StoreMut<'_>) -> (result: bool)
        ensures
            result == self.runs_in(*old(store)),
            *final(store) == *old(store),
    {
        let here = current_store(store);
        same_store(self.store, here)
    }

    /// Whether the plugin can be used with the store at hand.
    pub fn context(&self, store: &mut StoreMut<'_>) -> (result: Result<(), ContextGoneError>)
        ensures
            result == if self.runs_in(*old(store)) {
                Ok::<(), ContextGoneError>(())
            } else {
                Err(ContextGoneError::ContextGone)
            },
            *final(store) == *old(store),
    {
        if self.is_at_home(store) {
            Ok(())
        } else {
            Err(ContextGoneError::ContextGone)
        }
    }

    /// Runs a function of the main module.
    fn run(&self, store: &mut StoreMut<'_>, name: &str) -> (result: Result<(), PluginRunError>)
        requires
            self.runs_in(*old(store)),
        ensures
            self.runs(*old(store), name@, run_result(result), *final(store)),
    {
        proof {
            use_type_invariant(self);
        }
        let main = match self.instances.get(DEFAULT_MODULE_NAME) {
            Some(main) => main,
            None => {
                return Err(PluginRunError::NoMainModule);
            },
        };
        let end = call_to_int(store, main, name);
        assert(engine::calls(
            *old(store),
            self.parts().instances[DEFAULT_MODULE_NAME@],
            name@,
            engine::no_args(),
            engine::int_result(),
            engine::int_outcome(end),
            *store,
        ));
        judge(end)
    }

    /// Reads the output of the plugin.
    fn collect<OUT, D: Fn(Vec<u8>) -> Result<OUT, extism_convert::Error>>(
        &self,
        store: &mut StoreMut<'_>,
        decode: &D,
    ) -> (result: Result<OUT, PluginRunError>)
        requires
            forall|bytes: Vec<u8>| #[trigger] call_requires(*decode, (bytes,)),
        ensures
            collects(self.own_kernel(), *old(store), *decode, result, *final(store)),
    {
        let handle = match self.kernel.get_output(store) {
            Ok(handle) => handle,
            Err(err) => {
                return Err(PluginRunError::Context(err));
            },
        };
        let ghost between = *store;
        let value = self.kernel.memory_get(store, handle, decode);
        let ghost seen = value;
        assert(kernel::decoded(self.own_kernel().bytes_at(between, handle), *decode, seen));
        let result = match value {
            Ok(value) => {
                self.kernel.release(store, handle);
                Ok(value)
            },
            Err(err) => Err(PluginRunError::Extism(err)),
        };
        assert(reads_output(self.own_kernel(), between, handle, *decode, result, *store));
        result
    }

    /// Runs a function and reads the output of the plugin.
    fn run_out<OUT, D: Fn(Vec<u8>) -> Result<OUT, extism_convert::Error>>(
        &self,
        store: &mut StoreMut<'_>,
        name: &str,
        decode: &D,
    ) -> (result: Result<OUT, PluginRunError>)
        requires
            self.runs_in(*old(store)),
            forall|bytes: Vec<u8>| #[trigger] call_requires(*decode, (bytes,)),
        ensures
            self.calls_out(*old(store), name@, *decode, result, *final(store)),
    {
        let ran = self.run(store, name);
        assert(self.runs(*old(store), name@, run_result(ran), *store));
        match ran {
            Ok(_) => self.collect(store, decode),
            Err(err) => Err(err),
        }
    }

    /// Calls a function of the plugin with an input, and gives its output. The input comes encoded;
    /// the output is decoded by the given function.
    pub fn call_in_out<OUT, D: Fn(Vec<u8>) -> Result<OUT, extism_convert::Error>>(
        &self,
        store: &mut StoreMut<'_>,
        name: &str,
        encoded: Result<Vec<u8>, extism_convert::Error>,
        decode: &D,
    ) -> (result: Result<OUT, PluginRunError>)
        requires
            forall|bytes: Vec<u8>| #[trigger] call_requires(*decode, (bytes,)),
        ensures
            self.calls_in_out(
                *old(store),
                name@,
                kernel::encoded_bytes(encoded),
                *decode,
                result,
                *final(store),
            ),
    {
        if !self.is_at_home(store) {
            return Err(PluginRunError::ContextGone);
        }
        let handle = match self.kernel.memory_new(store, encoded) {
            Ok(handle) => handle,
            Err(err) => {
                return Err(PluginRunError::Context(err));
            },
        };
        let ghost between = *store;
        let told = self.kernel.set_input(store, handle);
        assert(self.own_kernel().announces(
            between,
            "input_set"@,
            handle,
            errors::kernel_result(told),
            *store,
        ));
        let result = match told {
            Ok(_) => self.run_out(store, name, decode),
            Err(err) => {
                self.kernel.release(store, handle);
                Err(PluginRunError::Context(err))
            },
        };
        assert(self.passes_in_out(between, name@, handle, *decode, result, *store));
        result
    }

    /// Calls a function of the plugin with an input. The input comes encoded.
    pub fn call_in(
        &self,
        store: &mut StoreMut<'_>,
        name: &str,
        encoded: Result<Vec<u8>, extism_convert::Error>,
    ) -> (result: Result<(), PluginRunError>)
        ensures
            self.calls_in(
                *old(store),
                name@,
                kernel::encoded_bytes(encoded),
                run_result(result),
                *final(store),
            ),
    {
        if !self.is_at_home(store) {
            return Err(PluginRunError::ContextGone);
        }
        let kept = self.kernel.memory_new(store, encoded);
        let ghost between = *store;
        assert(self.own_kernel().keeps(
            *old(store),
            kernel::encoded_bytes(encoded),
            errors::kernel_result(kept),
            between,
        ));
        let handle = match kept {
            Ok(handle) => handle,
            Err(err) => {
                return Err(PluginRunError::Context(err));
            },
        };
        if self.instances.get(DEFAULT_MODULE_NAME).is_none() {
            let result = Err(PluginRunError::NoMainModule);
            assert(self.passes_in(between, name@, handle, run_result(result), *store));
            return result;
        }
        let told = self.kernel.set_input(store, handle);
        assert(self.own_kernel().announces(
            between,
            "input_set"@,
            handle,
            errors::kernel_result(told),
            *store,
        ));
        let result = match told {
            Ok(_) => self.run(store, name),
            Err(err) => Err(PluginRunError::Context(err)),
        };
        assert(self.passes_in(between, name@, handle, run_result(result), *store));
        result
    }

    /// Calls a function of the plugin, and gives its output, which is decoded by the given function.
    pub fn call_out<OUT, D: Fn(Vec<u8>) -> Result<OUT, extism_convert::Error>>(
        &self,
        store: &mut StoreMut<'_>,
        name: &str,
        decode: &D,
    ) -> (result: Result<OUT, PluginRunError>)
        requires
            forall|bytes: Vec<u8>| #[trigger] call_requires(*decode, (bytes,)),
        ensures
            if self.runs_in(*old(store)) {
                self.calls_out(*old(store), name@, *decode, result, *final(store))
            } else {
                fails(result, RunProblem::ContextGone) && *final(store) == *old(store)
            },
    {
        if !self.is_at_home(store) {
            return Err(PluginRunError::ContextGone);
        }
        self.run_out(store, name, decode)
    }

    /// Calls a function of the plugin.
    pub fn call(&self, store: &mut StoreMut<'_>, name: &str) -> (result: Result<
        (),
        PluginRunError,
    >)
        ensures
            if self.runs_in(*old(store)) {
                self.runs(*old(store), name@, run_result(result), *final(store))
            } else {
                fails(result, RunProblem::ContextGone) && *final(store) == *old(store)
            },
    {
        if !self.is_at_home(store) {
            return Err(PluginRunError::ContextGone);
        }
        self.run(store, name)
    }
}

/// Starting modules one after the other keeps what runs; all that it starts is isolated; and when it
/// succeeds, all of the modules run.
proof fn all_starting_isolates(
    world: LinkWorld,
    order: Seq<Seq<char>>,
    count: nat,
    before: LinkState<'_>,
    outcome: Result<(), LinkProblem>,
    after: LinkState<'_>,
)
    requires
        count <= order.len(),
        forall|i: int| 0 <= i < order.len() ==> world.modules.contains_key(#[trigger] order[i]),
        load::starts_all(world, order, count, before, outcome, after),
    ensures
        link::grows_isolated(world.modules, before.loaded, after.loaded),
        outcome is Ok ==> forall|i: int|
            0 <= i < count ==> after.loaded.contains_key(
                world.modules[#[trigger] order[i]].name@,
            ),
    decreases count,
{
    if count > 0 {
        let (earlier, between) = choose|earlier: Result<(), LinkProblem>, between: LinkState<'_>|
         #[trigger]
            load::arrives(earlier, between) && load::starts_all(
                world,
                order,
                (count - 1) as nat,
                before,
                earlier,
                between,
            ) && match earlier {
                Err(problem) => outcome == Err::<(), LinkProblem>(problem) && after == between,
                Ok(_) => link::starts(
                    link::depth_below(world.modules, Seq::empty()),
                    world,
                    between,
                    world.modules[order[count - 1]],
                    Seq::empty(),
                    outcome,
                    after,
                ),
            };
        all_starting_isolates(world, order, (count - 1) as nat, before, earlier, between);
        if earlier is Ok {
            let module = world.modules[order[count - 1]];
            assert(world.modules.contains_key(order[count - 1]));
            assert(link::is_module(world.modules, module));
            link::starting_isolates(
                link::depth_below(world.modules, Seq::empty()),
                world,
                between,
                module,
                Seq::empty(),
                outcome,
                after,
            );
            lemma_submap_of_trans(before.loaded, between.loaded, after.loaded);
            assert forall|name: Seq<char>| #[trigger] after.loaded.contains_key(name) implies
                before.loaded.contains_key(name) || link::names_isolated(world.modules, name) by {
                assert(between.loaded.contains_key(name) || link::names_isolated(
                    world.modules,
                    name,
                ));
            }
            if outcome is Ok {
                assert forall|i: int| 0 <= i < count implies after.loaded.contains_key(
                    world.modules[#[trigger] order[i]].name@,
                ) by {
                    if i < count - 1 {
                        assert(between.loaded.contains_key(world.modules[order[i]].name@));
                    }
                }
            }
        }
    }
}

/// The parts that a plugin is made of when it has been loaded.
proof fn loaded_parts<
    'a,
    ID,
    L: Fn(&ID, HostEvent),
    S: Fn(Vec<u8>, Vec<u8>) -> Result<HttpAnswer, ()>,
>(
    before: StoreMut<'a>,
    runtime: Module,
    id: ID,
    input: PluginInput,
    exports: Seq<HostExport>,
    emit: L,
    send: S,
    parts: PluginParts,
    after: StoreMut<'a>,
) -> (witness: (HostView, StoreMut<'a>, StoreMut<'a>, LinkWorld, Seq<Seq<char>>))
    requires
        load::sets_up(before, runtime, id, input, exports, emit, send, Ok(parts), after),
    ensures
        load::provides(witness.1, witness.0, exports, Ok(witness.3.external), witness.2),
        witness.0.kernel == parts.kernel,
        parts.kernel.is_own(),
        witness.0 == load::first_view(&witness.0.kernel, load::config_in(input), id, emit, send),
        witness.3.modules == parts.modules,
        load::reads(witness.1, input, Ok(parts.modules)),
        load::is_order(parts.modules, witness.4),
        load::starts_all(
            witness.3,
            witness.4,
            witness.4.len(),
            LinkState { store: witness.2, loaded: Map::empty() },
            Ok(()),
            LinkState { store: after, loaded: parts.instances },
        ),
{
    let (started, between) = choose|started: Result<Instance, LinkProblem>, between: StoreMut<'_>|
     #[trigger]
        kernel::kernel_starts(before, runtime, started, between) && match started {
            Err(problem) => false,
            Ok(instance) => load::sets_up_on(
                between,
                instance,
                id,
                input,
                exports,
                emit,
                send,
                Ok(parts),
                after,
            ),
        };
    let instance = started->Ok_0;
    let modules = choose|modules: Result<Map<Seq<char>, NamedModule>, CompileError>| #[trigger]
        load::reads(between, input, modules) && match modules {
            Err(err) => false,
            Ok(modules) => load::joins(
                between,
                instance,
                id,
                input,
                modules,
                exports,
                emit,
                send,
                Ok(parts),
                after,
            ),
        };
    let view = choose|view: HostView| #[trigger]
        load::assembles(between, view, modules->Ok_0, exports, Ok(parts), after)
            && view.kernel.instance() == instance && view.kernel.is_own() && view == load::first_view(
            &view.kernel,
            load::config_in(input),
            id,
            emit,
            send,
        );
    let (provided, linked) = choose|
        provided: Result<Map<(Seq<char>, Seq<char>), Extern>, ExportErrorView>,
        linked: StoreMut<'_>,
    | #[trigger]
        load::provides(between, view, exports, provided, linked) && match provided {
            Err(problem) => false,
            Ok(external) => load::runs_modules(
                linked,
                view.kernel,
                LinkWorld { modules: modules->Ok_0, external },
                Ok(parts),
                after,
            ),
        };
    let world = LinkWorld { modules: modules->Ok_0, external: provided->Ok_0 };
    let (order, ended, instances) = choose|
        order: Seq<Seq<char>>,
        ended: Result<(), LinkProblem>,
        instances: Map<Seq<char>, Instance>,
    |
        load::is_order(world.modules, order) && #[trigger] load::starts_all(
            world,
            order,
            order.len(),
            LinkState { store: linked, loaded: Map::empty() },
            ended,
            LinkState { store: after, loaded: instances },
        ) && Ok::<PluginParts, LoadProblem>(parts) == load::load_result(
            ended,
            PluginParts { kernel: view.kernel, modules: world.modules, instances },
        );
    (view, between, linked, world, order)
}

/// In a plugin that has been loaded every module runs, under the name that it bears; and all that
/// runs are modules of the plugin that have no reach into the memory of the kernel or of each other.
pub proof fn loaded_plugins_are_isolated<
    ID,
    L: Fn(&ID, HostEvent),
    S: Fn(Vec<u8>, Vec<u8>) -> Result<HttpAnswer, ()>,
>(
    before: StoreMut<'_>,
    runtime: Module,
    id: ID,
    input: PluginInput,
    exports: Seq<HostExport>,
    emit: L,
    send: S,
    parts: PluginParts,
    after: StoreMut<'_>,
)
    requires
        load::sets_up(before, runtime, id, input, exports, emit, send, Ok(parts), after),
    ensures
        forall|key: Seq<char>| #[trigger]
            parts.modules.contains_key(key) ==> parts.instances.contains_key(
                parts.modules[key].name@,
            ),
        forall|name: Seq<char>| #[trigger]
            parts.instances.contains_key(name) ==> link::names_isolated(parts.modules, name),
{
    let (view, between, linked, world, order) = loaded_parts(
        before,
        runtime,
        id,
        input,
        exports,
        emit,
        send,
        parts,
        after,
    );
    assert forall|i: int| 0 <= i < order.len() implies world.modules.contains_key(
        #[trigger] order[i],
    ) by {
        assert(order.to_set().contains(order[i]));
    }
    all_starting_isolates(
        world,
        order,
        order.len(),
        LinkState { store: linked, loaded: Map::empty() },
        Ok(()),
        LinkState { store: after, loaded: parts.instances },
    );
    assert forall|key: Seq<char>| #[trigger] parts.modules.contains_key(key) implies
        parts.instances.contains_key(parts.modules[key].name@) by {
        assert(order.to_set().contains(key));
        let i = order.index_of(key);
        assert(order[i] == key);
    }
}

/// Starting all modules fails when some of them wait for one another in a circle.
pub proof fn circular_modules_never_all_start(
    world: LinkWorld,
    circle: Set<Seq<char>>,
    order: Seq<Seq<char>>,
    count: nat,
    before: LinkState<'_>,
    outcome: Result<(), LinkProblem>,
    after: LinkState<'_>,
)
    requires
        count <= order.len(),
        forall|i: int| 0 <= i < order.len() ==> world.modules.contains_key(#[trigger] order[i]),
        link::is_circle(world, circle),
        link::is_clear_of(world, circle, before.loaded),
        load::starts_all(world, order, count, before, outcome, after),
    ensures
        link::is_clear_of(world, circle, after.loaded),
        (exists|i: int| 0 <= i < count && circle.contains(#[trigger] order[i])) ==> outcome is Err,
    decreases count,
{
    if count > 0 {
        let (earlier, between) = choose|earlier: Result<(), LinkProblem>, between: LinkState<'_>|
         #[trigger]
            load::arrives(earlier, between) && load::starts_all(
                world,
                order,
                (count - 1) as nat,
                before,
                earlier,
                between,
            ) && match earlier {
                Err(problem) => outcome == Err::<(), LinkProblem>(problem) && after == between,
                Ok(_) => link::starts(
                    link::depth_below(world.modules, Seq::empty()),
                    world,
                    between,
                    world.modules[order[count - 1]],
                    Seq::empty(),
                    outcome,
                    after,
                ),
            };
        circular_modules_never_all_start(
            world,
            circle,
            order,
            (count - 1) as nat,
            before,
            earlier,
            between,
        );
        if earlier is Ok {
            assert(world.modules.contains_key(order[count - 1]));
            link::circles_never_start(
                link::depth_below(world.modules, Seq::empty()),
                world,
                circle,
                between,
                order[count - 1],
                Seq::empty(),
                outcome,
                after,
            );
        }
    }
}

/// What is exported is in the namespace of some export.
proof fn exported_from(
    exports: Seq<HostExport>,
    built: Seq<Extern>,
    key: (Seq<char>, Seq<char>),
) -> (i: int)
    requires
        load::exported(exports, built).contains_key(key),
    ensures
        0 <= i < exports.len(),
        exports[i].space() == key.0,
    decreases exports.len(),
{
    if key == (exports.last().space(), exports.last().name@) {
        exports.len() - 1
    } else {
        exported_from(exports.drop_last(), built.drop_last(), key)
    }
}

/// Whether modules wait for one another in a circle when nothing else is there to link them with.
pub open spec fn is_circle_among(
    modules: Map<Seq<char>, NamedModule>,
    circle: Set<Seq<char>>,
) -> bool {
    link::is_circle(LinkWorld { modules, external: engine::no_definitions() }, circle)
}

/// A plugin is not loaded when some of its modules wait for one another in a circle. (What they are
/// looked up by is to be no namespace in which the embedding program or the kernel exports
/// something, which would be taken instead.)
pub proof fn circular_plugins_never_load<
    ID,
    L: Fn(&ID, HostEvent),
    S: Fn(Vec<u8>, Vec<u8>) -> Result<HttpAnswer, ()>,
>(
    before: StoreMut<'_>,
    runtime: Module,
    id: ID,
    input: PluginInput,
    exports: Seq<HostExport>,
    emit: L,
    send: S,
    parts: PluginParts,
    after: StoreMut<'_>,
    circle: Set<Seq<char>>,
    member: Seq<char>,
)
    requires
        load::sets_up(before, runtime, id, input, exports, emit, send, Ok(parts), after),
        circle.contains(member),
        !circle.contains(EXTISM_ENV_MODULE@),
        forall|i: int|
            0 <= i < exports.len() ==> !circle.contains((#[trigger] exports[i]).space()),
    ensures
        !is_circle_among(parts.modules, circle),
{
    let (view, between, linked, world, order) = loaded_parts(
        before,
        runtime,
        id,
        input,
        exports,
        emit,
        send,
        parts,
        after,
    );
    let alone = LinkWorld { modules: parts.modules, external: engine::no_definitions() };
    assert forall|i: int| 0 <= i < order.len() implies world.modules.contains_key(
        #[trigger] order[i],
    ) by {
        assert(order.to_set().contains(order[i]));
    }
    if link::is_circle(alone, circle) {
        let (built, offered) = choose|built: Seq<Extern>, offered: Map<Seq<char>, Extern>|
            #![trigger load::are_built(linked, view.kernel, exports, built), env::are_offered(linked, view, offered)]
            {
                &&& load::are_built(linked, view.kernel, exports, built)
                &&& env::are_offered(linked, view, offered)
                &&& world.external == load::with_offered(load::exported(exports, built), offered)
            };
        assert forall|import: ImportView| link::waits_on(
            alone,
            circle,
            import,
        ) implies #[trigger] link::waits_on(world, circle, import) by {
            let key = engine::import_key(import);
            if world.external.contains_key(key) {
                let i = exported_from(exports, built, key);
                assert(!circle.contains(exports[i].space()));
            }
        }
        assert forall|key: Seq<char>| #[trigger] circle.contains(key) implies link::waits(
            world,
            circle,
            world.modules[key],
        ) by {
            let imports = engine::module_imports(world.modules[key].module);
            assert(link::waits(alone, circle, alone.modules[key]));
            let i = choose|i: int|
                0 <= i < imports.len() && link::waits_on(alone, circle, #[trigger] imports[i]);
            assert(link::waits_on(world, circle, imports[i]));
        }
        assert forall|name: Seq<char>| #[trigger] link::belongs(
            world,
            circle,
            name,
        ) == link::belongs(alone, circle, name) by {}
        assert(link::is_circle(world, circle));
        assert(world.modules.contains_key(member));
        assert(order.to_set().contains(member));
        let i = order.index_of(member);
        assert(order[i] == member);
        circular_modules_never_all_start(
            world,
            circle,
            order,
            order.len(),
            LinkState { store: linked, loaded: Map::empty() },
            Ok(()),
            LinkState { store: after, loaded: parts.instances },
        );
    }
}

/// What the kernel exports is what modules find in its namespace, whatever else is exported there.
pub proof fn kernel_exports_come_first(
    store: StoreMut<'_>,
    view: HostView,
    exports: Seq<HostExport>,
    external: Map<(Seq<char>, Seq<char>), Extern>,
    name: Seq<char>,
)
    requires
        load::is_provided(store, view, exports, external),
        engine::instance_exports(view.kernel.instance()).contains_key(name),
    ensures
        external.contains_key((EXTISM_ENV_MODULE@, name)),
        external[(EXTISM_ENV_MODULE@, name)] == engine::instance_exports(
            view.kernel.instance(),
        )[name],
{
    let (built, offered) = choose|built: Seq<Extern>, offered: Map<Seq<char>, Extern>|
        #![trigger load::are_built(store, view.kernel, exports, built), env::are_offered(store, view, offered)]
        {
            &&& load::are_built(store, view.kernel, exports, built)
            &&& env::are_offered(store, view, offered)
            &&& external == load::with_offered(load::exported(exports, built), offered)
        };
    let shared = choose|shared: FunctionEnv<Box<dyn GuestHost>>| #[trigger]
        env::starts_with(shared, view) && forall|text: Seq<char>| #[trigger]
            env::is_offered(store, view.kernel.instance(), shared, offered, text);
    assert(env::is_offered(store, view.kernel.instance(), shared, offered, name));
}

/// A module that imports a function of the host by its name and with its type gets it, in every state
/// of linking, unless the kernel exports something else under that name.
pub proof fn host_functions_are_linked(
    depth: nat,
    modules: Map<Seq<char>, NamedModule>,
    provided_in: StoreMut<'_>,
    view: HostView,
    exports: Seq<HostExport>,
    external: Map<(Seq<char>, Seq<char>), Extern>,
    before: LinkState<'_>,
    tree: Seq<Seq<char>>,
    import: ImportView,
    function: HostFunction,
    defined: Map<(Seq<char>, Seq<char>), Extern>,
    outcome: link::Definitions,
    after: LinkState<'_>,
)
    requires
        load::is_provided(provided_in, view, exports, external),
        engine::continues(provided_in, before.store),
        import.module == EXTISM_ENV_MODULE@,
        !engine::instance_exports(view.kernel.instance()).contains_key(import.name),
        env::function_named(import.name) == Some(function),
        import.shape == env::host_type(function),
        link::resolves(
            depth,
            LinkWorld { modules, external },
            before,
            tree,
            import,
            defined,
            outcome,
            after,
        ),
    ensures
        after == before,
        external.contains_key(engine::import_key(import)),
        env::host_function(external[engine::import_key(import)]) == function,
        outcome == link::Definitions::Ok(
            defined.insert(
                engine::import_key(import),
                external[engine::import_key(import)],
            ),
        ),
{
    let (built, offered) = choose|built: Seq<Extern>, offered: Map<Seq<char>, Extern>|
        #![trigger load::are_built(provided_in, view.kernel, exports, built), env::are_offered(provided_in, view, offered)]
        {
            &&& load::are_built(provided_in, view.kernel, exports, built)
            &&& env::are_offered(provided_in, view, offered)
            &&& external == load::with_offered(load::exported(exports, built), offered)
        };
    let shared = choose|shared: FunctionEnv<Box<dyn GuestHost>>| #[trigger]
        env::starts_with(shared, view) && forall|name: Seq<char>| #[trigger]
            env::is_offered(provided_in, view.kernel.instance(), shared, offered, name);
    assert(env::is_offered(provided_in, view.kernel.instance(), shared, offered, import.name));
    assert(external.contains_key(engine::import_key(import)));
    assert(engine::extern_type(provided_in, offered[import.name]) is Function);
}

/// A function of a plugin has an output only if it returned 0.
pub proof fn outputs_need_success<OUT, D: Fn(Vec<u8>) -> Result<OUT, extism_convert::Error>>(
    plugin: Plugin,
    before: StoreMut<'_>,
    name: Seq<char>,
    decode: D,
    value: OUT,
    after: StoreMut<'_>,
)
    requires
        plugin.calls_out(before, name, decode, Ok(value), after),
    ensures
        plugin.parts().instances.contains_key(DEFAULT_MODULE_NAME@),
        exists|values: Seq<int>, between: StoreMut<'_>|
            values[0] == 0 && #[trigger] engine::calls(
                before,
                plugin.parts().instances[DEFAULT_MODULE_NAME@],
                name,
                engine::no_args(),
                engine::int_result(),
                CallOutcome::Returned(values),
                between,
            ),
{
    let (ran, between) = choose|ran: Result<(), RunProblem>, between: StoreMut<'_>| #[trigger]
        plugin.runs(before, name, ran, between) && match ran {
            Err(problem) => false,
            Ok(_) => collects(plugin.own_kernel(), between, decode, Ok(value), after),
        };
    let end = choose|end: CallOutcome| #[trigger]
        engine::calls(
            before,
            plugin.parts().instances[DEFAULT_MODULE_NAME@],
            name,
            engine::no_args(),
            engine::int_result(),
            end,
            between,
        ) && ran == run_outcome(end);
    let values = end->Returned_0;
    assert(engine::calls(
        before,
        plugin.parts().instances[DEFAULT_MODULE_NAME@],
        name,
        engine::no_args(),
        engine::int_result(),
        CallOutcome::Returned(values),
        between,
    ));
}

/// When a call with an input gives an output, the kernel has been told of a block, and the block held
/// the input.
pub proof fn inputs_are_in_place<OUT, D: Fn(Vec<u8>) -> Result<OUT, extism_convert::Error>>(
    plugin: Plugin,
    before: StoreMut<'_>,
    name: Seq<char>,
    data: Seq<u8>,
    decode: D,
    value: OUT,
    after: StoreMut<'_>,
)
    requires
        data.len() <= u64::MAX,
        engine::memory_export(plugin.own_kernel().instance(), "memory"@) is Ok,
        plugin.calls_in_out(before, name, Ok(data), decode, Ok(value), after),
    ensures
        exists|handle: MemoryHandle, ready: StoreMut<'_>, told: StoreMut<'_>|
            {
                &&& plugin.own_kernel().bytes_at(ready, handle) == Ok::<Seq<u8>, KernelErrorView>(
                    data,
                )
                &&& #[trigger] plugin.own_kernel().announces(
                    ready,
                    "input_set"@,
                    handle,
                    Ok(()),
                    told,
                )
                &&& plugin.calls_out(told, name, decode, Ok(value), after)
            },
{
    let (kept, ready) = choose|kept: Result<MemoryHandle, KernelErrorView>, ready: StoreMut<'_>|
     #[trigger]
        plugin.own_kernel().keeps(before, Ok(data), kept, ready) && match kept {
            Err(err) => false,
            Ok(handle) => plugin.passes_in_out(ready, name, handle, decode, Ok(value), after),
        };
    let handle = kept->Ok_0;
    kernel::kept_bytes_are_read_back(plugin.own_kernel(), before, data, handle, ready);
    let (said, told) = choose|said: Result<(), KernelErrorView>, told: StoreMut<'_>| #[trigger]
        plugin.own_kernel().announces(ready, "input_set"@, handle, said, told) && match said {
            Err(err) => false,
            Ok(_) => plugin.calls_out(told, name, decode, Ok(value), after),
        };
    assert(plugin.own_kernel().announces(ready, "input_set"@, handle, Ok(()), told));
}

} // verus!
