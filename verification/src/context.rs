//! What plugins run in.
use crate::engine::{self, compile, default_store, open};
use vstd::prelude::*;
use wasmer::{CompileError, Module, Store, StoreMut};

verus! {

/// A store that plugins run in, and the module that their kernels are made from.
#[derive(Debug)]
pub struct Context {
    store: Store,
    runtime: Module,
}

/// Whether compiling the module that kernels are made from, for a store, may end in `outcome`.
pub open spec fn runtime_outcome(
    store: Store,
    data: Seq<u8>,
    outcome: Result<Module, CompileError>,
) -> bool {
    exists|opened: StoreMut<'_>| #[trigger]
        engine::compilation(opened, data, outcome) && engine::is_open(store, opened)
}

impl Context {
    /// The store that plugins run in.
    pub closed spec fn own_store(self) -> Store {
        self.store
    }

    /// The module that kernels are made from.
    pub closed spec fn own_runtime(self) -> Module {
        self.runtime
    }

    /// Whether kernels can be made from the module in the store.
    pub open spec fn is_ready(self) -> bool {
        &&& engine::stays_steady(self.own_store())
        &&& forall|limits: engine::MemoryLimits| #[trigger]
            engine::module_style(self.own_runtime(), limits) == engine::held_style(
                self.own_store(),
                limits,
            )
    }

    /// A context with a store, and a module that kernels are made from, in its binary or its text
    /// format.
    pub fn new(store: Store, data: &[u8]) -> (result: Result<Self, CompileError>)
        requires
            engine::stays_steady(store),
        ensures
            match result {
                Ok(context) => {
                    &&& context.is_ready()
                    &&& engine::is_still(store, context.own_store())
                    &&& runtime_outcome(store, data@, Ok(context.own_runtime()))
                },
                Err(err) => runtime_outcome(store, data@, Err(err)),
            },
    {
        let ghost given = store;
        let mut store = store;
        let opened = open(&mut store);
        let compiled = compile(&opened, data);
        assert(engine::is_open(given, opened));
        assert(engine::compilation(opened, data@, compiled));
        assert(runtime_outcome(given, data@, compiled));
        match compiled {
            Ok(runtime) => Ok(Context { store, runtime }),
            Err(err) => Err(err),
        }
    }

    /// The store that plugins run in.
    pub fn store(&mut self) -> (result: StoreMut<'_>)
        ensures
            engine::is_open(old(self).own_store(), result),
            engine::is_still(old(self).own_store(), final(self).own_store()),
            final(self).own_runtime() == old(self).own_runtime(),
    {
        open(&mut self.store)
    }

    /// The store that plugins run in, and the module that their kernels are made from.
    pub fn store_and_runtime(&mut self) -> (result: (StoreMut<'_>, &Module))
        ensures
            engine::is_open(old(self).own_store(), result.0),
            *result.1 == old(self).own_runtime(),
            old(self).is_ready() ==> engine::is_compiled_for(result.0, *result.1),
            engine::is_still(old(self).own_store(), final(self).own_store()),
            final(self).own_runtime() == old(self).own_runtime(),
    {
        (open(&mut self.store), &self.runtime)
    }
}

/// A context stays ready, whatever is done with its store.
pub proof fn contexts_stay_ready(before: Context, after: Context)
    requires
        before.is_ready(),
        engine::is_still(before.own_store(), after.own_store()),
        after.own_runtime() == before.own_runtime(),
    ensures
        after.is_ready(),
{
}

/// A store for a context.
pub fn new_store() -> (result: Store)
    ensures
        engine::stays_steady(result),
{
    default_store()
}

/// Compiles the module that kernels are made from.
pub fn compile_runtime(store: &StoreMut<'_>, data: &[u8]) -> (result: Result<Module, CompileError>)
    ensures
        engine::compilation(*store, data@, result),
        engine::is_steady(*store) ==> (result matches Ok(module) ==> engine::is_compiled_for(
            *store,
            module,
        )),
{
    compile(store, data)
}

} // verus!
