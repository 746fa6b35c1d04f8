//! Linking: the modules of a plugin are started in the order of their dependencies.
use crate::engine::{
    self, copy_extern, define_import, exported_extern, imports_in, is_function, memory_limits,
    memory_to_extern, new_imports, new_instance, new_memory, same_limits, type_of,
    types_compatible, ExportError, ExportErrorView, ExternShape, ImportSpec, ImportView,
};
use crate::errors::{self, LinkProblem, PluginInstantiationError};
use crate::names::NameMap;
use crate::EXTISM_ENV_MODULE;
use vstd::map_lib::*;
use vstd::prelude::*;
use vstd::set_lib::*;
use wasmer::{Extern, Imports, Instance, Memory, MemoryError, Module, StoreMut};
use wasmer_types::StoreId;

verus! {

/// A module and the name that it bears.
#[derive(Debug)]
pub struct NamedModule {
    pub name: String,
    pub module: Module,
}

/// Externs by namespace and name.
#[derive(Debug)]
pub struct ExternMap {
    entries: Vec<(String, String, Extern)>,
}

/// What a list of externs holds: the last of those that have the same namespace and name.
spec fn last_entries(entries: Seq<(String, String, Extern)>) -> Map<(Seq<char>, Seq<char>), Extern>
    decreases entries.len(),
{
    if entries.len() == 0 {
        engine::no_definitions()
    } else {
        let (namespace, name, external) = entries.last();
        last_entries(entries.drop_last()).insert((namespace@, name@), external)
    }
}

impl View for ExternMap {
    type V = Map<(Seq<char>, Seq<char>), Extern>;

    closed spec fn view(&self) -> Map<(Seq<char>, Seq<char>), Extern> {
        last_entries(self.entries@)
    }
}

impl ExternMap {
    /// No externs.
    pub fn new() -> (result: Self)
        ensures
            result@ == engine::no_definitions(),
    {
        ExternMap { entries: Vec::new() }
    }

    /// Adds an extern, in place of the former one of the same namespace and name.
    pub fn insert(&mut self, namespace: String, name: String, external: Extern)
        ensures
            final(self)@ == old(self)@.insert((namespace@, name@), external),
    {
        let ghost before = self.entries@;
        self.entries.push((namespace, name, external));
        assert(self.entries@.drop_last() =~= before);
    }

    /// The extern of a namespace and a name.
    pub fn get(&self, namespace: &str, name: &str) -> (result: Option<&Extern>)
        ensures
            match self@.get((namespace@, name@)) {
                Some(external) => result matches Some(found) && *found == external,
                None => result is None,
            },
    {
        let wanted_namespace = namespace.to_owned();
        let wanted_name = name.to_owned();
        let mut left: usize = self.entries.len();
        assert(self.entries@.take(left as int) =~= self.entries@);
        while left > 0
            invariant
                left <= self.entries@.len(),
                wanted_namespace@ == namespace@,
                wanted_name@ == name@,
                last_entries(self.entries@).get((namespace@, name@)) == last_entries(
                    self.entries@.take(left as int),
                ).get((namespace@, name@)),
            decreases left,
        {
            let ghost rest = self.entries@.take(left as int);
            assert(rest.drop_last() =~= self.entries@.take(left - 1));
            left = left - 1;
            if self.entries[left].0 == wanted_namespace && self.entries[left].1 == wanted_name {
                return Some(&self.entries[left].2);
            }
        }
        None
    }
}

/// How far linking has come: the state of the store, and the modules that have been started, by
/// their names.
pub struct LinkState<'a> {
    pub store: StoreMut<'a>,
    pub loaded: Map<Seq<char>, Instance>,
}

/// What the modules of a plugin are linked against: the modules themselves, by the names that they
/// are looked up by, and what the host provides.
pub struct LinkWorld {
    pub modules: Map<Seq<char>, NamedModule>,
    pub external: Map<(Seq<char>, Seq<char>), Extern>,
}

/// What an import is linked against so far, or what went wrong.
pub type Definitions = Result<Map<(Seq<char>, Seq<char>), Extern>, LinkProblem>;

/// The namespace of memories that the host makes.
pub const MEMORY_MODULE: &'static str = "env";

/// The definitions with one more, if its type fits the import.
pub open spec fn with_fitting(
    store: StoreMut<'_>,
    external: Extern,
    import: ImportView,
    defined: Map<(Seq<char>, Seq<char>), Extern>,
) -> Definitions {
    if engine::compatible(engine::extern_type(store, external), import.shape) {
        Ok(defined.insert(engine::import_key(import), external))
    } else {
        Err(LinkProblem::IncompatibleType(import.module, import.name))
    }
}

/// The definitions with what a started module exports for the import.
pub open spec fn with_export(
    store: StoreMut<'_>,
    instance: Instance,
    import: ImportView,
    defined: Map<(Seq<char>, Seq<char>), Extern>,
) -> Definitions {
    match engine::instance_exports(instance).get(import.name) {
        Some(external) => with_fitting(store, external, import, defined),
        None => Err(LinkProblem::MissingExport(import.module, import.name)),
    }
}

/// A point that linking passes through: what has been defined there, and the state. Any may be.
pub open spec fn passes(defined: Definitions, state: LinkState<'_>) -> bool {
    true
}

/// An end that starting a module comes to. Any may be.
pub open spec fn ends(outcome: Result<(), LinkProblem>) -> bool {
    true
}

/// What starting a module does. `tree` holds the names of the modules that wait for it, the
/// outermost first; dependencies are at most `depth` deep.
pub open spec fn starts(
    depth: nat,
    world: LinkWorld,
    before: LinkState<'_>,
    module: NamedModule,
    tree: Seq<Seq<char>>,
    outcome: Result<(), LinkProblem>,
    after: LinkState<'_>,
) -> bool
    decreases depth, 2nat, 0nat,
{
    if before.loaded.contains_key(module.name@) {
        outcome == Ok::<(), LinkProblem>(()) && after == before
    } else if tree.contains(module.name@) {
        outcome == Err::<(), LinkProblem>(LinkProblem::CyclicDependency) && after == before
    } else {
        exists|defined: Definitions, between: LinkState<'_>| #[trigger]
            passes(defined, between) && links(
                depth,
                world,
                before,
                module,
                tree,
                engine::module_imports(module.module).len(),
                defined,
                between,
            ) && match defined {
                Err(problem) => outcome == Err::<(), LinkProblem>(problem) && after == between,
                Ok(imports) => runs(between, module, imports, outcome, after),
            }
    }
}

/// What instantiating a module does once its imports are defined.
pub open spec fn runs(
    before: LinkState<'_>,
    module: NamedModule,
    imports: Map<(Seq<char>, Seq<char>), Extern>,
    outcome: Result<(), LinkProblem>,
    after: LinkState<'_>,
) -> bool {
    exists|started: Result<Instance, wasmer::InstantiationError>| #[trigger]
        engine::instantiation(before.store, module.module, imports, started, after.store)
            && match started {
            Ok(instance) => {
                &&& outcome == Ok::<(), LinkProblem>(())
                &&& after.loaded == before.loaded.insert(module.name@, instance)
                &&& engine::all_defined(engine::module_imports(module.module), imports)
            },
            Err(err) => {
                &&& outcome == Err::<(), LinkProblem>(LinkProblem::Wasmer(err))
                &&& after.loaded == before.loaded
            },
        }
}

/// What defining the first `count` imports of a module does, one after the other.
pub open spec fn links(
    depth: nat,
    world: LinkWorld,
    before: LinkState<'_>,
    module: NamedModule,
    tree: Seq<Seq<char>>,
    count: nat,
    outcome: Definitions,
    after: LinkState<'_>,
) -> bool
    decreases depth, 1nat, count,
{
    if count == 0 {
        outcome == Definitions::Ok(engine::no_definitions()) && after == before
    } else {
        exists|defined: Definitions, between: LinkState<'_>| #[trigger]
            passes(defined, between) && links(
                depth,
                world,
                before,
                module,
                tree,
                (count - 1) as nat,
                defined,
                between,
            ) && match defined {
                Err(problem) => outcome == Definitions::Err(problem) && after == between,
                Ok(defined) => if clashes(engine::module_imports(module.module), count - 1) {
                    outcome == clash(engine::module_imports(module.module)[count - 1]) && after
                        == between
                } else {
                    resolves(
                        depth,
                        world,
                        between,
                        tree.push(module.name@),
                        engine::module_imports(module.module)[count - 1],
                        defined,
                        outcome,
                        after,
                    )
                },
            }
    }
}

/// Whether an import asks for a memory that an earlier import asks for with other limits. One memory
/// cannot be made for both.
pub open spec fn clashes(imports: Seq<ImportView>, i: int) -> bool {
    exists|j: int|
        0 <= j < i && imports[i].shape is Memory && (#[trigger] imports[j]).shape is Memory
            && engine::import_key(imports[j]) == engine::import_key(imports[i])
            && imports[j].shape != imports[i].shape
}

/// What defining an import that clashes with an earlier one gives.
pub open spec fn clash(import: ImportView) -> Definitions {
    Err(LinkProblem::IncompatibleType(import.module, import.name))
}

/// What defining one import does. Of the kernel, modules get functions only. A memory is made where
/// the namespace is that of memories, and is had from nowhere else. Then what the host provides
/// comes first, and then what the module of that name exports, which is started if need be.
pub open spec fn resolves(
    depth: nat,
    world: LinkWorld,
    before: LinkState<'_>,
    tree: Seq<Seq<char>>,
    import: ImportView,
    defined: Map<(Seq<char>, Seq<char>), Extern>,
    outcome: Definitions,
    after: LinkState<'_>,
) -> bool
    decreases depth, 0nat, 0nat,
{
    if import.module == EXTISM_ENV_MODULE@ && import.shape !is Function {
        outcome == Definitions::Err(LinkProblem::NonFunctionKernelAccess) && after == before
    } else if import.shape is Memory {
        if import.module == MEMORY_MODULE@ {
            makes_memory(before, import, defined, outcome, after)
        } else {
            &&& outcome == Definitions::Err(
                LinkProblem::MissingExport(import.module, import.name),
            )
            &&& after == before
        }
    } else if world.external.contains_key(engine::import_key(import)) {
        &&& outcome == with_fitting(
            before.store,
            world.external[engine::import_key(import)],
            import,
            defined,
        )
        &&& after == before
    } else if before.loaded.contains_key(import.module) {
        &&& outcome == with_export(
            before.store,
            before.loaded[import.module],
            import,
            defined,
        )
        &&& after == before
    } else if !world.modules.contains_key(import.module) {
        &&& outcome == Definitions::Err(
            LinkProblem::Export(ExportErrorView::Missing(import.module)),
        )
        &&& after == before
    } else {
        depth > 0 && exists|started: Result<(), LinkProblem>| #[trigger]
            ends(started) && starts(
                (depth - 1) as nat,
                world,
                before,
                world.modules[import.module],
                tree,
                started,
                after,
            ) && outcome == match started {
                Err(problem) => Err(problem),
                Ok(_) => if after.loaded.contains_key(import.module) {
                    with_export(after.store, after.loaded[import.module], import, defined)
                } else {
                    Ok(defined)
                },
            }
    }
}

/// What making a memory for an import does.
pub open spec fn makes_memory(
    before: LinkState<'_>,
    import: ImportView,
    defined: Map<(Seq<char>, Seq<char>), Extern>,
    outcome: Definitions,
    after: LinkState<'_>,
) -> bool {
    &&& after.loaded == before.loaded
    &&& exists|made: Result<Memory, MemoryError>| #[trigger]
        engine::memory_creation(before.store, import.shape->Memory_0, made, after.store) && outcome
            == match made {
            Ok(memory) => Ok(
                defined.insert(engine::import_key(import), engine::memory_as_extern(memory)),
            ),
            Err(err) => Err(LinkProblem::Memory(err)),
        }
}

/// Whether a module is one of those of a plugin.
pub open spec fn is_module(modules: Map<Seq<char>, NamedModule>, module: NamedModule) -> bool {
    exists|key: Seq<char>| #[trigger] modules.contains_key(key) && modules[key] == module
}

/// Whether a name is borne by a module of a plugin.
pub open spec fn is_borne(modules: Map<Seq<char>, NamedModule>, name: Seq<char>) -> bool {
    exists|key: Seq<char>| #[trigger] modules.contains_key(key) && modules[key].name@ == name
}

/// Whether modules may wait for one another in this order: they are modules of the plugin, each of
/// them once.
pub open spec fn waiting(modules: Map<Seq<char>, NamedModule>, tree: Seq<Seq<char>>) -> bool {
    &&& tree.no_duplicates()
    &&& forall|i: int| 0 <= i < tree.len() ==> is_borne(modules, #[trigger] tree[i])
}

/// How deep dependencies can still go below modules that wait.
pub open spec fn depth_below(modules: Map<Seq<char>, NamedModule>, tree: Seq<Seq<char>>) -> nat {
    (modules.len() - tree.len()) as nat
}

/// Whether all started modules run in one store.
pub open spec fn run_in(loaded: Map<Seq<char>, Instance>, home: StoreId) -> bool {
    forall|name: Seq<char>| #[trigger]
        loaded.contains_key(name) ==> engine::instance_store(loaded[name]) == home
}

/// Whether all modules expect memories to be laid out as they are in a store.
pub open spec fn are_compiled_for(
    store: StoreMut<'_>,
    modules: Map<Seq<char>, NamedModule>,
) -> bool {
    forall|key: Seq<char>| #[trigger]
        modules.contains_key(key) ==> engine::is_compiled_for(store, modules[key].module)
}

/// Whether all externs belong to one store.
pub open spec fn belong_to(external: Map<(Seq<char>, Seq<char>), Extern>, home: StoreId) -> bool {
    forall|key: (Seq<char>, Seq<char>)| #[trigger]
        external.contains_key(key) ==> engine::extern_store(external[key]) == home
}

/// Strings as the texts that they hold.
pub open spec fn texts(strings: Seq<String>) -> Seq<Seq<char>> {
    strings.map_values(|string: String| string@)
}

/// What has been defined, or what went wrong.
pub open spec fn definitions(
    result: Result<(), PluginInstantiationError>,
    imports: Imports,
) -> Definitions {
    match result {
        Ok(_) => Ok(engine::imports_of(imports)),
        Err(err) => Err(err@),
    }
}

/// No more modules wait than there are.
proof fn few_wait(modules: Map<Seq<char>, NamedModule>, tree: Seq<Seq<char>>)
    requires
        modules.dom().finite(),
        waiting(modules, tree),
    ensures
        tree.len() <= modules.len(),
{
    let bears = |key: Seq<char>| modules[key].name@;
    let borne = modules.dom().map(bears);
    lemma_map_size_bound(modules.dom(), borne, bears);
    tree.unique_seq_to_set();
    assert forall|name: Seq<char>| tree.to_set().contains(name) implies borne.contains(name) by {
        let i = choose|i: int| 0 <= i < tree.len() && tree[i] == name;
        assert(is_borne(modules, tree[i]));
        let key = choose|key: Seq<char>| #[trigger]
            modules.contains_key(key) && modules[key].name@ == name;
        assert(modules.dom().contains(key) && bears(key) == name);
    }
    lemma_len_subset(tree.to_set(), borne);
}

/// After an import that cannot be defined, no other is looked at.
proof fn rest_is_skipped(
    depth: nat,
    world: LinkWorld,
    before: LinkState<'_>,
    module: NamedModule,
    tree: Seq<Seq<char>>,
    count: nat,
    total: nat,
    problem: LinkProblem,
    after: LinkState<'_>,
)
    requires
        count <= total,
        links(depth, world, before, module, tree, count, Definitions::Err(problem), after),
    ensures
        links(depth, world, before, module, tree, total, Definitions::Err(problem), after),
    decreases total,
{
    if count < total {
        rest_is_skipped(
            depth,
            world,
            before,
            module,
            tree,
            count,
            (total - 1) as nat,
            problem,
            after,
        );
        assert(passes(Definitions::Err(problem), after));
    }
}

/// Whether a name is among strings.
fn is_among(strings: &Vec<String>, name: &String) -> (result: bool)
    ensures
        result == texts(strings@).contains(name@),
{
    let count = strings.len();
    for i in 0..count
        invariant
            count == strings@.len(),
            forall|j: int| 0 <= j < i ==> strings@[j]@ != name@,
    {
        if strings[i] == *name {
            assert(texts(strings@)[i as int] == name@);
            return true;
        }
    }
    false
}

/// Strings and one more.
fn extended(strings: &Vec<String>, name: &String) -> (result: Vec<String>)
    ensures
        texts(result@) == texts(strings@).push(name@),
{
    let mut result: Vec<String> = Vec::new();
    let count = strings.len();
    for i in 0..count
        invariant
            count == strings@.len(),
            result@.len() == i,
            forall|j: int| 0 <= j < i ==> result@[j]@ == strings@[j]@,
    {
        result.push(strings[i].clone());
    }
    result.push(name.clone());
    assert(texts(result@) =~= texts(strings@).push(name@));
    result
}

/// Whether an import asks for a memory that an earlier import asks for with other limits.
fn find_clash(wanted: &Vec<ImportSpec>, i: usize) -> (result: bool)
    requires
        i < wanted@.len(),
    ensures
        result == clashes(views(wanted@), i as int),
{
    let limits = match memory_limits(&wanted[i].ty) {
        Some(limits) => limits,
        None => {
            return false;
        },
    };
    for j in 0..i
        invariant
            i < wanted@.len(),
            wanted@[i as int]@.shape == ExternShape::Memory(limits),
            forall|k: int|
                0 <= k < j ==> !(wanted@[k]@.shape is Memory && engine::import_key(wanted@[k]@)
                    == engine::import_key(wanted@[i as int]@) && wanted@[k]@.shape
                    != wanted@[i as int]@.shape),
    {
        if let Some(earlier) = memory_limits(&wanted[j].ty) {
            if wanted[j].module == wanted[i].module && wanted[j].name == wanted[i].name
                && !same_limits(earlier, limits) {
                assert(views(wanted@)[j as int].shape is Memory);
                return true;
            }
        }
    }
    false
}

/// Imports as plain values.
pub open spec fn views(imports: Seq<ImportSpec>) -> Seq<ImportView> {
    imports.map_values(|import: ImportSpec| import@)
}

/// Whether the memories that have been defined for the first `count` imports of a module are laid
/// out as the module expects.
spec fn serve(
    module: Module,
    defined: Map<(Seq<char>, Seq<char>), Extern>,
    count: int,
) -> bool {
    forall|j: int|
        0 <= j < count ==> match (#[trigger] engine::module_imports(module)[j]).shape {
            ExternShape::Memory(limits) => engine::extern_memory(
                defined[engine::import_key(engine::module_imports(module)[j])],
            ) matches Some(memory) ==> engine::memory_style(memory) == engine::module_style(
                module,
                limits,
            ),
            _ => true,
        }
}

/// Whether defining an import has changed nothing but its definition, and a memory is laid out as in
/// a steady store.
spec fn adds_one(
    store: StoreMut<'_>,
    before: Map<(Seq<char>, Seq<char>), Extern>,
    import: ImportView,
    after: Map<(Seq<char>, Seq<char>), Extern>,
) -> bool {
    ||| import.shape !is Memory && after == before
    ||| exists|external: Extern|
        after == before.insert(engine::import_key(import), external) && match import.shape {
            ExternShape::Memory(limits) => #[trigger] engine::extern_memory(external) matches Some(
                memory,
            ) && engine::memory_style(memory) == engine::store_style(store, limits),
            _ => engine::extern_memory(external) is None,
        }
}

/// Memories that are laid out as a module expects stay so when one more import is defined.
proof fn still_serve(
    store: StoreMut<'_>,
    module: Module,
    before: Map<(Seq<char>, Seq<char>), Extern>,
    i: int,
    after: Map<(Seq<char>, Seq<char>), Extern>,
)
    requires
        0 <= i < engine::module_imports(module).len(),
        engine::is_compiled_for(store, module),
        serve(module, before, i),
        !clashes(engine::module_imports(module), i),
        adds_one(store, before, engine::module_imports(module)[i], after),
    ensures
        serve(module, after, i + 1),
{
    let imports = engine::module_imports(module);
    assert forall|j: int| 0 <= j < i + 1 implies match (#[trigger] imports[j]).shape {
        ExternShape::Memory(limits) => engine::extern_memory(
            after[engine::import_key(imports[j])],
        ) matches Some(memory) ==> engine::memory_style(memory) == engine::module_style(
            module,
            limits,
        ),
        _ => true,
    } by {
        if let ExternShape::Memory(limits) = imports[j].shape {
            assert(engine::module_style(module, limits) == engine::store_style(store, limits));
        }
    }
}

/// Defines an import as an extern whose type fits.
fn define_fitting(
    store: &StoreMut<'_>,
    external: &Extern,
    import: &ImportSpec,
    imports: &mut Imports,
) -> (result: Result<(), PluginInstantiationError>)
    requires
        engine::extern_store(*external) == engine::store_id(*store),
    ensures
        definitions(result, *final(imports)) == with_fitting(
            *store,
            *external,
            import@,
            engine::imports_of(*old(imports)),
        ),
        result is Ok && import@.shape !is Memory ==> adds_one(
            *store,
            engine::imports_of(*old(imports)),
            import@,
            engine::imports_of(*final(imports)),
        ),
{
    if !types_compatible(&type_of(store, external), &import.ty) {
        return Err(
            PluginInstantiationError::IncompatibleType(import.module.clone(), import.name.clone()),
        );
    }
    define_import(
        imports,
        import.module.as_str(),
        import.name.as_str(),
        copy_extern(external),
    );
    assert(import@.shape !is Memory ==> engine::extern_memory(*external) is None);
    Ok(())
}

/// Defines an import as what a started module exports for it.
fn define_export(
    store: &StoreMut<'_>,
    instance: &Instance,
    import: &ImportSpec,
    imports: &mut Imports,
) -> (result: Result<(), PluginInstantiationError>)
    requires
        engine::instance_store(*instance) == engine::store_id(*store),
    ensures
        definitions(result, *final(imports)) == with_export(
            *store,
            *instance,
            import@,
            engine::imports_of(*old(imports)),
        ),
        result is Ok && import@.shape !is Memory ==> adds_one(
            *store,
            engine::imports_of(*old(imports)),
            import@,
            engine::imports_of(*final(imports)),
        ),
{
    match exported_extern(instance, import.name.as_str()) {
        Some(external) => define_fitting(store, &external, import, imports),
        None => Err(
            PluginInstantiationError::MissingExport(import.module.clone(), import.name.clone()),
        ),
    }
}

/// Defines one import of a module.
fn resolve_import(
    store: &mut StoreMut<'_>,
    loaded: &mut NameMap<Instance>,
    all_modules: &NameMap<NamedModule>,
    external_imports: &ExternMap,
    tree: &Vec<String>,
    import: &ImportSpec,
    imports: &mut Imports,
) -> (result: Result<(), PluginInstantiationError>)
    requires
        waiting(all_modules@, texts(tree@)),
        engine::is_steady(*old(store)),
        are_compiled_for(*old(store), all_modules@),
        run_in(old(loaded)@, engine::store_id(*old(store))),
        belong_to(external_imports@, engine::store_id(*old(store))),
    ensures
        result is Ok ==> adds_one(
            *old(store),
            engine::imports_of(*old(imports)),
            import@,
            engine::imports_of(*final(imports)),
        ),
        resolves(
            (depth_below(all_modules@, texts(tree@)) + 1) as nat,
            LinkWorld { modules: all_modules@, external: external_imports@ },
            LinkState { store: *old(store), loaded: old(loaded)@ },
            texts(tree@),
            import@,
            engine::imports_of(*old(imports)),
            definitions(result, *final(imports)),
            LinkState { store: *final(store), loaded: final(loaded)@ },
        ),
        engine::continues(*old(store), *final(store)),
        run_in(final(loaded)@, engine::store_id(*final(store))),
    decreases all_modules@.len() + 1 - tree@.len(), 0nat,
{
    let ghost world = LinkWorld { modules: all_modules@, external: external_imports@ };
    let kernel_space = EXTISM_ENV_MODULE.to_owned();
    if import.module == kernel_space && !is_function(&import.ty) {
        return Err(PluginInstantiationError::NonFunctionKernelAccess);
    }
    if let Some(limits) = memory_limits(&import.ty) {
        let memory_space = MEMORY_MODULE.to_owned();
        if import.module == memory_space {
            return match new_memory(store, limits) {
                Ok(memory) => {
                    let external = memory_to_extern(memory);
                    define_import(
                        imports,
                        import.module.as_str(),
                        import.name.as_str(),
                        external,
                    );
                    Ok(())
                },
                Err(err) => Err(PluginInstantiationError::Memory(err)),
            };
        }
        return Err(
            PluginInstantiationError::MissingExport(import.module.clone(), import.name.clone()),
        );
    }
    if let Some(external) = external_imports.get(import.module.as_str(), import.name.as_str()) {
        return define_fitting(store, external, import, imports);
    }
    if let Some(instance) = loaded.get(import.module.as_str()) {
        return define_export(store, instance, import, imports);
    }
    match all_modules.get(import.module.as_str()) {
        Some(dependency) => {
            proof {
                assert(all_modules@.contains_key(import.module@));
            }
            let count = all_modules.len();
            proof {
                few_wait(all_modules@, texts(tree@));
            }
            let started = instantiate_module(
                store,
                dependency,
                loaded,
                all_modules,
                external_imports,
                tree,
            );
            let ghost after = LinkState { store: *store, loaded: loaded@ };
            assert(ends(errors::link_result(started)));
            match started {
                Ok(_) => match loaded.get(import.module.as_str()) {
                    Some(instance) => define_export(store, instance, import, imports),
                    None => Ok(()),
                },
                Err(err) => Err(err),
            }
        },
        None => Err(PluginInstantiationError::Export(ExportError::Missing(import.module.clone()))),
    }
}

/// Starts a module, and before it the modules that it imports from. `dependency_tree` holds the
/// names of the modules that wait for it.
pub fn instantiate_module(
    store: &mut StoreMut<'_>,
    module: &NamedModule,
    loaded: &mut NameMap<Instance>,
    all_modules: &NameMap<NamedModule>,
    external_imports: &ExternMap,
    dependency_tree: &Vec<String>,
) -> (result: Result<(), PluginInstantiationError>)
    requires
        is_module(all_modules@, *module),
        waiting(all_modules@, texts(dependency_tree@)),
        are_compiled_for(*old(store), all_modules@),
        run_in(old(loaded)@, engine::store_id(*old(store))),
        belong_to(external_imports@, engine::store_id(*old(store))),
    ensures
        starts(
            depth_below(all_modules@, texts(dependency_tree@)),
            LinkWorld { modules: all_modules@, external: external_imports@ },
            LinkState { store: *old(store), loaded: old(loaded)@ },
            *module,
            texts(dependency_tree@),
            errors::link_result(result),
            LinkState { store: *final(store), loaded: final(loaded)@ },
        ),
        engine::continues(*old(store), *final(store)),
        run_in(final(loaded)@, engine::store_id(*final(store))),
    decreases all_modules@.len() - dependency_tree@.len(), 1nat,
{
    let ghost world = LinkWorld { modules: all_modules@, external: external_imports@ };
    let ghost depth = depth_below(all_modules@, texts(dependency_tree@));
    let ghost before = LinkState { store: *store, loaded: loaded@ };
    if loaded.get(module.name.as_str()).is_some() {
        return Ok(());
    }
    if is_among(dependency_tree, &module.name) {
        return Err(PluginInstantiationError::CyclicDependency);
    }
    let tree = extended(dependency_tree, &module.name);
    let count = all_modules.len();
    proof {
        let key = choose|key: Seq<char>| #[trigger]
            all_modules@.contains_key(key) && all_modules@[key] == *module;
        assert(is_borne(all_modules@, module.name@));
        few_wait(all_modules@, texts(dependency_tree@));
        few_wait(all_modules@, texts(tree@));
    }
    let mut imports = new_imports();
    let wanted = imports_in(&module.module);
    assert(views(wanted@) =~= engine::module_imports(module.module));
    let total = wanted.len();
    let mut i: usize = 0;
    while i < total
        invariant
            i <= total,
            total == wanted@.len(),
            wanted@.len() == engine::module_imports(module.module).len(),
            forall|j: int|
                0 <= j < wanted@.len() ==> (#[trigger] wanted@[j])@ == engine::module_imports(
                    module.module,
                )[j],
            waiting(all_modules@, texts(tree@)),
            texts(tree@) == texts(dependency_tree@).push(module.name@),
            tree@.len() == dependency_tree@.len() + 1,
            tree@.len() <= all_modules@.len(),
            depth == all_modules@.len() - dependency_tree@.len(),
            depth == depth_below(all_modules@, texts(dependency_tree@)),
            world == (LinkWorld { modules: all_modules@, external: external_imports@ }),
            before == (LinkState { store: *old(store), loaded: old(loaded)@ }),
            !before.loaded.contains_key(module.name@),
            !texts(dependency_tree@).contains(module.name@),
            run_in(loaded@, engine::store_id(*store)),
            belong_to(external_imports@, engine::store_id(*store)),
            engine::continues(before.store, *store),
            are_compiled_for(*store, all_modules@),
            engine::is_compiled_for(*store, module.module),
            serve(module.module, engine::imports_of(imports), i as int),
            views(wanted@) == engine::module_imports(module.module),
            links(
                depth,
                world,
                before,
                *module,
                texts(dependency_tree@),
                i as nat,
                Definitions::Ok(engine::imports_of(imports)),
                LinkState { store: *store, loaded: loaded@ },
            ),
        decreases total - i,
    {
        assert(passes(
            Definitions::Ok(engine::imports_of(imports)),
            LinkState { store: *store, loaded: loaded@ },
        ));
        let ghost earlier = engine::imports_of(imports);
        let ghost store_before = *store;
        let resolved = if find_clash(&wanted, i) {
            Err(
                PluginInstantiationError::IncompatibleType(
                    wanted[i].module.clone(),
                    wanted[i].name.clone(),
                ),
            )
        } else {
            resolve_import(
                store,
                loaded,
                all_modules,
                external_imports,
                &tree,
                &wanted[i],
                &mut imports,
            )
        };
        let ghost between = LinkState { store: *store, loaded: loaded@ };
        assert(links(
            depth,
            world,
            before,
            *module,
            texts(dependency_tree@),
            (i + 1) as nat,
            definitions(resolved, imports),
            between,
        ));
        match resolved {
            Ok(_) => {
                proof {
                    still_serve(
                        store_before,
                        module.module,
                        earlier,
                        i as int,
                        engine::imports_of(imports),
                    );
                }
            },
            Err(err) => {
                proof {
                    rest_is_skipped(
                        depth,
                        world,
                        before,
                        *module,
                        texts(dependency_tree@),
                        (i + 1) as nat,
                        total as nat,
                        err@,
                        between,
                    );
                    assert(passes(Definitions::Err(err@), between));
                }
                return Err(err);
            },
        }
        i = i + 1;
    }
    assert(passes(
        Definitions::Ok(engine::imports_of(imports)),
        LinkState { store: *store, loaded: loaded@ },
    ));
    let ghost between = LinkState { store: *store, loaded: loaded@ };
    let ghost defined = engine::imports_of(imports);
    proof {
        assert forall|j: int|
            0 <= j < engine::module_imports(module.module).len() implies engine::memory_serves(
            *store,
            module.module,
            #[trigger] engine::module_imports(module.module)[j],
            defined,
        ) by {}
    }
    let started = new_instance(store, &module.module, &imports);
    let ghost ended = started;
    let result = match started {
        Ok(instance) => {
            loaded.insert(module.name.clone(), instance);
            Ok(())
        },
        Err(err) => Err(PluginInstantiationError::Wasmer(err)),
    };
    proof {
        let after = LinkState { store: *store, loaded: loaded@ };
        assert(engine::instantiation(between.store, module.module, defined, ended, after.store));
        assert(runs(between, *module, defined, errors::link_result(result), after));
    }
    result
}

/// Whether a module may have an import: of the kernel, functions only; memories only where the host
/// makes them.
pub open spec fn is_allowed(import: ImportView) -> bool {
    &&& import.module == EXTISM_ENV_MODULE@ ==> import.shape is Function
    &&& import.shape is Memory ==> import.module == MEMORY_MODULE@
}

/// Whether the first `count` imports of a module are allowed.
pub open spec fn are_allowed(module: NamedModule, count: nat) -> bool {
    forall|i: int|
        0 <= i < count ==> is_allowed(#[trigger] engine::module_imports(module.module)[i])
}

/// Whether a module has no reach into the memory of the kernel or of another module: it imports
/// nothing but functions from the kernel, and no memory but one that the host makes for it.
pub open spec fn is_isolated(module: NamedModule) -> bool {
    are_allowed(module, engine::module_imports(module.module).len())
}

/// Whether a name is borne by an isolated module of a plugin.
pub open spec fn names_isolated(modules: Map<Seq<char>, NamedModule>, name: Seq<char>) -> bool {
    exists|module: NamedModule| #[trigger]
        is_module(modules, module) && module.name@ == name && is_isolated(module)
}

/// Whether nothing but isolated modules has been started on the way from one state to another, and
/// what had been started before is still there.
pub open spec fn grows_isolated(
    modules: Map<Seq<char>, NamedModule>,
    before: Map<Seq<char>, Instance>,
    after: Map<Seq<char>, Instance>,
) -> bool {
    &&& before.submap_of(after)
    &&& forall|name: Seq<char>| #[trigger]
        after.contains_key(name) ==> before.contains_key(name) || names_isolated(modules, name)
}

/// Whether an import is had from a module that does not run yet.
pub open spec fn is_had_from_a_module(
    world: LinkWorld,
    before: LinkState<'_>,
    import: ImportView,
) -> bool {
    &&& is_allowed(import)
    &&& import.shape !is Memory
    &&& !world.external.contains_key(engine::import_key(import))
    &&& !before.loaded.contains_key(import.module)
    &&& world.modules.contains_key(import.module)
}

/// Where starting a module passes through: its imports are defined, or not.
pub(crate) proof fn start_steps<'a>(
    depth: nat,
    world: LinkWorld,
    before: LinkState<'a>,
    module: NamedModule,
    tree: Seq<Seq<char>>,
    outcome: Result<(), LinkProblem>,
    after: LinkState<'a>,
) -> (steps: (Definitions, LinkState<'a>))
    requires
        starts(depth, world, before, module, tree, outcome, after),
        !before.loaded.contains_key(module.name@),
        !tree.contains(module.name@),
    ensures
        links(
            depth,
            world,
            before,
            module,
            tree,
            engine::module_imports(module.module).len(),
            steps.0,
            steps.1,
        ),
        match steps.0 {
            Err(problem) => outcome == Err::<(), LinkProblem>(problem) && after == steps.1,
            Ok(imports) => runs(steps.1, module, imports, outcome, after),
        },
{
    choose|defined: Definitions, between: LinkState<'a>| #[trigger]
        passes(defined, between) && links(
            depth,
            world,
            before,
            module,
            tree,
            engine::module_imports(module.module).len(),
            defined,
            between,
        ) && match defined {
            Err(problem) => outcome == Err::<(), LinkProblem>(problem) && after == between,
            Ok(imports) => runs(between, module, imports, outcome, after),
        }
}

/// Where defining the first imports of a module passes through before the last of them.
pub(crate) proof fn import_steps<'a>(
    depth: nat,
    world: LinkWorld,
    before: LinkState<'a>,
    module: NamedModule,
    tree: Seq<Seq<char>>,
    count: nat,
    outcome: Definitions,
    after: LinkState<'a>,
) -> (steps: (Definitions, LinkState<'a>))
    requires
        links(depth, world, before, module, tree, count, outcome, after),
        count > 0,
    ensures
        links(depth, world, before, module, tree, (count - 1) as nat, steps.0, steps.1),
        match steps.0 {
            Err(problem) => outcome == Definitions::Err(problem) && after == steps.1,
            Ok(defined) => if clashes(engine::module_imports(module.module), count - 1) {
                outcome == clash(engine::module_imports(module.module)[count - 1]) && after
                    == steps.1
            } else {
                resolves(
                    depth,
                    world,
                    steps.1,
                    tree.push(module.name@),
                    engine::module_imports(module.module)[count - 1],
                    defined,
                    outcome,
                    after,
                )
            },
        },
{
    choose|defined: Definitions, between: LinkState<'a>| #[trigger]
        passes(defined, between) && links(
            depth,
            world,
            before,
            module,
            tree,
            (count - 1) as nat,
            defined,
            between,
        ) && match defined {
            Err(problem) => outcome == Definitions::Err(problem) && after == between,
            Ok(defined) => if clashes(engine::module_imports(module.module), count - 1) {
                outcome == clash(engine::module_imports(module.module)[count - 1]) && after
                    == between
            } else {
                resolves(
                    depth,
                    world,
                    between,
                    tree.push(module.name@),
                    engine::module_imports(module.module)[count - 1],
                    defined,
                    outcome,
                    after,
                )
            },
        }
}

/// How starting the module ends that an import is had from.
pub(crate) proof fn dependency_step<'a>(
    depth: nat,
    world: LinkWorld,
    before: LinkState<'a>,
    tree: Seq<Seq<char>>,
    import: ImportView,
    defined: Map<(Seq<char>, Seq<char>), Extern>,
    outcome: Definitions,
    after: LinkState<'a>,
) -> (started: Result<(), LinkProblem>)
    requires
        resolves(depth, world, before, tree, import, defined, outcome, after),
        is_had_from_a_module(world, before, import),
    ensures
        depth > 0,
        starts(
            (depth - 1) as nat,
            world,
            before,
            world.modules[import.module],
            tree,
            started,
            after,
        ),
        outcome == match started {
            Err(problem) => Err(problem),
            Ok(_) => if after.loaded.contains_key(import.module) {
                with_export(after.store, after.loaded[import.module], import, defined)
            } else {
                Ok(defined)
            },
        },
{
    choose|started: Result<(), LinkProblem>| #[trigger]
        ends(started) && starts(
            (depth - 1) as nat,
            world,
            before,
            world.modules[import.module],
            tree,
            started,
            after,
        ) && outcome == match started {
            Err(problem) => Err(problem),
            Ok(_) => if after.loaded.contains_key(import.module) {
                with_export(after.store, after.loaded[import.module], import, defined)
            } else {
                Ok(defined)
            },
        }
}

/// Starting a module keeps all modules that run. Every module that it starts, the given one and
/// those that it depends on, is isolated; and when it succeeds, the module runs.
pub proof fn starting_isolates(
    depth: nat,
    world: LinkWorld,
    before: LinkState<'_>,
    module: NamedModule,
    tree: Seq<Seq<char>>,
    outcome: Result<(), LinkProblem>,
    after: LinkState<'_>,
)
    requires
        is_module(world.modules, module),
        starts(depth, world, before, module, tree, outcome, after),
    ensures
        grows_isolated(world.modules, before.loaded, after.loaded),
        outcome is Ok ==> after.loaded.contains_key(module.name@),
    decreases depth, 2nat, 0nat,
{
    if !before.loaded.contains_key(module.name@) && !tree.contains(module.name@) {
        let count = engine::module_imports(module.module).len();
        let (defined, between) = start_steps(
            depth,
            world,
            before,
            module,
            tree,
            outcome,
            after,
        );
        linking_isolates(depth, world, before, module, tree, count, defined, between);
        assert(defined is Ok ==> is_isolated(module));
    }
}

/// Defining imports keeps all modules that run; what it starts is isolated, and so are the imports
/// that it defines.
pub(crate) proof fn linking_isolates(
    depth: nat,
    world: LinkWorld,
    before: LinkState<'_>,
    module: NamedModule,
    tree: Seq<Seq<char>>,
    count: nat,
    outcome: Definitions,
    after: LinkState<'_>,
)
    requires
        links(depth, world, before, module, tree, count, outcome, after),
    ensures
        grows_isolated(world.modules, before.loaded, after.loaded),
        outcome is Ok ==> are_allowed(module, count),
    decreases depth, 1nat, count,
{
    if count > 0 {
        let (defined, between) = import_steps(
            depth,
            world,
            before,
            module,
            tree,
            count,
            outcome,
            after,
        );
        let clashing = clashes(engine::module_imports(module.module), count - 1);
        linking_isolates(depth, world, before, module, tree, (count - 1) as nat, defined, between);
        if clashing {
        } else if let Ok(defined) = defined {
            resolving_isolates(
                depth,
                world,
                between,
                tree.push(module.name@),
                engine::module_imports(module.module)[count - 1],
                defined,
                outcome,
                after,
            );
            lemma_submap_of_trans(before.loaded, between.loaded, after.loaded);
            assert forall|name: Seq<char>| #[trigger] after.loaded.contains_key(name) implies
                before.loaded.contains_key(name) || names_isolated(world.modules, name) by {
                assert(between.loaded.contains_key(name) || names_isolated(world.modules, name));
            }
        }
    }
}

/// Defining an import keeps all modules that run; what it starts is isolated, and so is the import.
proof fn resolving_isolates(
    depth: nat,
    world: LinkWorld,
    before: LinkState<'_>,
    tree: Seq<Seq<char>>,
    import: ImportView,
    defined: Map<(Seq<char>, Seq<char>), Extern>,
    outcome: Definitions,
    after: LinkState<'_>,
)
    requires
        resolves(depth, world, before, tree, import, defined, outcome, after),
    ensures
        grows_isolated(world.modules, before.loaded, after.loaded),
        outcome is Ok ==> is_allowed(import),
    decreases depth, 0nat, 0nat,
{
    if is_had_from_a_module(world, before, import) {
        let started = dependency_step(
            depth,
            world,
            before,
            tree,
            import,
            defined,
            outcome,
            after,
        );
        starting_isolates(
            (depth - 1) as nat,
            world,
            before,
            world.modules[import.module],
            tree,
            started,
            after,
        );
    }
}

/// Whether an import is had from a module of a circle: the host neither makes it nor provides it.
pub open spec fn waits_on(world: LinkWorld, circle: Set<Seq<char>>, import: ImportView) -> bool {
    &&& circle.contains(import.module)
    &&& import.shape !is Memory
    &&& !world.external.contains_key(engine::import_key(import))
}

/// Whether one of the imports of a module is had from a module of a circle.
pub open spec fn waits(world: LinkWorld, circle: Set<Seq<char>>, module: NamedModule) -> bool {
    exists|i: int|
        0 <= i < engine::module_imports(module.module).len() && waits_on(
            world,
            circle,
            #[trigger] engine::module_imports(module.module)[i],
        )
}

/// Whether a name belongs to a circle: a module of the circle is looked up by it, or bears it.
pub open spec fn belongs(world: LinkWorld, circle: Set<Seq<char>>, name: Seq<char>) -> bool {
    ||| circle.contains(name)
    ||| exists|key: Seq<char>| #[trigger]
        circle.contains(key) && world.modules[key].name@ == name
}

/// Whether modules, given by what they are looked up by, wait for one another in a circle: each of
/// them has an import from one of them. No other module bears a name that belongs to them.
pub open spec fn is_circle(world: LinkWorld, circle: Set<Seq<char>>) -> bool {
    &&& forall|key: Seq<char>| #[trigger]
        circle.contains(key) ==> world.modules.contains_key(key) && waits(
            world,
            circle,
            world.modules[key],
        )
    &&& forall|key: Seq<char>| #[trigger]
        world.modules.contains_key(key) && !circle.contains(key) ==> !belongs(
            world,
            circle,
            world.modules[key].name@,
        )
}

/// Whether no module that runs has a name that belongs to a circle.
pub open spec fn is_clear_of(
    world: LinkWorld,
    circle: Set<Seq<char>>,
    loaded: Map<Seq<char>, Instance>,
) -> bool {
    forall|name: Seq<char>| #[trigger]
        belongs(world, circle, name) ==> !loaded.contains_key(name)
}

/// Modules that wait for one another in a circle are never started: starting one of them fails, and
/// starting another module starts none of them.
pub proof fn circles_never_start(
    depth: nat,
    world: LinkWorld,
    circle: Set<Seq<char>>,
    before: LinkState<'_>,
    key: Seq<char>,
    tree: Seq<Seq<char>>,
    outcome: Result<(), LinkProblem>,
    after: LinkState<'_>,
)
    requires
        is_circle(world, circle),
        is_clear_of(world, circle, before.loaded),
        world.modules.contains_key(key),
        starts(depth, world, before, world.modules[key], tree, outcome, after),
    ensures
        is_clear_of(world, circle, after.loaded),
        circle.contains(key) ==> outcome is Err,
    decreases depth, 2nat, 0nat,
{
    let module = world.modules[key];
    if circle.contains(key) {
        assert(belongs(world, circle, module.name@));
    }
    if !before.loaded.contains_key(module.name@) && !tree.contains(module.name@) {
        let count = engine::module_imports(module.module).len();
        let (defined, between) = start_steps(
            depth,
            world,
            before,
            module,
            tree,
            outcome,
            after,
        );
        circle_is_not_linked(depth, world, circle, before, module, tree, count, defined, between);
    }
}

/// An import that is had from a module of a circle is never defined.
proof fn circle_is_not_linked(
    depth: nat,
    world: LinkWorld,
    circle: Set<Seq<char>>,
    before: LinkState<'_>,
    module: NamedModule,
    tree: Seq<Seq<char>>,
    count: nat,
    outcome: Definitions,
    after: LinkState<'_>,
)
    requires
        is_circle(world, circle),
        is_clear_of(world, circle, before.loaded),
        links(depth, world, before, module, tree, count, outcome, after),
    ensures
        is_clear_of(world, circle, after.loaded),
        outcome is Ok ==> forall|i: int|
            0 <= i < count ==> !waits_on(
                world,
                circle,
                #[trigger] engine::module_imports(module.module)[i],
            ),
    decreases depth, 1nat, count,
{
    if count > 0 {
        let import = engine::module_imports(module.module)[count - 1];
        let (defined, between) = import_steps(
            depth,
            world,
            before,
            module,
            tree,
            count,
            outcome,
            after,
        );
        let clashing = clashes(engine::module_imports(module.module), count - 1);
        circle_is_not_linked(
            depth,
            world,
            circle,
            before,
            module,
            tree,
            (count - 1) as nat,
            defined,
            between,
        );
        if clashing {
        } else if let Ok(defined) = defined {
            circle_is_not_resolved(
                depth,
                world,
                circle,
                between,
                tree.push(module.name@),
                import,
                defined,
                outcome,
                after,
            );
        }
    }
}

/// An import that is had from a module of a circle is not defined.
proof fn circle_is_not_resolved(
    depth: nat,
    world: LinkWorld,
    circle: Set<Seq<char>>,
    before: LinkState<'_>,
    tree: Seq<Seq<char>>,
    import: ImportView,
    defined: Map<(Seq<char>, Seq<char>), Extern>,
    outcome: Definitions,
    after: LinkState<'_>,
)
    requires
        is_circle(world, circle),
        is_clear_of(world, circle, before.loaded),
        resolves(depth, world, before, tree, import, defined, outcome, after),
    ensures
        is_clear_of(world, circle, after.loaded),
        waits_on(world, circle, import) ==> outcome is Err,
    decreases depth, 0nat, 0nat,
{
    assert(circle.contains(import.module) ==> belongs(world, circle, import.module));
    if is_had_from_a_module(world, before, import) {
        let started = dependency_step(
            depth,
            world,
            before,
            tree,
            import,
            defined,
            outcome,
            after,
        );
        circles_never_start(
            (depth - 1) as nat,
            world,
            circle,
            before,
            import.module,
            tree,
            started,
            after,
        );
    }
}

/// A module that has been started is not started again: to ask for it once more changes nothing.
pub proof fn modules_start_once(
    depth: nat,
    world: LinkWorld,
    before: LinkState<'_>,
    module: NamedModule,
    tree: Seq<Seq<char>>,
    between: LinkState<'_>,
    again_depth: nat,
    again_tree: Seq<Seq<char>>,
    outcome: Result<(), LinkProblem>,
    after: LinkState<'_>,
)
    requires
        is_module(world.modules, module),
        starts(depth, world, before, module, tree, Ok(()), between),
        starts(again_depth, world, between, module, again_tree, outcome, after),
    ensures
        outcome == Ok::<(), LinkProblem>(()),
        after == between,
{
    starting_isolates(depth, world, before, module, tree, Ok(()), between);
}

/// A module that could not be started is not among the modules that run.
pub proof fn failed_modules_do_not_run(
    depth: nat,
    world: LinkWorld,
    before: LinkState<'_>,
    module: NamedModule,
    tree: Seq<Seq<char>>,
    problem: LinkProblem,
    after: LinkState<'_>,
)
    requires
        starts(depth, world, before, module, tree, Err(problem), after),
    ensures
        !after.loaded.contains_key(module.name@),
{
    if !before.loaded.contains_key(module.name@) && !tree.contains(module.name@) {
        let count = engine::module_imports(module.module).len();
        let (defined, between) = start_steps(
            depth,
            world,
            before,
            module,
            tree,
            Err(problem),
            after,
        );
        linking_starts_none_that_wait(
            depth,
            world,
            before,
            module,
            tree,
            count,
            defined,
            between,
            module.name@,
        );
    }
}

/// Starting a module starts none of the modules that wait for it.
proof fn starting_starts_none_that_wait(
    depth: nat,
    world: LinkWorld,
    before: LinkState<'_>,
    module: NamedModule,
    tree: Seq<Seq<char>>,
    outcome: Result<(), LinkProblem>,
    after: LinkState<'_>,
    name: Seq<char>,
)
    requires
        starts(depth, world, before, module, tree, outcome, after),
        tree.contains(name),
        !before.loaded.contains_key(name),
    ensures
        !after.loaded.contains_key(name),
    decreases depth, 2nat, 0nat,
{
    if !before.loaded.contains_key(module.name@) && !tree.contains(module.name@) {
        let count = engine::module_imports(module.module).len();
        let (defined, between) = start_steps(
            depth,
            world,
            before,
            module,
            tree,
            outcome,
            after,
        );
        linking_starts_none_that_wait(
            depth,
            world,
            before,
            module,
            tree,
            count,
            defined,
            between,
            name,
        );
    }
}

/// Defining the imports of a module starts neither that module nor those that wait for it.
proof fn linking_starts_none_that_wait(
    depth: nat,
    world: LinkWorld,
    before: LinkState<'_>,
    module: NamedModule,
    tree: Seq<Seq<char>>,
    count: nat,
    outcome: Definitions,
    after: LinkState<'_>,
    name: Seq<char>,
)
    requires
        links(depth, world, before, module, tree, count, outcome, after),
        name == module.name@ || tree.contains(name),
        !before.loaded.contains_key(name),
    ensures
        !after.loaded.contains_key(name),
    decreases depth, 1nat, count,
{
    if count > 0 {
        let (defined, between) = import_steps(
            depth,
            world,
            before,
            module,
            tree,
            count,
            outcome,
            after,
        );
        let clashing = clashes(engine::module_imports(module.module), count - 1);
        linking_starts_none_that_wait(
            depth,
            world,
            before,
            module,
            tree,
            (count - 1) as nat,
            defined,
            between,
            name,
        );
        if clashing {
        } else if let Ok(defined) = defined {
            let waiting = tree.push(module.name@);
            if name == module.name@ {
                assert(waiting[tree.len() as int] == name);
            } else {
                let i = tree.index_of(name);
                assert(waiting[i] == name);
            }
            resolving_starts_none_that_wait(
                depth,
                world,
                between,
                waiting,
                engine::module_imports(module.module)[count - 1],
                defined,
                outcome,
                after,
                name,
            );
        }
    }
}

/// Defining an import starts none of the modules that wait for it.
proof fn resolving_starts_none_that_wait(
    depth: nat,
    world: LinkWorld,
    before: LinkState<'_>,
    tree: Seq<Seq<char>>,
    import: ImportView,
    defined: Map<(Seq<char>, Seq<char>), Extern>,
    outcome: Definitions,
    after: LinkState<'_>,
    name: Seq<char>,
)
    requires
        resolves(depth, world, before, tree, import, defined, outcome, after),
        tree.contains(name),
        !before.loaded.contains_key(name),
    ensures
        !after.loaded.contains_key(name),
    decreases depth, 0nat, 0nat,
{
    if is_had_from_a_module(world, before, import) {
        let started = dependency_step(
            depth,
            world,
            before,
            tree,
            import,
            defined,
            outcome,
            after,
        );
        starting_starts_none_that_wait(
            (depth - 1) as nat,
            world,
            before,
            world.modules[import.module],
            tree,
            started,
            after,
            name,
        );
    }
}

} // verus!
