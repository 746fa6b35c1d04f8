//! What linking comes down to: what each import of a module is defined as, and why linking fails.
use crate::engine::{self, ExportErrorView, ExternShape, ImportView};
use crate::errors::LinkProblem;
use crate::link::{self, Definitions, LinkState, LinkWorld, NamedModule};
use vstd::map_lib::*;
use vstd::prelude::*;
use wasmer::{Extern, Instance, InstantiationError, Memory, MemoryError, StoreMut};

verus! {

/// Whether the type of an extern fits an import.
pub open spec fn fits(store: StoreMut<'_>, external: Extern, import: ImportView) -> bool {
    engine::compatible(engine::extern_type(store, external), import.shape)
}

/// Whether two imports ask for something of the same namespace and name.
pub open spec fn ask_for_the_same(one: ImportView, other: ImportView) -> bool {
    one.module == other.module && one.name == other.name
}

/// Whether an import asks for a memory that an earlier one asks for with other limits.
pub open spec fn asks_for_another_memory(imports: Seq<ImportView>, i: int) -> bool {
    exists|j: int|
        0 <= j < i && ask_for_the_same(#[trigger] imports[j], imports[i]) && imports[j].shape is Memory
            && imports[i].shape is Memory && imports[j].shape != imports[i].shape
}

/// Whether the host provides something for an import.
pub open spec fn is_hosted(world: LinkWorld, import: ImportView) -> bool {
    world.external.contains_key((import.module, import.name))
}

/// What the host provides for an import.
pub open spec fn hosted(world: LinkWorld, import: ImportView) -> Extern {
    world.external[(import.module, import.name)]
}

/// Whether a module that runs exports something for an import.
pub open spec fn is_exported(loaded: Map<Seq<char>, Instance>, import: ImportView) -> bool {
    &&& loaded.contains_key(import.module)
    &&& engine::instance_exports(loaded[import.module]).contains_key(import.name)
}

/// What a module that runs exports for an import.
pub open spec fn exported(loaded: Map<Seq<char>, Instance>, import: ImportView) -> Extern {
    engine::instance_exports(loaded[import.module])[import.name]
}

/// Whether an import cannot be defined in a state, and why. Something that is not a function is asked of
/// the kernel; the types do not fit; nothing of that name is there; no module of that name is there; or no
/// memory can be made.
pub open spec fn cannot_be_defined(
    world: LinkWorld,
    imports: Seq<ImportView>,
    i: int,
    problem: LinkProblem,
    after: LinkState<'_>,
) -> bool {
    let import = imports[i];
    match problem {
        LinkProblem::NonFunctionKernelAccess => import.module == "extism:host/env"@
            && import.shape !is Function,
        LinkProblem::IncompatibleType(module, name) => {
            &&& module == import.module
            &&& name == import.name
            &&& {
                ||| asks_for_another_memory(imports, i)
                ||| import.shape !is Memory && is_hosted(world, import) && !fits(
                    after.store,
                    hosted(world, import),
                    import,
                )
                ||| import.shape !is Memory && !is_hosted(world, import) && is_exported(
                    after.loaded,
                    import,
                ) && !fits(after.store, exported(after.loaded, import), import)
            }
        },
        LinkProblem::MissingExport(module, name) => {
            &&& module == import.module
            &&& name == import.name
            &&& {
                ||| import.shape is Memory && import.module != "env"@
                ||| import.shape !is Memory && !is_hosted(world, import)
                    && after.loaded.contains_key(import.module) && !is_exported(
                    after.loaded,
                    import,
                )
            }
        },
        LinkProblem::Export(ExportErrorView::Missing(module)) => {
            &&& module == import.module
            &&& import.shape !is Memory
            &&& !is_hosted(world, import)
            &&& !after.loaded.contains_key(module)
            &&& !world.modules.contains_key(module)
        },
        LinkProblem::Memory(err) => import.module == "env"@ && import.shape is Memory && exists|
            between: StoreMut<'_>,
        | #[trigger]
            engine::memory_creation(between, import.shape->Memory_0, Err(err), after.store),
        _ => false,
    }
}

/// Whether the module that an import is had from could not be started. It is one that was not running, and
/// the host provides nothing in its place.
pub open spec fn could_not_be_started(
    depth: nat,
    world: LinkWorld,
    tree: Seq<Seq<char>>,
    import: ImportView,
    problem: LinkProblem,
    after: LinkState<'_>,
) -> bool {
    &&& import.shape !is Memory
    &&& !is_hosted(world, import)
    &&& world.modules.contains_key(import.module)
    &&& depth > 0
    &&& exists|between: LinkState<'_>|
        !between.loaded.contains_key(import.module) && #[trigger] link::starts(
            (depth - 1) as nat,
            world,
            between,
            world.modules[import.module],
            tree,
            Err(problem),
            after,
        )
}

/// Linking fails only where one of the imports cannot be defined, or the module that it is had from cannot
/// be started. In particular, that several imports have the same module, the same type or both is never a
/// reason.
pub proof fn linking_fails_only_with_a_reason(
    depth: nat,
    world: LinkWorld,
    before: LinkState<'_>,
    module: NamedModule,
    tree: Seq<Seq<char>>,
    count: nat,
    problem: LinkProblem,
    after: LinkState<'_>,
)
    requires
        count <= engine::module_imports(module.module).len(),
        link::links(depth, world, before, module, tree, count, Definitions::Err(problem), after),
    ensures
        exists|i: int|
            0 <= i < count && {
                ||| #[trigger] cannot_be_defined(
                    world,
                    engine::module_imports(module.module),
                    i,
                    problem,
                    after,
                )
                ||| could_not_be_started(
                    depth,
                    world,
                    tree.push(module.name@),
                    engine::module_imports(module.module)[i],
                    problem,
                    after,
                )
            },
    decreases count,
{
    let imports = engine::module_imports(module.module);
    if count > 0 {
        let outcome = Definitions::Err(problem);
        let i = count - 1;
        let (defined, between) = link::import_steps(
            depth,
            world,
            before,
            module,
            tree,
            count,
            outcome,
            after,
        );
        match defined {
            Err(_) => {
                linking_fails_only_with_a_reason(
                    depth,
                    world,
                    before,
                    module,
                    tree,
                    (count - 1) as nat,
                    problem,
                    after,
                );
            },
            Ok(defined) => {
                if link::clashes(imports, i) {
                    let j = choose|j: int|
                        0 <= j < i && imports[i].shape is Memory
                            && (#[trigger] imports[j]).shape is Memory && engine::import_key(
                            imports[j],
                        ) == engine::import_key(imports[i]) && imports[j].shape != imports[i].shape;
                    assert(ask_for_the_same(imports[j], imports[i]));
                    assert(asks_for_another_memory(imports, i));
                    assert(cannot_be_defined(world, imports, i, problem, after));
                } else if link::is_had_from_a_module(world, between, imports[i]) {
                    let started = link::dependency_step(
                        depth,
                        world,
                        between,
                        tree.push(module.name@),
                        imports[i],
                        defined,
                        outcome,
                        after,
                    );
                    if let Err(_) = started {
                        assert(started == Err::<(), LinkProblem>(problem));
                        assert(could_not_be_started(
                            depth,
                            world,
                            tree.push(module.name@),
                            imports[i],
                            problem,
                            after,
                        ));
                    }
                    assert(cannot_be_defined(world, imports, i, problem, after)
                        || could_not_be_started(
                        depth,
                        world,
                        tree.push(module.name@),
                        imports[i],
                        problem,
                        after,
                    ));
                } else {
                    if let LinkProblem::Memory(err) = problem {
                        let limits = imports[i].shape->Memory_0;
                        let made = choose|made: Result<Memory, MemoryError>| #[trigger]
                            engine::memory_creation(between.store, limits, made, after.store)
                                && outcome == match made {
                                Ok(memory) => Definitions::Ok(
                                    defined.insert(
                                        engine::import_key(imports[i]),
                                        engine::memory_as_extern(memory),
                                    ),
                                ),
                                Err(err) => Definitions::Err(LinkProblem::Memory(err)),
                            };
                        assert(engine::memory_creation(
                            between.store,
                            limits,
                            Err(err),
                            after.store,
                        ));
                    }
                    assert(cannot_be_defined(world, imports, i, problem, after));
                }
            },
        }
    }
}

/// Whether an import is defined as what it asks for: a memory that was made for it; what the host provides;
/// or what the module of that name exports. A module that is found by one name and bears another one
/// defines nothing.
pub open spec fn is_defined(
    world: LinkWorld,
    loaded: Map<Seq<char>, Instance>,
    import: ImportView,
    defined: Map<(Seq<char>, Seq<char>), Extern>,
) -> bool {
    let key = (import.module, import.name);
    if let ExternShape::Memory(limits) = import.shape {
        import.module == "env"@ && defined.contains_key(key) && exists|
            before: StoreMut<'_>,
            memory: Memory,
            after: StoreMut<'_>,
        |
            #[trigger] engine::memory_creation(before, limits, Ok(memory), after) && defined[key]
                == engine::memory_as_extern(memory)
    } else if is_hosted(world, import) {
        defined.contains_key(key) && defined[key] == hosted(world, import)
    } else {
        ||| is_exported(loaded, import) && defined.contains_key(key) && defined[key] == exported(
            loaded,
            import,
        )
        ||| world.modules.contains_key(import.module) && world.modules[import.module].name@
            != import.module
    }
}

/// Whether an import is the last one of the first `count` that asks for something of its namespace and name.
pub open spec fn is_last(imports: Seq<ImportView>, i: int, count: int) -> bool {
    forall|j: int| i < j < count ==> !ask_for_the_same(#[trigger] imports[j], imports[i])
}

/// Where linking succeeds, every import is defined as what it asks for, and nothing else is defined.
pub proof fn imports_are_defined_as_asked_for(
    depth: nat,
    world: LinkWorld,
    before: LinkState<'_>,
    module: NamedModule,
    tree: Seq<Seq<char>>,
    count: nat,
    defined: Map<(Seq<char>, Seq<char>), Extern>,
    after: LinkState<'_>,
)
    requires
        count <= engine::module_imports(module.module).len(),
        link::links(depth, world, before, module, tree, count, Definitions::Ok(defined), after),
    ensures
        before.loaded.submap_of(after.loaded),
        forall|i: int|
            0 <= i < count && is_last(engine::module_imports(module.module), i, count as int)
                ==> is_defined(
                world,
                after.loaded,
                #[trigger] engine::module_imports(module.module)[i],
                defined,
            ),
        forall|i: int|
            0 <= i < count && (
            #[trigger] engine::module_imports(module.module)[i]).module == "extism:host/env"@
                ==> engine::module_imports(module.module)[i].shape is Function,
        forall|key: (Seq<char>, Seq<char>)| #[trigger]
            defined.contains_key(key) ==> exists|i: int|
                0 <= i < count && (#[trigger] engine::module_imports(module.module)[i]).module
                    == key.0 && engine::module_imports(module.module)[i].name == key.1,
    decreases count,
{
    let imports = engine::module_imports(module.module);
    link::linking_isolates(
        depth,
        world,
        before,
        module,
        tree,
        count,
        Definitions::Ok(defined),
        after,
    );
    if count > 0 {
        let last = count - 1;
        let (earlier, between) = link::import_steps(
            depth,
            world,
            before,
            module,
            tree,
            count,
            Definitions::Ok(defined),
            after,
        );
        let former = earlier->Ok_0;
        imports_are_defined_as_asked_for(
            depth,
            world,
            before,
            module,
            tree,
            (count - 1) as nat,
            former,
            between,
        );
        import_is_defined_as_asked_for(
            depth,
            world,
            between,
            tree.push(module.name@),
            imports[last],
            former,
            defined,
            after,
        );
        let key = (imports[last].module, imports[last].name);
        assert forall|i: int|
            0 <= i < count && is_last(imports, i, count as int) implies is_defined(
            world,
            after.loaded,
            #[trigger] imports[i],
            defined,
        ) by {
            if i < last {
                assert(!ask_for_the_same(imports[last], imports[i]));
                assert(is_last(imports, i, last));
                assert(is_defined(world, between.loaded, imports[i], former));
                let own = (imports[i].module, imports[i].name);
                assert(own != key);
                assert(defined.contains_key(own) == former.contains_key(own));
                assert(former.contains_key(own) ==> defined[own] == former[own]);
                if between.loaded.contains_key(imports[i].module) {
                    assert(after.loaded.contains_key(imports[i].module));
                    assert(after.loaded[imports[i].module] == between.loaded[imports[i].module]);
                }
                if let ExternShape::Memory(limits) = imports[i].shape {
                    let (start, memory, end) = choose|
                        start: StoreMut<'_>,
                        memory: Memory,
                        end: StoreMut<'_>,
                    |
                        #[trigger] engine::memory_creation(start, limits, Ok(memory), end)
                            && former[own] == engine::memory_as_extern(memory);
                    assert(engine::memory_creation(start, limits, Ok(memory), end));
                }
            }
        }
        assert forall|other: (Seq<char>, Seq<char>)| #[trigger]
            defined.contains_key(other) implies exists|i: int|
            0 <= i < count && (#[trigger] imports[i]).module == other.0 && imports[i].name
                == other.1 by {
            if other == key {
                assert(imports[last].module == other.0 && imports[last].name == other.1);
            } else {
                assert(former.contains_key(other));
                let i = choose|i: int|
                    0 <= i < count - 1 && (#[trigger] imports[i]).module == other.0
                        && imports[i].name == other.1;
                assert(imports[i].module == other.0 && imports[i].name == other.1);
            }
        }
    }
}

/// Where linking succeeds, no two imports ask for the same memory with different limits.
pub proof fn memories_are_asked_for_alike(
    depth: nat,
    world: LinkWorld,
    before: LinkState<'_>,
    module: NamedModule,
    tree: Seq<Seq<char>>,
    count: nat,
    outcome: Definitions,
    after: LinkState<'_>,
)
    requires
        count <= engine::module_imports(module.module).len(),
        link::links(depth, world, before, module, tree, count, outcome, after),
        outcome is Ok,
    ensures
        forall|i: int|
            0 <= i < count ==> !(#[trigger] asks_for_another_memory(
                engine::module_imports(module.module),
                i,
            )),
    decreases count,
{
    let imports = engine::module_imports(module.module);
    if count > 0 {
        let last = count - 1;
        let (earlier, between) = link::import_steps(
            depth,
            world,
            before,
            module,
            tree,
            count,
            outcome,
            after,
        );
        memories_are_asked_for_alike(
            depth,
            world,
            before,
            module,
            tree,
            (count - 1) as nat,
            earlier,
            between,
        );
        if asks_for_another_memory(imports, last) {
            let j = choose|j: int|
                0 <= j < last && ask_for_the_same(#[trigger] imports[j], imports[last])
                    && imports[j].shape is Memory && imports[last].shape is Memory
                    && imports[j].shape != imports[last].shape;
            assert(engine::import_key(imports[j]) == engine::import_key(imports[last]));
            assert(link::clashes(imports, last));
        }
    }
}

/// An import is defined as what it asks for, and nothing else changes.
proof fn import_is_defined_as_asked_for(
    depth: nat,
    world: LinkWorld,
    before: LinkState<'_>,
    tree: Seq<Seq<char>>,
    import: ImportView,
    former: Map<(Seq<char>, Seq<char>), Extern>,
    defined: Map<(Seq<char>, Seq<char>), Extern>,
    after: LinkState<'_>,
)
    requires
        link::resolves(
            depth,
            world,
            before,
            tree,
            import,
            former,
            Definitions::Ok(defined),
            after,
        ),
    ensures
        before.loaded.submap_of(after.loaded),
        is_defined(world, after.loaded, import, defined),
        import.module == "extism:host/env"@ ==> import.shape is Function,
        forall|key: (Seq<char>, Seq<char>)|
            key != (import.module, import.name) ==> #[trigger] defined.contains_key(key)
                == former.contains_key(key),
        forall|key: (Seq<char>, Seq<char>)|
            key != (import.module, import.name) && former.contains_key(key)
                ==> #[trigger] defined[key] == former[key],
        import.shape !is Memory && (is_hosted(world, import) || after.loaded.contains_key(
            import.module,
        )) ==> fits(after.store, defined[(import.module, import.name)], import),
{
    let outcome = Definitions::Ok(defined);
    let key = (import.module, import.name);
    assert(key == engine::import_key(import));
    if link::is_had_from_a_module(world, before, import) {
        let started = link::dependency_step(
            depth,
            world,
            before,
            tree,
            import,
            former,
            outcome,
            after,
        );
        let own = world.modules[import.module];
        assert(world.modules.contains_key(import.module));
        assert(link::is_module(world.modules, own));
        link::starting_isolates((depth - 1) as nat, world, before, own, tree, started, after);
    } else if let ExternShape::Memory(limits) = import.shape {
        let made = choose|made: Result<Memory, MemoryError>| #[trigger]
            engine::memory_creation(before.store, limits, made, after.store) && outcome
                == match made {
                Ok(memory) => Definitions::Ok(former.insert(key, engine::memory_as_extern(memory))),
                Err(err) => Definitions::Err(LinkProblem::Memory(err)),
            };
        let memory = made->Ok_0;
        assert(engine::memory_creation(before.store, limits, Ok(memory), after.store));
        assert(defined[key] == engine::memory_as_extern(memory));
    }
}

/// Whether an import was defined after others, and what that took: a memory is made for it; what the host provides
/// and what a module that runs exports is just taken; and a module that does not run yet is started first.
/// One that then runs by another name defines nothing.
pub open spec fn was_defined(
    depth: nat,
    world: LinkWorld,
    before: LinkState<'_>,
    tree: Seq<Seq<char>>,
    import: ImportView,
    former: Map<(Seq<char>, Seq<char>), Extern>,
    defined: Map<(Seq<char>, Seq<char>), Extern>,
    after: LinkState<'_>,
) -> bool {
    let key = (import.module, import.name);
    if let ExternShape::Memory(limits) = import.shape {
        after.loaded == before.loaded && exists|memory: Memory| #[trigger]
            engine::memory_creation(before.store, limits, Ok(memory), after.store) && defined
                == former.insert(key, engine::memory_as_extern(memory))
    } else if is_hosted(world, import) {
        after == before && defined == former.insert(key, hosted(world, import))
    } else if before.loaded.contains_key(import.module) {
        after == before && is_exported(before.loaded, import) && defined == former.insert(
            key,
            exported(before.loaded, import),
        )
    } else {
        &&& world.modules.contains_key(import.module)
        &&& depth > 0
        &&& link::starts(
            (depth - 1) as nat,
            world,
            before,
            world.modules[import.module],
            tree,
            Ok(()),
            after,
        )
        &&& if after.loaded.contains_key(import.module) {
            is_exported(after.loaded, import) && defined == former.insert(
                key,
                exported(after.loaded, import),
            )
        } else {
            defined == former
        }
    }
}

/// The imports of a module are defined one after the other, each by itself: what is defined for one depends on
/// nothing but what it asks for.
pub proof fn imports_are_defined_one_by_one(
    depth: nat,
    world: LinkWorld,
    before: LinkState<'_>,
    module: NamedModule,
    tree: Seq<Seq<char>>,
    count: nat,
    defined: Map<(Seq<char>, Seq<char>), Extern>,
    after: LinkState<'_>,
)
    requires
        count <= engine::module_imports(module.module).len(),
        link::links(depth, world, before, module, tree, count, Definitions::Ok(defined), after),
    ensures
        count == 0 ==> after == before && forall|key: (Seq<char>, Seq<char>)|
            !(#[trigger] defined.contains_key(key)),
        count > 0 ==> exists|
            former: Map<(Seq<char>, Seq<char>), Extern>,
            between: LinkState<'_>,
        |
            #[trigger] link::links(
                depth,
                world,
                before,
                module,
                tree,
                (count - 1) as nat,
                Definitions::Ok(former),
                between,
            ) && was_defined(
                depth,
                world,
                between,
                tree.push(module.name@),
                engine::module_imports(module.module)[count - 1],
                former,
                defined,
                after,
            ),
{
    if count > 0 {
        let outcome = Definitions::Ok(defined);
        let import = engine::module_imports(module.module)[count - 1];
        let (earlier, between) = link::import_steps(
            depth,
            world,
            before,
            module,
            tree,
            count,
            outcome,
            after,
        );
        let former = earlier->Ok_0;
        assert(earlier == Definitions::Ok(former));
        assert(engine::import_key(import) == (import.module, import.name));
        if link::is_had_from_a_module(world, between, import) {
            let started = link::dependency_step(
                depth,
                world,
                between,
                tree.push(module.name@),
                import,
                former,
                outcome,
                after,
            );
            assert(started == Ok::<(), LinkProblem>(()));
        } else if let ExternShape::Memory(limits) = import.shape {
            let made = choose|made: Result<Memory, MemoryError>| #[trigger]
                engine::memory_creation(between.store, limits, made, after.store) && outcome
                    == match made {
                    Ok(memory) => Definitions::Ok(
                        former.insert(
                            engine::import_key(import),
                            engine::memory_as_extern(memory),
                        ),
                    ),
                    Err(err) => Definitions::Err(LinkProblem::Memory(err)),
                };
            let memory = made->Ok_0;
            assert(engine::memory_creation(between.store, limits, Ok(memory), after.store));
        }
        assert(was_defined(
            depth,
            world,
            between,
            tree.push(module.name@),
            import,
            former,
            defined,
            after,
        ));
    }
}

/// The type of what an import is defined as fits the import.
pub proof fn definitions_fit(
    depth: nat,
    world: LinkWorld,
    before: LinkState<'_>,
    module: NamedModule,
    tree: Seq<Seq<char>>,
    count: nat,
    defined: Map<(Seq<char>, Seq<char>), Extern>,
    after: LinkState<'_>,
)
    requires
        0 < count <= engine::module_imports(module.module).len(),
        link::links(depth, world, before, module, tree, count, Definitions::Ok(defined), after),
        engine::module_imports(module.module)[count - 1].shape !is Memory,
        is_hosted(world, engine::module_imports(module.module)[count - 1])
            || after.loaded.contains_key(engine::module_imports(module.module)[count - 1].module),
    ensures
        fits(
            after.store,
            defined[(
                engine::module_imports(module.module)[count - 1].module,
                engine::module_imports(module.module)[count - 1].name,
            )],
            engine::module_imports(module.module)[count - 1],
        ),
{
    let (earlier, between) = link::import_steps(
        depth,
        world,
        before,
        module,
        tree,
        count,
        Definitions::Ok(defined),
        after,
    );
    import_is_defined_as_asked_for(
        depth,
        world,
        between,
        tree.push(module.name@),
        engine::module_imports(module.module)[count - 1],
        earlier->Ok_0,
        defined,
        after,
    );
}

/// Whether something is there for an import that is no memory: the host provides it, or a module that runs
/// exports it; and its type fits.
pub open spec fn is_there(world: LinkWorld, state: LinkState<'_>, import: ImportView) -> bool {
    &&& import.shape !is Memory
    &&& import.module == "extism:host/env"@ ==> import.shape is Function
    &&& if is_hosted(world, import) {
        fits(state.store, hosted(world, import), import)
    } else {
        is_exported(state.loaded, import) && fits(
            state.store,
            exported(state.loaded, import),
            import,
        )
    }
}

/// Where something is there for every import, however many have the same module and type, linking succeeds,
/// and changes nothing.
pub proof fn what_is_there_is_linked(
    depth: nat,
    world: LinkWorld,
    before: LinkState<'_>,
    module: NamedModule,
    tree: Seq<Seq<char>>,
    count: nat,
    outcome: Definitions,
    after: LinkState<'_>,
)
    requires
        count <= engine::module_imports(module.module).len(),
        forall|i: int|
            0 <= i < count ==> is_there(
                world,
                before,
                #[trigger] engine::module_imports(module.module)[i],
            ),
        link::links(depth, world, before, module, tree, count, outcome, after),
    ensures
        outcome is Ok,
        after == before,
        forall|i: int|
            0 <= i < count ==> outcome->Ok_0.contains_key(
                (
                    (#[trigger] engine::module_imports(module.module)[i]).module,
                    engine::module_imports(module.module)[i].name,
                ),
            ),
        forall|i: int|
            0 <= i < count ==> outcome->Ok_0[(
                (#[trigger] engine::module_imports(module.module)[i]).module,
                engine::module_imports(module.module)[i].name,
            )] == (if is_hosted(world, engine::module_imports(module.module)[i]) {
                hosted(world, engine::module_imports(module.module)[i])
            } else {
                exported(before.loaded, engine::module_imports(module.module)[i])
            }),
    decreases count,
{
    let imports = engine::module_imports(module.module);
    if count > 0 {
        let last = count - 1;
        let (earlier, between) = link::import_steps(
            depth,
            world,
            before,
            module,
            tree,
            count,
            outcome,
            after,
        );
        what_is_there_is_linked(
            depth,
            world,
            before,
            module,
            tree,
            (count - 1) as nat,
            earlier,
            between,
        );
        assert(is_there(world, before, imports[last]));
        assert(!link::clashes(imports, last));
        let key = (imports[last].module, imports[last].name);
        assert(key == engine::import_key(imports[last]));
        assert forall|i: int| 0 <= i < count implies outcome->Ok_0.contains_key(
            ((#[trigger] imports[i]).module, imports[i].name),
        ) && outcome->Ok_0[(imports[i].module, imports[i].name)] == (if is_hosted(
            world,
            imports[i],
        ) {
            hosted(world, imports[i])
        } else {
            exported(before.loaded, imports[i])
        }) by {
            if i < last {
                assert(earlier->Ok_0.contains_key((imports[i].module, imports[i].name)));
            }
        }
    }
}

/// Whether a module was instantiated with its imports, and runs by its name from then on. All others that
/// run are left alone.
pub open spec fn was_instantiated(
    before: LinkState<'_>,
    module: NamedModule,
    imports: Map<(Seq<char>, Seq<char>), Extern>,
    outcome: Result<(), LinkProblem>,
    after: LinkState<'_>,
) -> bool {
    match outcome {
        Ok(_) => exists|instance: Instance|
            #[trigger] engine::instantiation(
                before.store,
                module.module,
                imports,
                Ok(instance),
                after.store,
            ) && after.loaded == before.loaded.insert(module.name@, instance),
        Err(LinkProblem::Wasmer(err)) => engine::instantiation(
            before.store,
            module.module,
            imports,
            Err(err),
            after.store,
        ) && after.loaded == before.loaded,
        Err(_) => false,
    }
}

/// A module that runs already is not started again, and one that waits for itself is not started at all. Any
/// other is instantiated, once, with its imports as they have been defined, or fails as they do.
pub proof fn modules_are_instantiated_with_their_imports(
    depth: nat,
    world: LinkWorld,
    before: LinkState<'_>,
    module: NamedModule,
    tree: Seq<Seq<char>>,
    outcome: Result<(), LinkProblem>,
    after: LinkState<'_>,
)
    requires
        link::starts(depth, world, before, module, tree, outcome, after),
    ensures
        before.loaded.contains_key(module.name@) ==> outcome is Ok && after == before,
        !before.loaded.contains_key(module.name@) && tree.contains(module.name@) ==> outcome
            == Err::<(), LinkProblem>(LinkProblem::CyclicDependency) && after == before,
        !before.loaded.contains_key(module.name@) && !tree.contains(module.name@) ==> exists|
            defined: Definitions,
            between: LinkState<'_>,
        |
            #[trigger] link::links(
                depth,
                world,
                before,
                module,
                tree,
                engine::module_imports(module.module).len(),
                defined,
                between,
            ) && match defined {
                Ok(imports) => was_instantiated(between, module, imports, outcome, after),
                Err(problem) => outcome == Err::<(), LinkProblem>(problem) && after == between,
            },
{
    if !before.loaded.contains_key(module.name@) && !tree.contains(module.name@) {
        let (defined, between) = link::start_steps(
            depth,
            world,
            before,
            module,
            tree,
            outcome,
            after,
        );
        if let Ok(imports) = defined {
            let started = choose|started: Result<Instance, InstantiationError>| #[trigger]
                engine::instantiation(
                    between.store,
                    module.module,
                    imports,
                    started,
                    after.store,
                ) && match started {
                    Ok(instance) => {
                        &&& outcome == Ok::<(), LinkProblem>(())
                        &&& after.loaded == between.loaded.insert(module.name@, instance)
                        &&& engine::all_defined(engine::module_imports(module.module), imports)
                    },
                    Err(err) => {
                        &&& outcome == Err::<(), LinkProblem>(LinkProblem::Wasmer(err))
                        &&& after.loaded == between.loaded
                    },
                };
            match started {
                Ok(instance) => {
                    assert(engine::instantiation(
                        between.store,
                        module.module,
                        imports,
                        Ok(instance),
                        after.store,
                    ));
                },
                Err(err) => {
                    assert(engine::instantiation(
                        between.store,
                        module.module,
                        imports,
                        Err(err),
                        after.store,
                    ));
                },
            }
        }
    }
}

} // verus!
