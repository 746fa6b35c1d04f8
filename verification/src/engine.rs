//! The WebAssembly engine, as the rest of the library sees it.
//!
//! Everything here that carries `external_body` calls into `wasmer`: its contract says what is
//! relied on, and is not proved. The spec functions without a body name what a `wasmer` value holds,
//! or which outcomes a call into guest code may have.
use vstd::prelude::*;
use wasmer::{
    AsStoreMut, Extern, ExternType, Imports, Instance, Memory, MemoryError, Module, RuntimeError,
    Store, StoreMut,
};
use wasmer_types::StoreId;

verus! {

/// Everything that WebAssembly programs can change.
#[verifier::external_type_specification]
#[verifier::external_body]
pub struct ExStore(wasmer::Store);

/// A handle on everything that WebAssembly programs can change.
#[verifier::external_type_specification]
#[verifier::external_body]
pub struct ExStoreMut<'a>(wasmer::StoreMut<'a>);

/// What tells one store from another.
#[verifier::external_type_specification]
#[verifier::external_body]
pub struct ExStoreId(wasmer_types::StoreId);

/// A compiled module.
#[verifier::external_type_specification]
#[verifier::external_body]
pub struct ExModule(wasmer::Module);

/// A module that runs in a store.
#[verifier::external_type_specification]
#[verifier::external_body]
pub struct ExInstance(wasmer::Instance);

/// Something that an instance exports or a module imports.
#[verifier::external_type_specification]
#[verifier::external_body]
pub struct ExExtern(wasmer::Extern);

/// The type of an [`Extern`].
#[verifier::external_type_specification]
#[verifier::external_body]
pub struct ExExternType(wasmer::ExternType);

/// A linear memory.
#[verifier::external_type_specification]
#[verifier::external_body]
pub struct ExMemory(wasmer::Memory);

/// What a module is linked against.
#[verifier::external_type_specification]
#[verifier::external_body]
pub struct ExImports(wasmer::Imports);

/// A trap, or another failure of running guest code.
#[verifier::external_type_specification]
#[verifier::external_body]
pub struct ExRuntimeError(wasmer::RuntimeError);

/// Why a module could not be instantiated.
#[verifier::external_type_specification]
#[verifier::external_body]
pub struct ExInstantiationError(wasmer::InstantiationError);

/// Why a memory could not be made.
#[verifier::external_type_specification]
#[verifier::external_body]
pub struct ExMemoryError(wasmer::MemoryError);

/// Why bytes are not a module.
#[verifier::external_type_specification]
#[verifier::external_body]
pub struct ExCompileError(wasmer::CompileError);

/// A value that functions of the host share, kept in a store.
#[verifier::external_type_specification]
#[verifier::external_body]
#[verifier::reject_recursive_types(T)]
pub struct ExFunctionEnv<T>(wasmer::FunctionEnv<T>);

/// The type of a WebAssembly value.
#[derive(Clone, Copy, PartialEq, Eq, Structural, Debug)]
pub enum ValueKind {
    I32,
    I64,
    F32,
    F64,
    V128,
    ExternRef,
    FuncRef,
    ExceptionRef,
}

/// The limits of a memory, in pages.
#[derive(Clone, Copy, Debug)]
pub struct MemoryLimits {
    pub minimum: u32,
    pub maximum: Option<u32>,
    pub shared: bool,
}

/// How a memory is laid out in the address space: its size where that is fixed beforehand, in pages,
/// and the guard behind it, in bytes.
pub struct MemoryStyle {
    pub bound: Option<u32>,
    pub guard: u64,
}

/// What an [`ExternType`] says.
pub enum ExternShape {
    Function { params: Seq<ValueKind>, results: Seq<ValueKind> },
    Global { kind: ValueKind, mutable: bool },
    Table { kind: ValueKind, minimum: u32, maximum: Option<u32> },
    Memory(MemoryLimits),
    Tag { params: Seq<ValueKind> },
}

/// Why an export cannot be used.
#[derive(Debug)]
pub enum ExportError {
    /// The export is there, and is something else than what was asked for.
    IncompatibleType,
    /// There is no export of this name.
    Missing(String),
}

/// An [`ExportError`] up to the identity of its string.
pub enum ExportErrorView {
    IncompatibleType,
    Missing(Seq<char>),
}

impl View for ExportError {
    type V = ExportErrorView;

    open spec fn view(&self) -> ExportErrorView {
        match self {
            ExportError::IncompatibleType => ExportErrorView::IncompatibleType,
            ExportError::Missing(name) => ExportErrorView::Missing(name@),
        }
    }
}

/// Why bytes of a linear memory cannot be reached.
#[derive(Clone, Copy, PartialEq, Eq, Structural, Debug)]
pub enum MemoryAccessError {
    HeapOutOfBounds,
    Overflow,
    NonUtf8String,
    UnalignedPointerRead,
}

/// Why a call of a guest function gave no value.
#[derive(Debug)]
pub enum CallError {
    /// There is no such function, and nothing was called.
    Export(ExportError),
    /// The function was called and did not return.
    Runtime(RuntimeError),
}

/// How a call of a guest function ends.
pub enum CallOutcome {
    NotCallable(ExportErrorView),
    Trapped(RuntimeError),
    Returned(Seq<int>),
}

/// One import of a module.
#[derive(Debug)]
pub struct ImportSpec {
    pub module: String,
    pub name: String,
    pub ty: ExternType,
}

/// An [`ImportSpec`] as plain values.
pub struct ImportView {
    pub module: Seq<char>,
    pub name: Seq<char>,
    pub shape: ExternShape,
}

impl View for ImportSpec {
    type V = ImportView;

    open spec fn view(&self) -> ImportView {
        ImportView { module: self.module@, name: self.name@, shape: extern_shape(self.ty) }
    }
}

/// The identity of a store.
pub uninterp spec fn store_id(store: StoreMut<'_>) -> StoreId;

/// The identity of a store that is not open.
pub uninterp spec fn held_id(store: Store) -> StoreId;

/// The store that an instance runs in.
pub uninterp spec fn instance_store(instance: Instance) -> StoreId;

/// The store that an extern belongs to.
pub uninterp spec fn extern_store(external: Extern) -> StoreId;

/// The store that a memory belongs to.
pub uninterp spec fn memory_store(memory: Memory) -> StoreId;

/// What an instance exports, by name.
pub uninterp spec fn instance_exports(instance: Instance) -> Map<Seq<char>, Extern>;

/// The memory that an extern is, if it is one.
pub uninterp spec fn extern_memory(external: Extern) -> Option<Memory>;

/// A memory as an extern.
pub uninterp spec fn memory_as_extern(memory: Memory) -> Extern;

/// What a type says.
pub uninterp spec fn extern_shape(ty: ExternType) -> ExternShape;

/// The type that an extern has in the present state of its store.
pub uninterp spec fn extern_type(store: StoreMut<'_>, external: Extern) -> ExternShape;

/// The bytes of a linear memory in the present state of its store.
pub uninterp spec fn memory_data(store: StoreMut<'_>, memory: Memory) -> Seq<u8>;

/// How a memory is laid out.
pub uninterp spec fn memory_style(memory: Memory) -> MemoryStyle;

/// Whether a store is steady: its tunables announce the same each time and lay memories out as they
/// announce, without a panic; and nothing changes the name or the imports of a module that is compiled.
pub uninterp spec fn is_steady(store: StoreMut<'_>) -> bool;

/// Whether a store that is not open is steady.
pub uninterp spec fn stays_steady(store: Store) -> bool;

/// How a memory of these limits is laid out in a steady store.
pub uninterp spec fn store_style(store: StoreMut<'_>, limits: MemoryLimits) -> MemoryStyle;

/// How a memory of these limits is laid out in a steady store that is not open.
pub uninterp spec fn held_style(store: Store, limits: MemoryLimits) -> MemoryStyle;

/// How a module expects a memory of these limits to be laid out.
pub uninterp spec fn module_style(module: Module, limits: MemoryLimits) -> MemoryStyle;

/// What has been defined to link against: by namespace and name.
pub uninterp spec fn imports_of(imports: Imports) -> Map<(Seq<char>, Seq<char>), Extern>;

/// The name that a module bears.
pub uninterp spec fn module_name(module: Module) -> Option<Seq<char>>;

/// A module under another name.
pub uninterp spec fn renamed(module: Module, name: Seq<char>) -> Module;

/// The name that is written in the bytes of a module.
pub uninterp spec fn written_name(data: Seq<u8>) -> Option<Seq<char>>;

/// The imports that are written in the bytes of a module, in their order.
pub uninterp spec fn written_imports(data: Seq<u8>) -> Seq<ImportView>;

/// Whether giving a module a name may end so: accepted or not, with this module.
pub uninterp spec fn naming(before: Module, name: Seq<char>, accepted: bool, after: Module) -> bool;

/// The imports of a module, in their order.
pub uninterp spec fn module_imports(module: Module) -> Seq<ImportView>;

/// Whether calling the function `name` of `instance` in the state `before` may end in `outcome` and
/// leave the state `after`. Guest code decides; nothing says that only one outcome is possible.
pub uninterp spec fn guest_call(
    before: StoreMut<'_>,
    instance: Instance,
    name: Seq<char>,
    args: Seq<i64>,
    outcome: CallOutcome,
    after: StoreMut<'_>,
) -> bool;

/// Whether instantiating `module` against `imports` in the state `before` may end in `outcome` and
/// leave the state `after`.
pub uninterp spec fn instantiation(
    before: StoreMut<'_>,
    module: Module,
    imports: Map<(Seq<char>, Seq<char>), Extern>,
    outcome: Result<Instance, wasmer::InstantiationError>,
    after: StoreMut<'_>,
) -> bool;

/// Whether asking for a memory of these limits in the state `before` may end in `outcome` and leave
/// the state `after`.
pub uninterp spec fn memory_creation(
    before: StoreMut<'_>,
    limits: MemoryLimits,
    outcome: Result<Memory, MemoryError>,
    after: StoreMut<'_>,
) -> bool;

/// Whether compiling `data` with the engine of `store` may end in `outcome`.
pub uninterp spec fn compilation(
    store: StoreMut<'_>,
    data: Seq<u8>,
    outcome: Result<Module, wasmer::CompileError>,
) -> bool;

/// Whether a handle is one on a store.
pub open spec fn is_open(store: Store, opened: StoreMut<'_>) -> bool {
    &&& store_id(opened) == held_id(store)
    &&& stays_steady(store) ==> is_steady(opened) && forall|limits: MemoryLimits| #[trigger]
        store_style(opened, limits) == held_style(store, limits)
}

/// Whether a store is still the same, and memories are still laid out in it as before.
pub open spec fn is_still(before: Store, after: Store) -> bool {
    &&& held_id(after) == held_id(before)
    &&& stays_steady(before) ==> stays_steady(after) && forall|limits: MemoryLimits| #[trigger]
        held_style(after, limits) == held_style(before, limits)
}

/// Whether a state of a store may come after another: it is the same store, memories are laid out in
/// it as before, and functions that are in it keep their types.
pub open spec fn continues(before: StoreMut<'_>, after: StoreMut<'_>) -> bool {
    &&& store_id(after) == store_id(before)
    &&& is_steady(before) ==> is_steady(after) && forall|limits: MemoryLimits| #[trigger]
        store_style(after, limits) == store_style(before, limits)
    &&& forall|external: Extern| #[trigger]
        extern_type(before, external) is Function ==> extern_type(after, external) == extern_type(
            before,
            external,
        )
}

/// Whether a state of a store may come after another when something has been added to it and nothing
/// has run: no memory has changed.
pub open spec fn extends(before: StoreMut<'_>, after: StoreMut<'_>) -> bool {
    &&& continues(before, after)
    &&& forall|memory: Memory| #[trigger]
        memory_data(after, memory) == memory_data(before, memory)
}

/// Whether a module expects memories to be laid out as they are in a store, which is steady.
pub open spec fn is_compiled_for(store: StoreMut<'_>, module: Module) -> bool {
    &&& is_steady(store)
    &&& forall|limits: MemoryLimits| #[trigger]
        module_style(module, limits) == store_style(store, limits)
}

/// Whether a memory that is laid out in one way serves where another is expected.
pub open spec fn style_serves(given: MemoryStyle, expected: MemoryStyle) -> bool {
    &&& given.guard >= expected.guard
    &&& given.bound matches Some(bound) ==> expected.bound matches Some(least) ==> bound >= least
}

/// Whether an import that is a memory, where one of its type is given, is laid out as the module
/// expects.
pub open spec fn memory_serves(
    store: StoreMut<'_>,
    module: Module,
    import: ImportView,
    given: Map<(Seq<char>, Seq<char>), Extern>,
) -> bool {
    let external = given[import_key(import)];
    match (import.shape, extern_memory(external)) {
        (ExternShape::Memory(limits), Some(memory)) => {
            ||| !given.contains_key(import_key(import))
            ||| !compatible(extern_type(store, external), import.shape)
            ||| style_serves(memory_style(memory), module_style(module, limits))
        },
        _ => true,
    }
}

/// The parameter types of a function of `n` 64-bit integers.
pub open spec fn longs(n: nat) -> Seq<ValueKind> {
    Seq::new(n, |i: int| ValueKind::I64)
}

/// The arguments of a function that takes none.
pub open spec fn no_args() -> Seq<i64> {
    Seq::empty()
}

/// One argument.
pub open spec fn one_arg(arg: i64) -> Seq<i64> {
    seq![arg]
}

/// Two arguments.
pub open spec fn two_args(first: i64, second: i64) -> Seq<i64> {
    seq![first, second]
}

/// The result types of a function that gives nothing.
pub open spec fn no_result() -> Seq<ValueKind> {
    Seq::empty()
}

/// The result types of a function that gives a 64-bit integer.
pub open spec fn long_result() -> Seq<ValueKind> {
    seq![ValueKind::I64]
}

/// The result types of a function that gives a 32-bit integer.
pub open spec fn int_result() -> Seq<ValueKind> {
    seq![ValueKind::I32]
}

/// Why `name` is no function of these types in `instance`, if it is none.
pub open spec fn export_problem(
    store: StoreMut<'_>,
    instance: Instance,
    name: Seq<char>,
    params: Seq<ValueKind>,
    results: Seq<ValueKind>,
) -> Option<ExportErrorView> {
    if !instance_exports(instance).contains_key(name) {
        Some(ExportErrorView::Missing(name))
    } else if extern_type(store, instance_exports(instance)[name]) != (ExternShape::Function {
        params,
        results,
    }) {
        Some(ExportErrorView::IncompatibleType)
    } else {
        None
    }
}

/// What a call of the function `name` of `instance` does: where there is no function of these
/// types, nothing; else what guest code decides.
pub open spec fn calls(
    before: StoreMut<'_>,
    instance: Instance,
    name: Seq<char>,
    args: Seq<i64>,
    results: Seq<ValueKind>,
    outcome: CallOutcome,
    after: StoreMut<'_>,
) -> bool {
    match export_problem(before, instance, name, longs(args.len()), results) {
        Some(problem) => outcome == CallOutcome::NotCallable(problem) && after == before,
        None => {
            &&& outcome !is NotCallable
            &&& guest_call(before, instance, name, args, outcome, after)
            &&& continues(before, after)
        },
    }
}

/// The outcome behind what a call without a result gave.
pub open spec fn unit_outcome(result: Result<(), CallError>) -> CallOutcome {
    match result {
        Ok(_) => CallOutcome::Returned(Seq::empty()),
        Err(CallError::Export(problem)) => CallOutcome::NotCallable(problem@),
        Err(CallError::Runtime(trap)) => CallOutcome::Trapped(trap),
    }
}

/// The outcome behind what a call with a 64-bit result gave.
pub open spec fn long_outcome(result: Result<i64, CallError>) -> CallOutcome {
    match result {
        Ok(value) => CallOutcome::Returned(seq![value as int]),
        Err(CallError::Export(problem)) => CallOutcome::NotCallable(problem@),
        Err(CallError::Runtime(trap)) => CallOutcome::Trapped(trap),
    }
}

/// The outcome behind what a call with a 32-bit result gave.
pub open spec fn int_outcome(result: Result<i32, CallError>) -> CallOutcome {
    match result {
        Ok(value) => CallOutcome::Returned(seq![value as int]),
        Err(CallError::Export(problem)) => CallOutcome::NotCallable(problem@),
        Err(CallError::Runtime(trap)) => CallOutcome::Trapped(trap),
    }
}

/// The memory that an instance exports under a name, or why there is none.
pub open spec fn memory_export(instance: Instance, name: Seq<char>) -> Result<
    Memory,
    ExportErrorView,
> {
    if !instance_exports(instance).contains_key(name) {
        Err(ExportErrorView::Missing(name))
    } else {
        match extern_memory(instance_exports(instance)[name]) {
            Some(memory) => Ok(memory),
            None => Err(ExportErrorView::IncompatibleType),
        }
    }
}

/// What there is to link against when nothing has been defined.
pub open spec fn no_definitions() -> Map<(Seq<char>, Seq<char>), Extern> {
    Map::empty()
}

/// Whether there is something to link each import against.
pub open spec fn all_defined(
    wanted: Seq<ImportView>,
    given: Map<(Seq<char>, Seq<char>), Extern>,
) -> bool {
    forall|i: int| 0 <= i < wanted.len() ==> given.contains_key(import_key(#[trigger] wanted[i]))
}

/// What an import is looked up by.
pub open spec fn import_key(import: ImportView) -> (Seq<char>, Seq<char>) {
    (import.module, import.name)
}

/// The bytes from `start` up to `end`, or to where the memory ends.
pub open spec fn clamped_range(data: Seq<u8>, start: u64, end: u64) -> Seq<u8> {
    let stop = if end <= data.len() { end as int } else { data.len() as int };
    if start < stop { data.subrange(start as int, stop) } else { Seq::empty() }
}

/// `data` with `bytes` written over it from `start` on.
pub open spec fn overwritten(data: Seq<u8>, start: u64, bytes: Seq<u8>) -> Seq<u8> {
    data.subrange(0, start as int) + bytes + data.subrange(start + bytes.len(), data.len() as int)
}

/// Why `length` bytes cannot be written from `start` on, if they cannot.
pub open spec fn write_problem(size: nat, start: u64, length: nat) -> Option<MemoryAccessError> {
    if start + length > u64::MAX {
        Some(MemoryAccessError::Overflow)
    } else if start + length > size {
        Some(MemoryAccessError::HeapOutOfBounds)
    } else {
        None
    }
}

/// Whether an upper limit that an export has is good for an import.
pub open spec fn maximum_fits(exported: Option<u32>, imported: Option<u32>) -> bool {
    imported matches Some(wanted) ==> (exported matches Some(given) && wanted >= given)
}

/// Whether an export of one type serves an import of another.
pub open spec fn compatible(exported: ExternShape, imported: ExternShape) -> bool {
    match (exported, imported) {
        (ExternShape::Function { .. }, ExternShape::Function { .. }) => exported == imported,
        (ExternShape::Global { .. }, ExternShape::Global { .. }) => exported == imported,
        (
            ExternShape::Table { kind, minimum, maximum },
            ExternShape::Table { kind: wanted, minimum: least, maximum: most },
        ) => {
            &&& kind == ValueKind::FuncRef || kind == wanted
            &&& least <= minimum
            &&& maximum_fits(maximum, most)
        },
        (ExternShape::Memory(given), ExternShape::Memory(wanted)) => {
            &&& wanted.minimum <= given.minimum
            &&& maximum_fits(given.maximum, wanted.maximum)
            &&& given.shared == wanted.shared
        },
        (ExternShape::Tag { .. }, ExternShape::Tag { .. }) => exported == imported,
        _ => false,
    }
}

/// A call of a guest function from one 64-bit integer to one.
///
/// Calls `Exports::get_typed_function` and `TypedFunction::call`. The first finds the function by
/// its name and compares its type, and tells a missing export from one of another type. The second
/// runs guest code, of which nothing is claimed but that the store stays the same one and
/// that no function in it changes its type.
#[verifier::external_body]
pub(crate) fn call_long_to_long(
    store: &mut StoreMut<'_>,
    instance: &Instance,
    name: &str,
    arg: i64,
) -> (result: Result<i64, CallError>)
    requires
        instance_store(*instance) == store_id(*old(store)),
    ensures
        match export_problem(*old(store), *instance, name@, longs(1), long_result()) {
            Some(problem) => {
                &&& long_outcome(result) == CallOutcome::NotCallable(problem)
                &&& *final(store) == *old(store)
            },
            None => {
                &&& long_outcome(result) !is NotCallable
                &&& guest_call(*old(store), *instance, name@, one_arg(arg), long_outcome(result), *final(store))
                &&& continues(*old(store), *final(store))
            },
        },
{
    let function = instance.exports.get_typed_function::<i64, i64>(store, name).map_err(
        |err| match err {
            wasmer::ExportError::IncompatibleType => CallError::Export(ExportError::IncompatibleType),
            wasmer::ExportError::Missing(name) => CallError::Export(ExportError::Missing(name)),
        },
    )?;
    function.call(store, arg).map_err(CallError::Runtime)
}

/// A call of a guest function of one 64-bit integer, without a result.
///
/// Calls `Exports::get_typed_function` and `TypedFunction::call`. The first finds the function by
/// its name and compares its type, and tells a missing export from one of another type. The second
/// runs guest code, of which nothing is claimed but that the store stays the same one and
/// that no function in it changes its type.
#[verifier::external_body]
pub(crate) fn call_long(
    store: &mut StoreMut<'_>,
    instance: &Instance,
    name: &str,
    arg: i64,
) -> (result: Result<(), CallError>)
    requires
        instance_store(*instance) == store_id(*old(store)),
    ensures
        match export_problem(*old(store), *instance, name@, longs(1), no_result()) {
            Some(problem) => {
                &&& unit_outcome(result) == CallOutcome::NotCallable(problem)
                &&& *final(store) == *old(store)
            },
            None => {
                &&& unit_outcome(result) !is NotCallable
                &&& guest_call(*old(store), *instance, name@, one_arg(arg), unit_outcome(result), *final(store))
                &&& continues(*old(store), *final(store))
            },
        },
{
    let function = instance.exports.get_typed_function::<i64, ()>(store, name).map_err(
        |err| match err {
            wasmer::ExportError::IncompatibleType => CallError::Export(ExportError::IncompatibleType),
            wasmer::ExportError::Missing(name) => CallError::Export(ExportError::Missing(name)),
        },
    )?;
    function.call(store, arg).map_err(CallError::Runtime)
}

/// A call of a guest function of two 64-bit integers, without a result.
///
/// Calls `Exports::get_typed_function` and `TypedFunction::call`. The first finds the function by
/// its name and compares its type, and tells a missing export from one of another type. The second
/// runs guest code, of which nothing is claimed but that the store stays the same one and
/// that no function in it changes its type.
#[verifier::external_body]
pub(crate) fn call_long_long(
    store: &mut StoreMut<'_>,
    instance: &Instance,
    name: &str,
    first: i64,
    second: i64,
) -> (result: Result<(), CallError>)
    requires
        instance_store(*instance) == store_id(*old(store)),
    ensures
        match export_problem(*old(store), *instance, name@, longs(2), no_result()) {
            Some(problem) => {
                &&& unit_outcome(result) == CallOutcome::NotCallable(problem)
                &&& *final(store) == *old(store)
            },
            None => {
                &&& unit_outcome(result) !is NotCallable
                &&& guest_call(*old(store), *instance, name@, two_args(first, second), unit_outcome(result), *final(store))
                &&& continues(*old(store), *final(store))
            },
        },
{
    let function = instance.exports.get_typed_function::<(i64, i64), ()>(store, name).map_err(
        |err| match err {
            wasmer::ExportError::IncompatibleType => CallError::Export(ExportError::IncompatibleType),
            wasmer::ExportError::Missing(name) => CallError::Export(ExportError::Missing(name)),
        },
    )?;
    function.call(store, first, second).map_err(CallError::Runtime)
}

/// A call of a guest function without parameters that gives a 64-bit integer.
///
/// Calls `Exports::get_typed_function` and `TypedFunction::call`. The first finds the function by
/// its name and compares its type, and tells a missing export from one of another type. The second
/// runs guest code, of which nothing is claimed but that the store stays the same one and
/// that no function in it changes its type.
#[verifier::external_body]
pub(crate) fn call_to_long(
    store: &mut StoreMut<'_>,
    instance: &Instance,
    name: &str,
) -> (result: Result<i64, CallError>)
    requires
        instance_store(*instance) == store_id(*old(store)),
    ensures
        match export_problem(*old(store), *instance, name@, longs(0), long_result()) {
            Some(problem) => {
                &&& long_outcome(result) == CallOutcome::NotCallable(problem)
                &&& *final(store) == *old(store)
            },
            None => {
                &&& long_outcome(result) !is NotCallable
                &&& guest_call(*old(store), *instance, name@, no_args(), long_outcome(result), *final(store))
                &&& continues(*old(store), *final(store))
            },
        },
{
    let function = instance.exports.get_typed_function::<(), i64>(store, name).map_err(
        |err| match err {
            wasmer::ExportError::IncompatibleType => CallError::Export(ExportError::IncompatibleType),
            wasmer::ExportError::Missing(name) => CallError::Export(ExportError::Missing(name)),
        },
    )?;
    function.call(store).map_err(CallError::Runtime)
}

/// A call of a guest function without parameters that gives a 32-bit integer.
///
/// Calls `Exports::get_typed_function` and `TypedFunction::call`. The first finds the function by
/// its name and compares its type, and tells a missing export from one of another type. The second
/// runs guest code, of which nothing is claimed but that the store stays the same one and
/// that no function in it changes its type.
#[verifier::external_body]
pub(crate) fn call_to_int(
    store: &mut StoreMut<'_>,
    instance: &Instance,
    name: &str,
) -> (result: Result<i32, CallError>)
    requires
        instance_store(*instance) == store_id(*old(store)),
    ensures
        match export_problem(*old(store), *instance, name@, longs(0), int_result()) {
            Some(problem) => {
                &&& int_outcome(result) == CallOutcome::NotCallable(problem)
                &&& *final(store) == *old(store)
            },
            None => {
                &&& int_outcome(result) !is NotCallable
                &&& guest_call(*old(store), *instance, name@, no_args(), int_outcome(result), *final(store))
                &&& continues(*old(store), *final(store))
            },
        },
{
    let function = instance.exports.get_typed_function::<(), i32>(store, name).map_err(
        |err| match err {
            wasmer::ExportError::IncompatibleType => CallError::Export(ExportError::IncompatibleType),
            wasmer::ExportError::Missing(name) => CallError::Export(ExportError::Missing(name)),
        },
    )?;
    function.call(store).map_err(CallError::Runtime)
}

/// Which store this is.
///
/// Calls `StoreObjects::id`, which hands out a field of the store.
#[verifier::external_body]
pub(crate) fn current_store(store: &mut StoreMut<'_>) -> (result: StoreId)
    ensures
        result == store_id(*old(store)),
        *final(store) == *old(store),
{
    store.objects_mut().id()
}

/// Whether two identities are one.
///
/// Calls `StoreId::eq`, which compares the numbers that identities are.
#[verifier::external_body]
pub(crate) fn same_store(left: StoreId, right: StoreId) -> (result: bool)
    ensures
        result == (left == right),
{
    left == right
}

/// The memory that an instance exports under a name.
///
/// Calls `Exports::get_memory`: an export that is no memory is of an incompatible type. An export
/// belongs to the store of its instance.
#[verifier::external_body]
pub(crate) fn exported_memory(instance: &Instance, name: &str) -> (result: Result<
    Memory,
    ExportError,
>)
    ensures
        match memory_export(*instance, name@) {
            Ok(memory) => result == Ok::<Memory, ExportError>(memory) && memory_store(memory)
                == instance_store(*instance),
            Err(problem) => result matches Err(err) && err@ == problem,
        },
{
    instance.exports.get_memory(name).cloned().map_err(
        |err| match err {
            wasmer::ExportError::IncompatibleType => ExportError::IncompatibleType,
            wasmer::ExportError::Missing(name) => ExportError::Missing(name),
        },
    )
}

/// What an instance exports under a name.
///
/// Calls `Exports::get_extern`, a look-up by name. An export belongs to the store of its instance.
#[verifier::external_body]
pub(crate) fn exported_extern(instance: &Instance, name: &str) -> (result: Option<Extern>)
    ensures
        result == instance_exports(*instance).get(name@),
        result matches Some(external) ==> extern_store(external) == instance_store(*instance),
{
    instance.exports.get_extern(name).cloned()
}

/// Everything that an instance exports.
///
/// Calls `Exports::iter`: each export comes once, under its name. An export belongs to the store of
/// its instance.
#[verifier::external_body]
pub(crate) fn all_exports(instance: &Instance) -> (result: Vec<(String, Extern)>)
    ensures
        forall|i: int|
            0 <= i < result@.len() ==> {
                &&& instance_exports(*instance).contains_key(#[trigger] result@[i].0@)
                &&& instance_exports(*instance)[result@[i].0@] == result@[i].1
                &&& extern_store(result@[i].1) == instance_store(*instance)
            },
        forall|name: Seq<char>| #[trigger]
            instance_exports(*instance).contains_key(name) ==> exists|i: int|
                0 <= i < result@.len() && #[trigger] result@[i].0@ == name,
        forall|i: int, j: int|
            0 <= i < j < result@.len() ==> #[trigger] result@[i].0@ != #[trigger] result@[j].0@,
{
    instance.exports.iter().map(|(name, external)| (name.clone(), external.clone())).collect()
}

/// Copies bytes into a linear memory.
///
/// Calls `MemoryView::write`: it fails when the end of the range is no `u64` or lies beyond the
/// memory, and then writes nothing. It is relied on that nobody else writes to the memory meanwhile.
#[verifier::external_body]
pub(crate) fn write_memory(
    store: &mut StoreMut<'_>,
    memory: &Memory,
    offset: u64,
    data: &[u8],
) -> (result: Result<(), MemoryAccessError>)
    requires
        memory_store(*memory) == store_id(*old(store)),
    ensures
        continues(*old(store), *final(store)),
        match write_problem(memory_data(*old(store), *memory).len(), offset, data@.len()) {
            Some(problem) => {
                &&& result == Err::<(), MemoryAccessError>(problem)
                &&& *final(store) == *old(store)
            },
            None => {
                &&& result is Ok
                &&& memory_data(*final(store), *memory) == overwritten(
                    memory_data(*old(store), *memory),
                    offset,
                    data@,
                )
            },
        },
{
    memory.view(store).write(offset, data).map_err(
        |err| match err {
            wasmer::MemoryAccessError::HeapOutOfBounds => MemoryAccessError::HeapOutOfBounds,
            wasmer::MemoryAccessError::Overflow => MemoryAccessError::Overflow,
            wasmer::MemoryAccessError::UnalignedPointerRead => MemoryAccessError::UnalignedPointerRead,
            _ => MemoryAccessError::NonUtf8String,
        },
    )
}

/// Copies a range out of a linear memory.
///
/// Calls `MemoryView::copy_range_to_vec`, which stops where the memory ends: what it reads lies
/// within the memory, so that no read fails. It is relied on that nobody else writes to the memory
/// meanwhile.
#[verifier::external_body]
pub(crate) fn read_memory(store: &StoreMut<'_>, memory: &Memory, start: u64, end: u64) -> (result:
    Vec<u8>)
    requires
        memory_store(*memory) == store_id(*store),
    ensures
        result@ == clamped_range(memory_data(*store, *memory), start, end),
{
    memory.view(store).copy_range_to_vec(start..end).unwrap()
}

/// A new memory.
///
/// Calls `Memory::new`, which asks the tunables of the store how to lay the memory out, and then for
/// the memory. Whether there is room for it is not claimed, nor that it has the limits asked for: the
/// tunables may give another one.
#[verifier::external_body]
pub(crate) fn new_memory(store: &mut StoreMut<'_>, limits: MemoryLimits) -> (result: Result<
    Memory,
    MemoryError,
>)
    requires
        is_steady(*old(store)),
    ensures
        memory_creation(*old(store), limits, result, *final(store)),
        continues(*old(store), *final(store)),
        result matches Ok(memory) ==> {
            &&& memory_store(memory) == store_id(*final(store))
            &&& memory_style(memory) == store_style(*old(store), limits)
            &&& extern_type(*final(store), memory_as_extern(memory)) is Memory
        },
{
    Memory::new(
        store,
        wasmer::MemoryType::new(limits.minimum, limits.maximum, limits.shared),
    )
}

/// A memory as an extern.
///
/// Calls `Extern::from`, which keeps the memory and the store that it belongs to.
#[verifier::external_body]
pub(crate) fn memory_to_extern(memory: Memory) -> (result: Extern)
    ensures
        result == memory_as_extern(memory),
        extern_memory(result) == Some(memory),
        extern_store(result) == memory_store(memory),
{
    Extern::from(memory)
}

/// Another handle on the same instance.
///
/// Calls `Instance::clone`, which copies the handle and not what it stands for.
#[verifier::external_body]
pub(crate) fn copy_instance(instance: &Instance) -> (result: Instance)
    ensures
        result == *instance,
{
    instance.clone()
}

/// Another handle on the same extern.
///
/// Calls `Extern::clone`, which copies the handle and not what it stands for.
#[verifier::external_body]
pub(crate) fn copy_extern(external: &Extern) -> (result: Extern)
    ensures
        result == *external,
{
    external.clone()
}

/// Nothing to link against.
///
/// Calls `Imports::new`.
#[verifier::external_body]
pub(crate) fn new_imports() -> (result: Imports)
    ensures
        imports_of(result) == no_definitions(),
{
    Imports::new()
}

/// Adds something to link against, in place of what had the same namespace and name.
///
/// Calls `Imports::define`.
#[verifier::external_body]
pub(crate) fn define_import(imports: &mut Imports, namespace: &str, name: &str, external: Extern)
    ensures
        imports_of(*final(imports)) == imports_of(*old(imports)).insert(
            (namespace@, name@),
            external,
        ),
{
    imports.define(namespace, name, external)
}

/// Instantiates a module.
///
/// Calls `Instance::new`: it looks every import of the module up in `imports`, and fails where one
/// is not there; and it runs the start function, of which nothing is claimed. The new instance runs
/// in the given store. Memories of the right type have to be laid out as the module expects.
#[verifier::external_body]
pub(crate) fn new_instance(store: &mut StoreMut<'_>, module: &Module, imports: &Imports) -> (result:
    Result<Instance, wasmer::InstantiationError>)
    requires
        forall|i: int|
            0 <= i < module_imports(*module).len() ==> memory_serves(
                *old(store),
                *module,
                #[trigger] module_imports(*module)[i],
                imports_of(*imports),
            ),
    ensures
        instantiation(*old(store), *module, imports_of(*imports), result, *final(store)),
        continues(*old(store), *final(store)),
        result matches Ok(instance) ==> instance_store(instance) == store_id(*final(store)),
        result is Ok ==> all_defined(module_imports(*module), imports_of(*imports)),
{
    Instance::new(store, module, imports)
}

/// A new store.
///
/// Calls `Store::default`, which takes the tunables that `wasmer` has for the machine at hand. These
/// compute a style from the limits alone, and make memories of the style that they are given; its
/// bound is never below a minimum that they accept. There is no middleware that could change a module.
/// How memories are laid out is not claimed.
#[verifier::external_body]
pub(crate) fn default_store() -> (result: Store)
    ensures
        stays_steady(result),
{
    Store::default()
}

/// Opens a store.
///
/// Calls `as_store_mut` of `Store`. The handle is one on the same store. Nothing that can be done with
/// a handle changes the tunables of the store, which lay memories out.
#[verifier::external_body]
pub(crate) fn open<'a>(store: &'a mut Store) -> (result: StoreMut<'a>)
    ensures
        store_id(result) == held_id(*old(store)),
        stays_steady(*old(store)) ==> is_steady(result) && forall|limits: MemoryLimits| #[trigger]
            store_style(result, limits) == held_style(*old(store), limits),
        held_id(*final(store)) == held_id(*old(store)),
        stays_steady(*old(store)) ==> stays_steady(*final(store)) && forall|limits: MemoryLimits|
         #[trigger]
            held_style(*final(store), limits) == held_style(*old(store), limits),
{
    store.as_store_mut()
}

/// Compiles a module from its binary or its text format.
///
/// Calls `Module::new`. Which bytes are a module is not claimed. Of a steady store: the module bears the
/// name and has the imports that are written in its bytes, and expects memories to be laid out as the
/// tunables of the store announce.
#[verifier::external_body]
pub(crate) fn compile(store: &StoreMut<'_>, data: &[u8]) -> (result: Result<
    Module,
    wasmer::CompileError,
>)
    ensures
        compilation(*store, data@, result),
        is_steady(*store) ==> (result matches Ok(module) ==> {
            &&& module_name(module) == written_name(data@)
            &&& module_imports(module) == written_imports(data@)
            &&& forall|limits: MemoryLimits| #[trigger]
                module_style(module, limits) == store_style(*store, limits)
        }),
{
    Module::new(store, data)
}

/// The name that a module bears.
///
/// Calls `Module::name`.
#[verifier::external_body]
pub(crate) fn name_of(module: &Module) -> (result: Option<String>)
    ensures
        match module_name(*module) {
            Some(name) => result matches Some(text) && text@ == name,
            None => result is None,
        },
{
    module.name().map(String::from)
}

/// Gives a module another name.
///
/// Calls `Module::set_name`, which reports whether the name was changed. Nothing else is.
#[verifier::external_body]
pub(crate) fn rename(module: &mut Module, name: &str) -> (result: bool)
    ensures
        naming(*old(module), name@, result, *final(module)),
        result ==> *final(module) == renamed(*old(module), name@),
        result ==> module_name(*final(module)) == Some(name@),
        !result ==> *final(module) == *old(module),
        module_imports(*final(module)) == module_imports(*old(module)),
        forall|limits: MemoryLimits| #[trigger]
            module_style(*final(module), limits) == module_style(*old(module), limits),
{
    module.set_name(name)
}

/// The imports of a module, in their order.
///
/// Calls `Module::imports`.
#[verifier::external_body]
pub(crate) fn imports_in(module: &Module) -> (result: Vec<ImportSpec>)
    ensures
        result@.len() == module_imports(*module).len(),
        forall|i: int|
            0 <= i < result@.len() ==> (#[trigger] result@[i])@ == module_imports(*module)[i],
{
    module.imports().map(
        |import| ImportSpec {
            module: import.module().to_string(),
            name: import.name().to_string(),
            ty: import.ty().clone(),
        },
    ).collect()
}

/// The type of an extern.
///
/// Calls `Extern::ty`: memories, and nothing else, are of a memory type.
#[verifier::external_body]
pub(crate) fn type_of(store: &StoreMut<'_>, external: &Extern) -> (result: ExternType)
    requires
        extern_store(*external) == store_id(*store),
    ensures
        extern_shape(result) == extern_type(*store, *external),
        extern_shape(result) is Memory <==> extern_memory(*external) is Some,
{
    external.ty(store)
}

/// Whether an export of one type serves an import of another.
///
/// Calls `ExternType::is_compatible_with` without a runtime size: functions, globals and tags have
/// to be of the same type; a table or a memory may be larger than asked for, within the limit asked for.
#[verifier::external_body]
pub(crate) fn types_compatible(exported: &ExternType, imported: &ExternType) -> (result: bool)
    ensures
        result == compatible(extern_shape(*exported), extern_shape(*imported)),
{
    exported.is_compatible_with(imported, None)
}

/// The limits of a memory type; nothing for another type.
///
/// Calls `ExternType::memory`.
#[verifier::external_body]
pub(crate) fn memory_limits(ty: &ExternType) -> (result: Option<MemoryLimits>)
    ensures
        match extern_shape(*ty) {
            ExternShape::Memory(limits) => result == Some(limits),
            _ => result is None,
        },
{
    ty.memory().map(
        |memory| MemoryLimits {
            minimum: memory.minimum.0,
            maximum: memory.maximum.map(|pages| pages.0),
            shared: memory.shared,
        },
    )
}

/// Whether a type is a function type.
///
/// Calls `ExternType::func`.
#[verifier::external_body]
pub(crate) fn is_function(ty: &ExternType) -> (result: bool)
    ensures
        result == (extern_shape(*ty) is Function),
{
    ty.func().is_some()
}

/// Whether two memories have the same limits.
pub(crate) fn same_limits(left: MemoryLimits, right: MemoryLimits) -> (result: bool)
    ensures
        result == (left == right),
{
    let same_maximum = match (left.maximum, right.maximum) {
        (Some(left), Some(right)) => left == right,
        (None, None) => true,
        _ => false,
    };
    left.minimum == right.minimum && same_maximum && left.shared == right.shared
}

} // verus!
