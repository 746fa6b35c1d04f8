//! The kernel of a plugin: a guest of its own, which manages the memory that host and plugin share.
use crate::engine::{
    self, all_exports, call_long, call_long_long, call_long_to_long, call_to_long, copy_instance,
    current_store, define_import, exported_memory, imports_in, memory_limits, memory_to_extern,
    new_imports, new_instance, new_memory, read_memory, same_limits, same_store, type_of,
    write_memory, CallError, CallOutcome, ExternShape, ImportView, MemoryLimits, ValueKind,
};
use crate::errors::{
    self, ConvertError, ConvertErrorView, KernelError, KernelErrorView, LinkProblem,
    PluginInstantiationError,
};
use crate::EXTISM_ENV_MODULE;
use vstd::prelude::*;
use vstd::utf8::*;
use wasmer::{Extern, Instance, Memory, MemoryError, Module, StoreMut};
use wasmer_types::StoreId;

verus! {

/// `MemoryHandle` describes where in memory a block of data is stored
#[derive(Clone, Copy, PartialEq, Eq, Structural, Debug)]
pub struct MemoryHandle {
    /// The offset of the region in linear memory
    pub offset: u64,
    /// The length of the memory region
    pub length: u64,
}

impl MemoryHandle {
    /// The handle of no memory at all.
    pub open spec fn nowhere() -> MemoryHandle {
        MemoryHandle { offset: 0, length: 0 }
    }

    /// `NULL` equivalent
    pub fn null() -> (result: MemoryHandle)
        ensures
            result == MemoryHandle::nowhere(),
    {
        MemoryHandle { offset: 0, length: 0 }
    }
}

/// The limits of the memory that the kernel is given to import.
pub open spec fn unlimited() -> MemoryLimits {
    MemoryLimits { minimum: 0, maximum: None, shared: false }
}

/// The kernel's answer behind the outcome of a call.
pub open spec fn answer(outcome: CallOutcome) -> Result<Seq<int>, KernelErrorView> {
    match outcome {
        CallOutcome::NotCallable(problem) => Err(KernelErrorView::Export(problem)),
        CallOutcome::Trapped(trap) => Err(KernelErrorView::Runtime(trap)),
        CallOutcome::Returned(values) => Ok(values),
    }
}

/// What an answer says that is one 64-bit integer, taken as unsigned.
pub open spec fn as_unsigned(answer: Result<Seq<int>, KernelErrorView>) -> Result<
    u64,
    KernelErrorView,
> {
    match answer {
        Ok(values) => Ok(values[0] as u64),
        Err(err) => Err(err),
    }
}

/// What an answer without a value says.
pub open spec fn as_unit(answer: Result<Seq<int>, KernelErrorView>) -> Result<
    (),
    KernelErrorView,
> {
    match answer {
        Ok(_) => Ok(()),
        Err(err) => Err(err),
    }
}

/// The answer behind what a question gave.
pub open spec fn long_answer(result: Result<i64, KernelError>) -> Result<
    Seq<int>,
    KernelErrorView,
> {
    match result {
        Ok(value) => Ok(seq![value as int]),
        Err(err) => Err(err@),
    }
}

/// What encoding a value gave.
pub open spec fn encoded_bytes(encoded: Result<Vec<u8>, extism_convert::Error>) -> Result<
    Seq<u8>,
    extism_convert::Error,
> {
    match encoded {
        Ok(data) => Ok(data@),
        Err(err) => Err(err),
    }
}

/// Whether `result` is what decoding the bytes of a block may give.
pub open spec fn decoded<T, D: Fn(Vec<u8>) -> Result<T, extism_convert::Error>>(
    bytes: Result<Seq<u8>, KernelErrorView>,
    decode: D,
    result: Result<T, ConvertError>,
) -> bool {
    match bytes {
        Err(problem) => result matches Err(err) && err@ == ConvertErrorView::Kernel(problem),
        Ok(bytes) => exists|data: Vec<u8>, outcome: Result<T, extism_convert::Error>|
            data@ == bytes && #[trigger] call_ensures(decode, (data,), outcome) && match outcome {
                Ok(value) => result == Ok::<T, ConvertError>(value),
                Err(err) => result == Err::<T, ConvertError>(ConvertError::Convert(err)),
            },
    }
}

/// The handle of an allocation of `n` bytes, from where the kernel says that it is. The kernel says
/// that it is nowhere when there is no room.
pub open spec fn allocated(n: u64, offset: Result<u64, KernelErrorView>) -> Result<
    MemoryHandle,
    KernelErrorView,
> {
    match offset {
        Ok(offset) => if offset == 0 {
            Err(KernelErrorView::OutOfMemory)
        } else {
            Ok(MemoryHandle { offset, length: n })
        },
        Err(err) => Err(err),
    }
}

/// The handle of what lies at `offset`, from what the kernel says of its length.
pub open spec fn handle_of(
    offset: u64,
    length: Result<u64, KernelErrorView>,
) -> Option<MemoryHandle> {
    match length {
        Ok(length) => if length == 0 {
            None
        } else {
            Some(MemoryHandle { offset, length })
        },
        Err(_) => None,
    }
}

/// What the bytes of a block say as text.
pub open spec fn text_in(bytes: Result<Seq<u8>, KernelErrorView>) -> Result<
    Seq<char>,
    KernelErrorView,
> {
    match bytes {
        Ok(bytes) => if valid_utf8(bytes) {
            Ok(decode_utf8(bytes))
        } else {
            Err(KernelErrorView::FromUtf8Error(bytes))
        },
        Err(err) => Err(err),
    }
}

/// What starting a kernel does: it gets a memory of its own to import, and is instantiated. The
/// store may have made another memory than the one asked for; then the kernel has to be one that asks
/// for nothing else.
pub open spec fn kernel_starts(
    before: StoreMut<'_>,
    runtime: Module,
    outcome: Result<Instance, LinkProblem>,
    after: StoreMut<'_>,
) -> bool {
    exists|made: Result<Memory, MemoryError>, between: StoreMut<'_>| #[trigger]
        engine::memory_creation(before, unlimited(), made, between) && match made {
            Err(err) => outcome == Err::<Instance, LinkProblem>(LinkProblem::Memory(err)) && after
                == between,
            Ok(memory) => if is_unlimited(between, memory) || asks_for_unlimited(runtime) {
                exists|started: Result<Instance, wasmer::InstantiationError>| #[trigger]
                    engine::instantiation(
                        between,
                        runtime,
                        kernel_imports(memory),
                        started,
                        after,
                    ) && outcome == match started {
                        Ok(instance) => Ok(instance),
                        Err(err) => Err(LinkProblem::Wasmer(err)),
                    }
            } else {
                &&& outcome == Err::<Instance, LinkProblem>(
                    LinkProblem::IncompatibleType(EXTISM_ENV_MODULE@, "memory"@),
                )
                &&& after == between
            },
        }
}

/// Whether a memory has the limits that were asked for, and no others.
pub open spec fn is_unlimited(store: StoreMut<'_>, memory: Memory) -> bool {
    engine::extern_type(store, engine::memory_as_extern(memory)) == ExternShape::Memory(unlimited())
}

/// Whether a module that kernels are made from asks for just the memory that it is given.
pub open spec fn asks_for_unlimited(runtime: Module) -> bool {
    forall|i: int|
        0 <= i < engine::module_imports(runtime).len() ==> is_plain(
            #[trigger] engine::module_imports(runtime)[i],
        )
}

/// Whether an import, if it is the memory of the kernel, has no limits.
pub open spec fn is_plain(import: ImportView) -> bool {
    import.shape is Memory && engine::import_key(import) == (EXTISM_ENV_MODULE@, "memory"@)
        ==> import.shape == ExternShape::Memory(unlimited())
}

/// What a kernel is linked against.
pub open spec fn kernel_imports(memory: Memory) -> Map<(Seq<char>, Seq<char>), Extern> {
    engine::no_definitions().insert((EXTISM_ENV_MODULE@, "memory"@), engine::memory_as_extern(memory))
}

/// Text from its bytes.
///
/// Calls `String::from_utf8`, which succeeds on valid UTF-8 and then gives the text encoded there, and
/// else an error that holds the bytes.
#[verifier::external_body]
fn text_from(bytes: Vec<u8>) -> (result: Result<String, std::string::FromUtf8Error>)
    ensures
        match result {
            Ok(text) => valid_utf8(bytes@) && text@ == decode_utf8(bytes@),
            Err(err) => !valid_utf8(bytes@) && errors::refused_bytes(err) == bytes@,
        },
{
    String::from_utf8(bytes)
}

/// The handle of an allocation of `n` bytes, from the kernel's answer.
pub fn allocation(n: u64, offset: Result<i64, KernelError>) -> (result: Result<
    MemoryHandle,
    KernelError,
>)
    ensures
        errors::kernel_result(result) == allocated(n, as_unsigned(long_answer(offset))),
{
    match offset {
        Ok(offset) => {
            let offset = offset as u64;
            if offset == 0 {
                Err(KernelError::OutOfMemory)
            } else {
                Ok(MemoryHandle { offset, length: n })
            }
        },
        Err(err) => Err(err),
    }
}

/// The handle of what lies at `offset`, from the kernel's answer on its length.
pub fn located(offset: u64, length: Result<u64, KernelError>) -> (result: Option<MemoryHandle>)
    ensures
        result == handle_of(offset, errors::kernel_result(length)),
{
    match length {
        Ok(length) => if length == 0 {
            None
        } else {
            Some(MemoryHandle { offset, length })
        },
        Err(_) => None,
    }
}

/// The text that bytes say.
pub fn text_of(bytes: Vec<u8>) -> (result: Result<String, KernelError>)
    ensures
        match text_in(Ok(bytes@)) {
            Ok(text) => result matches Ok(string) && string@ == text,
            Err(problem) => result matches Err(err) && err@ == problem,
        },
{
    match text_from(bytes) {
        Ok(text) => Ok(text),
        Err(err) => Err(KernelError::FromUtf8Error(err)),
    }
}

/// The kernel's error for a call that gave no value.
pub fn call_failure(err: CallError) -> (result: KernelError)
    ensures
        Err::<Seq<int>, KernelErrorView>(result@) == answer(engine::unit_outcome(Err(err))),
        Err::<Seq<int>, KernelErrorView>(result@) == answer(engine::long_outcome(Err(err))),
{
    match err {
        CallError::Export(err) => KernelError::Export(err),
        CallError::Runtime(err) => KernelError::Runtime(err),
    }
}

/// Whether a module that kernels are made from asks for just the memory that it is given.
fn finds_plain_memory(runtime: &Module) -> (result: bool)
    ensures
        result == asks_for_unlimited(*runtime),
{
    let wanted = imports_in(runtime);
    let plain = MemoryLimits { minimum: 0, maximum: None, shared: false };
    let space = EXTISM_ENV_MODULE.to_owned();
    let name = "memory".to_owned();
    let count = wanted.len();
    for i in 0..count
        invariant
            count == wanted@.len(),
            wanted@.len() == engine::module_imports(*runtime).len(),
            forall|j: int|
                0 <= j < wanted@.len() ==> (#[trigger] wanted@[j])@ == engine::module_imports(
                    *runtime,
                )[j],
            space@ == EXTISM_ENV_MODULE@,
            name@ == "memory"@,
            plain == unlimited(),
            forall|j: int| 0 <= j < i ==> is_plain(#[trigger] engine::module_imports(*runtime)[j]),
    {
        assert(wanted@[i as int]@ == engine::module_imports(*runtime)[i as int]);
        if let Some(limits) = memory_limits(&wanted[i].ty) {
            if wanted[i].module == space && wanted[i].name == name && !same_limits(
                limits,
                plain,
            ) {
                assert(!is_plain(engine::module_imports(*runtime)[i as int]));
                return false;
            }
        }
    }
    true
}

/// The kernel of one plugin.
pub struct Kernel {
    id: usize,
    store: StoreId,
    runtime: Instance,
    own: Ghost<bool>,
}

impl Kernel {
    #[verifier::type_invariant]
    spec fn runs_where_made(self) -> bool {
        engine::instance_store(self.runtime) == self.store
    }

    /// The number of the plugin.
    pub closed spec fn number(self) -> usize {
        self.id
    }

    /// The instance that does the work.
    pub closed spec fn instance(self) -> Instance {
        self.runtime
    }

    /// Whether this is the handle that was made when the kernel was started. There is one only, which
    /// belongs to the plugin.
    pub closed spec fn is_own(self) -> bool {
        self.own@
    }

    /// Another handle on the same kernel.
    pub closed spec fn copied(self) -> Kernel {
        Kernel { own: Ghost(false), ..self }
    }

    /// Whether the store at hand is the one that the kernel runs in.
    pub open spec fn runs_in(self, store: StoreMut<'_>) -> bool {
        engine::instance_store(self.instance()) == engine::store_id(store)
    }

    /// What asking the kernel for `name` does: where the store at hand is another one, nothing;
    /// else it is a call of the function of that name.
    pub open spec fn asks(
        self,
        before: StoreMut<'_>,
        name: Seq<char>,
        args: Seq<i64>,
        results: Seq<ValueKind>,
        outcome: Result<Seq<int>, KernelErrorView>,
        after: StoreMut<'_>,
    ) -> bool {
        if !self.runs_in(before) {
            outcome == Err::<Seq<int>, KernelErrorView>(KernelErrorView::ContextGone) && after
                == before
        } else {
            exists|end: CallOutcome| #[trigger]
                engine::calls(before, self.instance(), name, args, results, end, after) && outcome
                    == answer(end)
        }
    }

    /// What [`Kernel::memory_length`] does.
    pub open spec fn measures(
        self,
        before: StoreMut<'_>,
        offset: u64,
        outcome: Result<u64, KernelErrorView>,
        after: StoreMut<'_>,
    ) -> bool {
        exists|said: Result<Seq<int>, KernelErrorView>| #[trigger]
            self.asks(
                before,
                "length"@,
                engine::one_arg(offset as i64),
                engine::long_result(),
                said,
                after,
            ) && outcome == as_unsigned(said)
    }

    /// What [`Kernel::memory_alloc`] does.
    pub open spec fn allocates(
        self,
        before: StoreMut<'_>,
        n: u64,
        outcome: Result<MemoryHandle, KernelErrorView>,
        after: StoreMut<'_>,
    ) -> bool {
        if n == 0 {
            outcome == Ok::<MemoryHandle, KernelErrorView>(MemoryHandle::nowhere()) && after
                == before
        } else {
            exists|said: Result<Seq<int>, KernelErrorView>| #[trigger]
                self.asks(
                    before,
                    "alloc"@,
                    engine::one_arg(n as i64),
                    engine::long_result(),
                    said,
                    after,
                ) && outcome == allocated(n, as_unsigned(said))
        }
    }

    /// What [`Kernel::memory_handle`] does.
    pub open spec fn finds(
        self,
        before: StoreMut<'_>,
        offset: u64,
        outcome: Option<MemoryHandle>,
        after: StoreMut<'_>,
    ) -> bool {
        if offset == 0 {
            outcome == Some(MemoryHandle::nowhere()) && after == before
        } else {
            exists|length: Result<u64, KernelErrorView>| #[trigger]
                self.measures(before, offset, length, after) && outcome == handle_of(
                    offset,
                    length,
                )
        }
    }

    /// What [`Kernel::memory_free`] does.
    pub open spec fn frees(
        self,
        before: StoreMut<'_>,
        handle: MemoryHandle,
        outcome: Result<(), KernelErrorView>,
        after: StoreMut<'_>,
    ) -> bool {
        exists|said: Result<Seq<int>, KernelErrorView>| #[trigger]
            self.asks(before, "free"@, engine::one_arg(handle.offset as i64), engine::no_result(), said, after)
                && outcome == as_unit(said)
    }

    /// What [`Kernel::set_input`] and [`Kernel::set_output`] do.
    pub open spec fn announces(
        self,
        before: StoreMut<'_>,
        name: Seq<char>,
        handle: MemoryHandle,
        outcome: Result<(), KernelErrorView>,
        after: StoreMut<'_>,
    ) -> bool {
        exists|said: Result<Seq<int>, KernelErrorView>| #[trigger]
            self.asks(
                before,
                name,
                engine::two_args(handle.offset as i64, handle.length as i64),
                engine::no_result(),
                said,
                after,
            ) && outcome == as_unit(said)
    }

    /// What [`Kernel::get_input`] and [`Kernel::get_output`] do: two questions, the second only
    /// after an answer to the first.
    pub open spec fn reports(
        self,
        before: StoreMut<'_>,
        offset_name: Seq<char>,
        length_name: Seq<char>,
        outcome: Result<MemoryHandle, KernelErrorView>,
        after: StoreMut<'_>,
    ) -> bool {
        exists|first: Result<Seq<int>, KernelErrorView>, between: StoreMut<'_>| #[trigger]
            self.asks(
                before,
                offset_name,
                engine::no_args(),
                engine::long_result(),
                first,
                between,
            ) && match as_unsigned(first) {
                Err(err) => outcome == Err::<MemoryHandle, KernelErrorView>(err) && after
                    == between,
                Ok(offset) => exists|second: Result<Seq<int>, KernelErrorView>| #[trigger]
                    self.asks(
                        between,
                        length_name,
                        engine::no_args(),
                        engine::long_result(),
                        second,
                        after,
                    ) && outcome == match as_unsigned(second) {
                        Err(err) => Err(err),
                        Ok(length) => Ok(MemoryHandle { offset, length }),
                    },
            }
    }

    /// The bytes of a block, as far as the memory reaches.
    pub open spec fn bytes_at(self, store: StoreMut<'_>, handle: MemoryHandle) -> Result<
        Seq<u8>,
        KernelErrorView,
    > {
        if !self.runs_in(store) {
            Err(KernelErrorView::ContextGone)
        } else {
            match engine::memory_export(self.instance(), "memory"@) {
                Ok(memory) => Ok(
                    engine::clamped_range(
                        engine::memory_data(store, memory),
                        handle.offset,
                        handle.offset.wrapping_add(handle.length),
                    ),
                ),
                Err(problem) => Err(KernelErrorView::Export(problem)),
            }
        }
    }

    /// The text in a block.
    pub open spec fn text_at(self, store: StoreMut<'_>, handle: MemoryHandle) -> Result<
        Seq<char>,
        KernelErrorView,
    > {
        text_in(self.bytes_at(store, handle))
    }

    /// What copying bytes to where a handle says does.
    pub open spec fn fills(
        self,
        before: StoreMut<'_>,
        handle: MemoryHandle,
        data: Seq<u8>,
        outcome: Result<MemoryHandle, KernelErrorView>,
        after: StoreMut<'_>,
    ) -> bool {
        match engine::memory_export(self.instance(), "memory"@) {
            Err(problem) => {
                &&& outcome == Err::<MemoryHandle, KernelErrorView>(
                    KernelErrorView::Export(problem),
                )
                &&& after == before
            },
            Ok(memory) => match engine::write_problem(
                engine::memory_data(before, memory).len(),
                handle.offset,
                data.len(),
            ) {
                Some(problem) => {
                    &&& outcome == Err::<MemoryHandle, KernelErrorView>(
                        KernelErrorView::MemoryAccess(problem),
                    )
                    &&& after == before
                },
                None => {
                    &&& outcome == Ok::<MemoryHandle, KernelErrorView>(handle)
                    &&& engine::continues(before, after)
                    &&& engine::memory_data(after, memory) == engine::overwritten(
                        engine::memory_data(before, memory),
                        handle.offset,
                        data,
                    )
                },
            },
        }
    }

    /// What [`Kernel::memory_new`] does.
    pub open spec fn keeps(
        self,
        before: StoreMut<'_>,
        encoded: Result<Seq<u8>, extism_convert::Error>,
        outcome: Result<MemoryHandle, KernelErrorView>,
        after: StoreMut<'_>,
    ) -> bool {
        if !self.runs_in(before) {
            outcome == Err::<MemoryHandle, KernelErrorView>(KernelErrorView::ContextGone) && after
                == before
        } else {
            match encoded {
                Err(err) => {
                    &&& outcome == Err::<MemoryHandle, KernelErrorView>(
                        KernelErrorView::Extism(err),
                    )
                    &&& after == before
                },
                Ok(data) => if data.len() == 0 {
                    outcome == Ok::<MemoryHandle, KernelErrorView>(MemoryHandle::nowhere())
                        && after == before
                } else {
                    exists|got: Result<MemoryHandle, KernelErrorView>, between: StoreMut<'_>|
                     #[trigger]
                        self.allocates(before, data.len() as u64, got, between) && match got {
                            Err(err) => outcome == Err::<MemoryHandle, KernelErrorView>(err)
                                && after == between,
                            Ok(handle) => self.fills(between, handle, data, outcome, after),
                        }
                },
            }
        }
    }

    /// Whether the kernel knows a block: it is found by its offset, and stays as it is then.
    pub open spec fn knows(self, before: StoreMut<'_>, handle: MemoryHandle) -> bool {
        forall|found: Option<MemoryHandle>, after: StoreMut<'_>| #[trigger]
            self.finds(before, handle.offset, found, after) ==> found == Some(handle)
                && self.bytes_at(after, handle) == self.bytes_at(before, handle)
    }

    /// Whether the functions of these names set a slot of two numbers and tell what is in it.
    pub open spec fn has_slot<'a>(
        self,
        slot: spec_fn(StoreMut<'a>) -> (i64, i64),
        set: Seq<char>,
        first: Seq<char>,
        second: Seq<char>,
    ) -> bool {
        &&& forall|
            before: StoreMut<'a>,
            left: i64,
            right: i64,
            values: Seq<int>,
            after: StoreMut<'a>,
        | #[trigger]
            self.asks(
                before,
                set,
                engine::two_args(left, right),
                engine::no_result(),
                Ok(values),
                after,
            ) ==> slot(after) == (left, right)
        &&& self.tells(slot, first, |held: (i64, i64)| held.0)
        &&& self.tells(slot, second, |held: (i64, i64)| held.1)
    }

    /// Whether the function of this name tells a part of what is in a slot, and leaves the slot alone,
    /// when it is asked in the store that the kernel runs in.
    pub open spec fn tells<'a>(
        self,
        slot: spec_fn(StoreMut<'a>) -> (i64, i64),
        name: Seq<char>,
        part: spec_fn((i64, i64)) -> i64,
    ) -> bool {
        forall|before: StoreMut<'a>, said: Result<Seq<int>, KernelErrorView>, after: StoreMut<'a>|
         #[trigger]
            self.asks(before, name, engine::no_args(), engine::long_result(), said, after)
                && self.runs_in(before) ==> {
                &&& said == Ok::<Seq<int>, KernelErrorView>(seq![part(slot(before)) as int])
                &&& slot(after) == slot(before)
            }
    }

    /// Whether the function of this name leaves a slot alone.
    pub open spec fn spares<'a>(
        self,
        slot: spec_fn(StoreMut<'a>) -> (i64, i64),
        name: Seq<char>,
    ) -> bool {
        forall|
            before: StoreMut<'a>,
            args: Seq<i64>,
            results: Seq<ValueKind>,
            said: Result<Seq<int>, KernelErrorView>,
            after: StoreMut<'a>,
        | #[trigger]
            self.asks(before, name, args, results, said, after) ==> slot(after) == slot(before)
    }

    /// Starts a kernel in a store.
    pub fn new(store: &mut StoreMut<'_>, runtime: &Module, id: usize) -> (result: Result<
        Kernel,
        PluginInstantiationError,
    >)
        requires
            engine::is_compiled_for(*old(store), *runtime),
        ensures
            kernel_starts(
                *old(store),
                *runtime,
                match result {
                    Ok(kernel) => Ok(kernel.instance()),
                    Err(err) => Err(err@),
                },
                *final(store),
            ),
            engine::continues(*old(store), *final(store)),
            result matches Ok(kernel) ==> kernel.runs_in(*final(store)) && kernel.number() == id
                && kernel.is_own(),
    {
        let limits = MemoryLimits { minimum: 0, maximum: None, shared: false };
        let memory = match new_memory(store, limits) {
            Ok(memory) => memory,
            Err(err) => {
                return Err(PluginInstantiationError::Memory(err));
            },
        };
        let external = memory_to_extern(memory);
        let has_limits = match memory_limits(&type_of(store, &external)) {
            Some(found) => !same_limits(found, limits),
            None => true,
        };
        assert(has_limits == !is_unlimited(*store, memory));
        if has_limits && !finds_plain_memory(runtime) {
            return Err(
                PluginInstantiationError::IncompatibleType(
                    EXTISM_ENV_MODULE.to_owned(),
                    "memory".to_owned(),
                ),
            );
        }
        let mut imports = new_imports();
        define_import(&mut imports, EXTISM_ENV_MODULE, "memory", external);
        let ghost given = engine::imports_of(imports);
        assert(given == kernel_imports(memory));
        assert forall|i: int|
            0 <= i < engine::module_imports(*runtime).len() implies engine::memory_serves(
            *store,
            *runtime,
            #[trigger] engine::module_imports(*runtime)[i],
            given,
        ) by {
            let import = engine::module_imports(*runtime)[i];
            assert(has_limits ==> is_plain(import));
            if import.shape == ExternShape::Memory(limits) {
                assert(engine::module_style(*runtime, limits) == engine::store_style(
                    *old(store),
                    limits,
                ));
            }
        }
        match new_instance(store, runtime, &imports) {
            Ok(instance) => {
                let home = current_store(store);
                Ok(Kernel { id, store: home, runtime: instance, own: Ghost(true) })
            },
            Err(err) => Err(PluginInstantiationError::Wasmer(err)),
        }
    }

    /// Another handle on the same kernel, which is not the plugin's own.
    pub fn duplicate(&self) -> (result: Kernel)
        ensures
            result == self.copied(),
            result.instance() == self.instance(),
            result.number() == self.number(),
            !result.is_own(),
    {
        proof {
            use_type_invariant(self);
        }
        Kernel {
            id: self.id,
            store: self.store,
            runtime: copy_instance(&self.runtime),
            own: Ghost(false),
        }
    }

    /// The memory that the kernel manages.
    pub fn memory(&self) -> (result: Result<Memory, KernelError>)
        ensures
            match engine::memory_export(self.instance(), "memory"@) {
                Ok(memory) => result == Ok::<Memory, KernelError>(memory)
                    && engine::memory_store(memory) == engine::instance_store(self.instance()),
                Err(problem) => result matches Err(err) && err@ == KernelErrorView::Export(problem),
            },
    {
        match exported_memory(&self.runtime, "memory") {
            Ok(memory) => Ok(memory),
            Err(err) => Err(KernelError::Export(err)),
        }
    }

    /// Everything that the kernel exports: each export once, under its name.
    pub fn exports(&self) -> (result: Vec<(String, Extern)>)
        ensures
            forall|i: int|
                0 <= i < result@.len() ==> {
                    &&& engine::instance_exports(self.instance()).contains_key(
                        #[trigger] result@[i].0@,
                    )
                    &&& engine::instance_exports(self.instance())[result@[i].0@] == result@[i].1
                    &&& engine::extern_store(result@[i].1) == engine::instance_store(
                        self.instance(),
                    )
                },
            forall|name: Seq<char>| #[trigger]
                engine::instance_exports(self.instance()).contains_key(name) ==> exists|i: int|
                    0 <= i < result@.len() && #[trigger] result@[i].0@ == name,
            forall|i: int, j: int|
                0 <= i < j < result@.len() ==> #[trigger] result@[i].0@
                    != #[trigger] result@[j].0@,
    {
        let result = all_exports(&self.runtime);
        assert(self.instance() == self.runtime);
        assert forall|i: int| 0 <= i < result@.len() implies {
            &&& engine::instance_exports(self.instance()).contains_key(#[trigger] result@[i].0@)
            &&& engine::instance_exports(self.instance())[result@[i].0@] == result@[i].1
        } by {}
        result
    }

    /// The number of the plugin.
    pub fn id(&self) -> (result: usize)
        ensures
            result == self.number(),
    {
        self.id
    }

    /// Whether the store at hand is the one that the kernel runs in.
    fn is_at_home(&self, store: &mut StoreMut<'_>) -> (result: bool)
        ensures
            result == self.runs_in(*old(store)),
            *final(store) == *old(store),
    {
        proof {
            use_type_invariant(self);
        }
        let here = current_store(store);
        same_store(self.store, here)
    }

    /// Asks the kernel a question about one number.
    fn ask_of(&self, store: &mut StoreMut<'_>, name: &str, arg: i64) -> (result: Result<
        i64,
        KernelError,
    >)
        ensures
            self.asks(
                *old(store),
                name@,
                engine::one_arg(arg),
                engine::long_result(),
                long_answer(result),
                *final(store),
            ),
    {
        proof {
            use_type_invariant(self);
        }
        if !self.is_at_home(store) {
            return Err(KernelError::ContextGone);
        }
        let ghost before = *store;
        let end = call_long_to_long(store, &self.runtime, name, arg);
        assert(engine::calls(
            before,
            self.instance(),
            name@,
            engine::one_arg(arg),
            engine::long_result(),
            engine::long_outcome(end),
            *store,
        ));
        match end {
            Ok(value) => Ok(value),
            Err(err) => Err(call_failure(err)),
        }
    }

    /// Asks the kernel a question.
    fn ask(&self, store: &mut StoreMut<'_>, name: &str) -> (result: Result<i64, KernelError>)
        ensures
            self.asks(
                *old(store),
                name@,
                engine::no_args(),
                engine::long_result(),
                long_answer(result),
                *final(store),
            ),
    {
        proof {
            use_type_invariant(self);
        }
        if !self.is_at_home(store) {
            return Err(KernelError::ContextGone);
        }
        let ghost before = *store;
        let end = call_to_long(store, &self.runtime, name);
        assert(engine::calls(
            before,
            self.instance(),
            name@,
            engine::no_args(),
            engine::long_result(),
            engine::long_outcome(end),
            *store,
        ));
        match end {
            Ok(value) => Ok(value),
            Err(err) => Err(call_failure(err)),
        }
    }

    /// Tells the kernel where a block is.
    fn announce(&self, store: &mut StoreMut<'_>, name: &str, handle: MemoryHandle) -> (result:
        Result<(), KernelError>)
        ensures
            self.announces(
                *old(store),
                name@,
                handle,
                errors::kernel_result(result),
                *final(store),
            ),
    {
        proof {
            use_type_invariant(self);
        }
        if !self.is_at_home(store) {
            assert(self.asks(
                *old(store),
                name@,
                engine::two_args(handle.offset as i64, handle.length as i64),
                engine::no_result(),
                Err(KernelErrorView::ContextGone),
                *store,
            ));
            return Err(KernelError::ContextGone);
        }
        let ghost before = *store;
        let end = call_long_long(
            store,
            &self.runtime,
            name,
            handle.offset as i64,
            handle.length as i64,
        );
        assert(engine::calls(
            before,
            self.instance(),
            name@,
            engine::two_args(handle.offset as i64, handle.length as i64),
            engine::no_result(),
            engine::unit_outcome(end),
            *store,
        ));
        assert(self.asks(
            *old(store),
            name@,
            engine::two_args(handle.offset as i64, handle.length as i64),
            engine::no_result(),
            answer(engine::unit_outcome(end)),
            *store,
        ));
        match end {
            Ok(_) => Ok(()),
            Err(err) => Err(call_failure(err)),
        }
    }

    /// The length of the block that begins at an offset.
    pub fn memory_length(&self, store: &mut StoreMut<'_>, offs: u64) -> (result: Result<
        u64,
        KernelError,
    >)
        ensures
            self.measures(*old(store), offs, errors::kernel_result(result), *final(store)),
    {
        match self.ask_of(store, "length", offs as i64) {
            Ok(length) => Ok(length as u64),
            Err(err) => Err(err),
        }
    }

    /// Allocate a handle large enough for the encoded value and copy it into the memory of the
    /// plugin
    pub fn memory_new(
        &self,
        store: &mut StoreMut<'_>,
        encoded: Result<Vec<u8>, extism_convert::Error>,
    ) -> (result: Result<MemoryHandle, KernelError>)
        ensures
            self.keeps(
                *old(store),
                encoded_bytes(encoded),
                errors::kernel_result(result),
                *final(store),
            ),
    {
        if !self.is_at_home(store) {
            return Err(KernelError::ContextGone);
        }
        let data = match encoded {
            Ok(data) => data,
            Err(err) => {
                return Err(KernelError::Extism(err));
            },
        };
        if data.len() == 0 {
            return Ok(MemoryHandle::null());
        }
        let got = self.memory_alloc(store, data.len() as u64);
        let ghost between = *store;
        assert(self.allocates(
            *old(store),
            data@.len() as u64,
            errors::kernel_result(got),
            between,
        ));
        match got {
            Ok(handle) => self.fill(store, handle, data.as_slice()),
            Err(err) => Err(err),
        }
    }

    /// Copies bytes to where a handle says.
    fn fill(&self, store: &mut StoreMut<'_>, handle: MemoryHandle, data: &[u8]) -> (result: Result<
        MemoryHandle,
        KernelError,
    >)
        requires
            self.runs_in(*old(store)),
        ensures
            self.fills(*old(store), handle, data@, errors::kernel_result(result), *final(store)),
    {
        let memory = match exported_memory(&self.runtime, "memory") {
            Ok(memory) => memory,
            Err(err) => {
                return Err(KernelError::Export(err));
            },
        };
        match write_memory(store, &memory, handle.offset, data) {
            Ok(_) => Ok(handle),
            Err(err) => Err(KernelError::MemoryAccess(err)),
        }
    }

    /// Allocates a block of memory.
    pub fn memory_alloc(&self, store: &mut StoreMut<'_>, n: u64) -> (result: Result<
        MemoryHandle,
        KernelError,
    >)
        ensures
            self.allocates(*old(store), n, errors::kernel_result(result), *final(store)),
            self.runs_in(*old(store)) ==> self.runs_in(*final(store)),
    {
        if n == 0 {
            return Ok(MemoryHandle::null());
        }
        let answer = self.ask_of(store, "alloc", n as i64);
        allocation(n, answer)
    }

    /// The handle of the block that begins at an offset.
    pub fn memory_handle(&self, store: &mut StoreMut<'_>, offs: u64) -> (result: Option<
        MemoryHandle,
    >)
        ensures
            self.finds(*old(store), offs, result, *final(store)),
    {
        if offs == 0 {
            return Some(MemoryHandle::null());
        }
        let length = self.memory_length(store, offs);
        located(offs, length)
    }

    /// Free a block of plugin memory
    pub fn memory_free(&self, store: &mut StoreMut<'_>, handle: MemoryHandle) -> (result: Result<
        (),
        KernelError,
    >)
        ensures
            self.frees(*old(store), handle, errors::kernel_result(result), *final(store)),
    {
        proof {
            use_type_invariant(self);
        }
        if !self.is_at_home(store) {
            assert(self.asks(
                *old(store),
                "free"@,
                engine::one_arg(handle.offset as i64),
                engine::no_result(),
                Err(KernelErrorView::ContextGone),
                *store,
            ));
            return Err(KernelError::ContextGone);
        }
        let ghost before = *store;
        let end = call_long(store, &self.runtime, "free", handle.offset as i64);
        assert(engine::calls(
            before,
            self.instance(),
            "free"@,
            engine::one_arg(handle.offset as i64),
            engine::no_result(),
            engine::unit_outcome(end),
            *store,
        ));
        assert(self.asks(
            *old(store),
            "free"@,
            engine::one_arg(handle.offset as i64),
            engine::no_result(),
            answer(engine::unit_outcome(end)),
            *store,
        ));
        match end {
            Ok(_) => Ok(()),
            Err(err) => Err(call_failure(err)),
        }
    }

    /// The bytes of a block. A handle that reaches beyond the memory gives what there is of it.
    pub fn memory_bytes(&self, store: &mut StoreMut<'_>, handle: MemoryHandle) -> (result: Result<
        Vec<u8>,
        KernelError,
    >)
        ensures
            *final(store) == *old(store),
            match self.bytes_at(*old(store), handle) {
                Ok(bytes) => result matches Ok(data) && data@ == bytes,
                Err(problem) => result matches Err(err) && err@ == problem,
            },
    {
        if !self.is_at_home(store) {
            return Err(KernelError::ContextGone);
        }
        match exported_memory(&self.runtime, "memory") {
            Ok(memory) => {
                let end = handle.offset.wrapping_add(handle.length);
                Ok(read_memory(store, &memory, handle.offset, end))
            },
            Err(err) => Err(KernelError::Export(err)),
        }
    }

    /// The value that the bytes of a block stand for.
    pub fn memory_get<T, D: Fn(Vec<u8>) -> Result<T, extism_convert::Error>>(
        &self,
        store: &mut StoreMut<'_>,
        handle: MemoryHandle,
        decode: &D,
    ) -> (result: Result<T, ConvertError>)
        requires
            forall|bytes: Vec<u8>| #[trigger] call_requires(*decode, (bytes,)),
        ensures
            *final(store) == *old(store),
            decoded(self.bytes_at(*old(store), handle), *decode, result),
    {
        match self.memory_bytes(store, handle) {
            Ok(bytes) => match decode(bytes) {
                Ok(value) => Ok(value),
                Err(err) => Err(ConvertError::Convert(err)),
            },
            Err(err) => Err(ConvertError::Kernel(err)),
        }
    }

    /// The text in a block.
    pub fn memory_string(&self, store: &mut StoreMut<'_>, handle: MemoryHandle) -> (result: Result<
        String,
        KernelError,
    >)
        ensures
            *final(store) == *old(store),
            match self.text_at(*old(store), handle) {
                Ok(text) => result matches Ok(string) && string@ == text,
                Err(problem) => result matches Err(err) && err@ == problem,
            },
    {
        match self.memory_bytes(store, handle) {
            Ok(bytes) => text_of(bytes),
            Err(err) => Err(err),
        }
    }

    /// Tells the kernel where the input of the plugin is.
    pub fn set_input(&self, store: &mut StoreMut<'_>, handle: MemoryHandle) -> (result: Result<
        (),
        KernelError,
    >)
        ensures
            self.announces(
                *old(store),
                "input_set"@,
                handle,
                errors::kernel_result(result),
                *final(store),
            ),
    {
        self.announce(store, "input_set", handle)
    }

    /// Tells the kernel where the output of the plugin is.
    pub fn set_output(&self, store: &mut StoreMut<'_>, handle: MemoryHandle) -> (result: Result<
        (),
        KernelError,
    >)
        ensures
            self.announces(
                *old(store),
                "output_set"@,
                handle,
                errors::kernel_result(result),
                *final(store),
            ),
    {
        self.announce(store, "output_set", handle)
    }

    /// Where a block is that the kernel knows of.
    fn report(&self, store: &mut StoreMut<'_>, offset_name: &str, length_name: &str) -> (result:
        Result<MemoryHandle, KernelError>)
        ensures
            self.reports(
                *old(store),
                offset_name@,
                length_name@,
                errors::kernel_result(result),
                *final(store),
            ),
    {
        let offset = match self.ask(store, offset_name) {
            Ok(offset) => offset as u64,
            Err(err) => {
                return Err(err);
            },
        };
        match self.ask(store, length_name) {
            Ok(length) => Ok(MemoryHandle { offset, length: length as u64 }),
            Err(err) => Err(err),
        }
    }

    /// Where the output of the plugin is.
    pub fn get_output(&self, store: &mut StoreMut<'_>) -> (result: Result<
        MemoryHandle,
        KernelError,
    >)
        ensures
            self.reports(
                *old(store),
                "output_offset"@,
                "output_length"@,
                errors::kernel_result(result),
                *final(store),
            ),
    {
        self.report(store, "output_offset", "output_length")
    }

    /// Where the input of the plugin is.
    pub fn get_input(&self, store: &mut StoreMut<'_>) -> (result: Result<MemoryHandle, KernelError>)
        ensures
            self.reports(
                *old(store),
                "input_offset"@,
                "input_length"@,
                errors::kernel_result(result),
                *final(store),
            ),
    {
        self.report(store, "input_offset", "input_length")
    }
}

/// What has been put into a new block is read back from it, as long as nothing happens in between.
/// The handle of something is not null, and the handle of nothing is.
pub proof fn kept_bytes_are_read_back(
    kernel: Kernel,
    before: StoreMut<'_>,
    data: Seq<u8>,
    handle: MemoryHandle,
    after: StoreMut<'_>,
)
    requires
        data.len() <= u64::MAX,
        kernel.keeps(before, Ok(data), Ok(handle), after),
    ensures
        data.len() > 0 ==> handle.offset != 0 && handle.length == data.len(),
        data.len() == 0 ==> handle == MemoryHandle::nowhere(),
        data.len() > 0 || engine::memory_export(kernel.instance(), "memory"@) is Ok
            ==> kernel.bytes_at(after, handle) == Ok::<Seq<u8>, KernelErrorView>(data),
{
    if data.len() == 0 {
        if let Ok(memory) = engine::memory_export(kernel.instance(), "memory"@) {
            assert(engine::clamped_range(engine::memory_data(after, memory), 0, 0) =~= data);
        }
    } else {
        let (got, between) = choose|
            got: Result<MemoryHandle, KernelErrorView>,
            between: StoreMut<'_>,
        | #[trigger]
            kernel.allocates(before, data.len() as u64, got, between) && match got {
                Err(err) => false,
                Ok(place) => kernel.fills(between, place, data, Ok(handle), after),
            };
        let memory = engine::memory_export(kernel.instance(), "memory"@)->Ok_0;
        let old_data = engine::memory_data(between, memory);
        let new_data = engine::overwritten(old_data, handle.offset, data);
        let start = handle.offset as int;
        assert(handle.offset.wrapping_add(handle.length) == start + data.len());
        assert(engine::clamped_range(new_data, handle.offset, (start + data.len()) as u64)
            =~= data);
    }
}

/// Text that has been put into a new block is read back from it, as long as nothing happens in
/// between.
pub proof fn kept_text_is_read_back(
    kernel: Kernel,
    before: StoreMut<'_>,
    text: Seq<char>,
    handle: MemoryHandle,
    after: StoreMut<'_>,
)
    requires
        encode_utf8(text).len() <= u64::MAX,
        engine::memory_export(kernel.instance(), "memory"@) is Ok,
        kernel.keeps(before, Ok(encode_utf8(text)), Ok(handle), after),
    ensures
        kernel.text_at(after, handle) == Ok::<Seq<char>, KernelErrorView>(text),
{
    kept_bytes_are_read_back(kernel, before, encode_utf8(text), handle, after);
    encode_utf8_valid_utf8(text);
    encode_utf8_decode_utf8(text);
}

/// With the store of another context, a kernel does nothing: every question to it fails alike, and
/// the store stays as it is.
pub proof fn foreign_stores_are_left_alone(
    kernel: Kernel,
    before: StoreMut<'_>,
    after: StoreMut<'_>,
)
    requires
        !kernel.runs_in(before),
    ensures
        forall|offset: u64, outcome: Result<u64, KernelErrorView>| #[trigger]
            kernel.measures(before, offset, outcome, after) ==> outcome == Err::<
                u64,
                KernelErrorView,
            >(KernelErrorView::ContextGone) && after == before,
        forall|n: u64, outcome: Result<MemoryHandle, KernelErrorView>| #[trigger]
            kernel.allocates(before, n, outcome, after) && n != 0 ==> outcome == Err::<
                MemoryHandle,
                KernelErrorView,
            >(KernelErrorView::ContextGone) && after == before,
        forall|handle: MemoryHandle, outcome: Result<(), KernelErrorView>| #[trigger]
            kernel.frees(before, handle, outcome, after) ==> outcome == Err::<(), KernelErrorView>(
                KernelErrorView::ContextGone,
            ) && after == before,
        forall|name: Seq<char>, handle: MemoryHandle, outcome: Result<(), KernelErrorView>|
         #[trigger]
            kernel.announces(before, name, handle, outcome, after) ==> outcome == Err::<
                (),
                KernelErrorView,
            >(KernelErrorView::ContextGone) && after == before,
        forall|
            first: Seq<char>,
            second: Seq<char>,
            outcome: Result<MemoryHandle, KernelErrorView>,
        | #[trigger]
            kernel.reports(before, first, second, outcome, after) ==> outcome == Err::<
                MemoryHandle,
                KernelErrorView,
            >(KernelErrorView::ContextGone) && after == before,
        forall|
            encoded: Result<Seq<u8>, extism_convert::Error>,
            outcome: Result<MemoryHandle, KernelErrorView>,
        | #[trigger]
            kernel.keeps(before, encoded, outcome, after) ==> outcome == Err::<
                MemoryHandle,
                KernelErrorView,
            >(KernelErrorView::ContextGone) && after == before,
        forall|handle: MemoryHandle| #[trigger]
            kernel.bytes_at(before, handle) == Err::<Seq<u8>, KernelErrorView>(
                KernelErrorView::ContextGone,
            ),
{
}

/// All handles on a kernel work on the same instance.
pub proof fn copies_work_alike(kernel: Kernel)
    ensures
        kernel.copied().instance() == kernel.instance(),
        kernel.copied().number() == kernel.number(),
        !kernel.copied().is_own(),
{
}

/// Of a kernel whose functions of these names set a slot and tell what is in it, what has been
/// announced is reported back.
pub proof fn slot_is_reported<'a>(
    kernel: Kernel,
    slot: spec_fn(StoreMut<'a>) -> (i64, i64),
    set: Seq<char>,
    first: Seq<char>,
    second: Seq<char>,
    handle: MemoryHandle,
    before: StoreMut<'a>,
    outcome: Result<MemoryHandle, KernelErrorView>,
    after: StoreMut<'a>,
)
    requires
        kernel.runs_in(before),
        kernel.has_slot(slot, set, first, second),
        slot(before) == (handle.offset as i64, handle.length as i64),
        kernel.reports(before, first, second, outcome, after),
    ensures
        outcome == Ok::<MemoryHandle, KernelErrorView>(handle),
        slot(after) == slot(before),
        kernel.runs_in(after),
{
    let offset = handle.offset;
    let length = handle.length;
    assert((offset as i64) as u64 == offset) by (bit_vector);
    assert((length as i64) as u64 == length) by (bit_vector);
    let (told, between) = choose|told: Result<Seq<int>, KernelErrorView>, between: StoreMut<'a>|
     #[trigger]
        kernel.asks(before, first, engine::no_args(), engine::long_result(), told, between)
            && match as_unsigned(told) {
            Err(err) => outcome == Err::<MemoryHandle, KernelErrorView>(err) && after == between,
            Ok(offset) => exists|other: Result<Seq<int>, KernelErrorView>| #[trigger]
                kernel.asks(
                    between,
                    second,
                    engine::no_args(),
                    engine::long_result(),
                    other,
                    after,
                ) && outcome == match as_unsigned(other) {
                    Err(err) => Err(err),
                    Ok(length) => Ok(MemoryHandle { offset, length }),
                },
        };
    assert(as_unsigned(told) == Ok::<u64, KernelErrorView>(offset));
    let other = choose|other: Result<Seq<int>, KernelErrorView>| #[trigger]
        kernel.asks(between, second, engine::no_args(), engine::long_result(), other, after)
            && outcome == match as_unsigned(other) {
            Err(err) => Err(err),
            Ok(length) => Ok(MemoryHandle { offset, length }),
        };
    assert(as_unsigned(other) == Ok::<u64, KernelErrorView>(length));
}

/// Whether the questions between the states leave a slot alone, one after the other.
pub open spec fn is_course<'a>(
    kernel: Kernel,
    slot: spec_fn(StoreMut<'a>) -> (i64, i64),
    states: Seq<StoreMut<'a>>,
) -> bool {
    &&& states.len() > 0
    &&& forall|i: int|
        0 < i < states.len() ==> is_step(kernel, slot, states[i - 1], #[trigger] states[i])
}

/// Whether a question leaves a slot alone.
pub open spec fn is_step<'a>(
    kernel: Kernel,
    slot: spec_fn(StoreMut<'a>) -> (i64, i64),
    before: StoreMut<'a>,
    after: StoreMut<'a>,
) -> bool {
    exists|
        name: Seq<char>,
        args: Seq<i64>,
        results: Seq<ValueKind>,
        said: Result<Seq<int>, KernelErrorView>,
    | #[trigger]
        kernel.asks(before, name, args, results, said, after) && kernel.spares(slot, name)
}

/// A course of questions that leave a slot alone leaves it alone.
proof fn courses_keep_the_slot<'a>(
    kernel: Kernel,
    slot: spec_fn(StoreMut<'a>) -> (i64, i64),
    states: Seq<StoreMut<'a>>,
    count: nat,
)
    requires
        is_course(kernel, slot, states),
        kernel.runs_in(states[0]),
        count < states.len(),
    ensures
        slot(states[count as int]) == slot(states[0]),
        kernel.runs_in(states[count as int]),
    decreases count,
{
    if count > 0 {
        courses_keep_the_slot(kernel, slot, states, (count - 1) as nat);
        assert(is_step(kernel, slot, states[count - 1], states[count as int]));
    }
}

/// What has been announced is reported, unswapped and whichever numbers it is, whatever else has been
/// asked meanwhile. That holds of a kernel whose functions keep a slot, and of questions that leave
/// that slot alone.
pub proof fn announced_is_reported<'a>(
    kernel: Kernel,
    slot: spec_fn(StoreMut<'a>) -> (i64, i64),
    set: Seq<char>,
    first: Seq<char>,
    second: Seq<char>,
    handle: MemoryHandle,
    before: StoreMut<'a>,
    states: Seq<StoreMut<'a>>,
    outcome: Result<MemoryHandle, KernelErrorView>,
    after: StoreMut<'a>,
)
    requires
        kernel.has_slot(slot, set, first, second),
        is_course(kernel, slot, states),
        kernel.announces(before, set, handle, Ok(()), states[0]),
        kernel.reports(states.last(), first, second, outcome, after),
    ensures
        outcome == Ok::<MemoryHandle, KernelErrorView>(handle),
{
    let args = engine::two_args(handle.offset as i64, handle.length as i64);
    let said = choose|said: Result<Seq<int>, KernelErrorView>| #[trigger]
        kernel.asks(before, set, args, engine::no_result(), said, states[0]) && Ok::<
            (),
            KernelErrorView,
        >(()) == as_unit(said);
    assert(said == Ok::<Seq<int>, KernelErrorView>(said->Ok_0));
    assert(slot(states[0]) == (handle.offset as i64, handle.length as i64));
    courses_keep_the_slot(kernel, slot, states, (states.len() - 1) as nat);
    slot_is_reported(kernel, slot, set, first, second, handle, states.last(), outcome, after);
}

/// Whether handles are announced under a name between the states, one after the other, whether or not
/// that succeeds.
pub open spec fn are_announced<'a>(
    kernel: Kernel,
    set: Seq<char>,
    handles: Seq<MemoryHandle>,
    states: Seq<StoreMut<'a>>,
) -> bool {
    &&& states.len() == handles.len() + 1
    &&& forall|i: int|
        0 < i < states.len() ==> is_announced(
            kernel,
            set,
            handles[i - 1],
            states[i - 1],
            #[trigger] states[i],
        )
}

/// Whether a handle is announced under a name.
pub open spec fn is_announced(
    kernel: Kernel,
    set: Seq<char>,
    handle: MemoryHandle,
    before: StoreMut<'_>,
    after: StoreMut<'_>,
) -> bool {
    exists|outcome: Result<(), KernelErrorView>| #[trigger]
        kernel.announces(before, set, handle, outcome, after)
}

/// Announcing handles is a course that leaves a slot alone, if the function of that name does.
proof fn announcing_is_a_course<'a>(
    kernel: Kernel,
    slot: spec_fn(StoreMut<'a>) -> (i64, i64),
    set: Seq<char>,
    handles: Seq<MemoryHandle>,
    states: Seq<StoreMut<'a>>,
)
    requires
        kernel.spares(slot, set),
        are_announced(kernel, set, handles, states),
    ensures
        is_course(kernel, slot, states),
{
    assert forall|i: int| 0 < i < states.len() implies is_step(
        kernel,
        slot,
        states[i - 1],
        #[trigger] states[i],
    ) by {
        assert(is_announced(kernel, set, handles[i - 1], states[i - 1], states[i]));
    }
}

/// What has been set as the output is reported as the output, however often the input has been set
/// since, and to whatever. That holds of a kernel that keeps a slot for the output, and leaves it alone
/// when the input is set.
pub proof fn output_is_reported<'a>(
    kernel: Kernel,
    slot: spec_fn(StoreMut<'a>) -> (i64, i64),
    output: MemoryHandle,
    inputs: Seq<MemoryHandle>,
    before: StoreMut<'a>,
    states: Seq<StoreMut<'a>>,
    outcome: Result<MemoryHandle, KernelErrorView>,
    after: StoreMut<'a>,
)
    requires
        kernel.has_slot(slot, "output_set"@, "output_offset"@, "output_length"@),
        kernel.spares(slot, "input_set"@),
        kernel.announces(before, "output_set"@, output, Ok(()), states[0]),
        are_announced(kernel, "input_set"@, inputs, states),
        kernel.reports(states.last(), "output_offset"@, "output_length"@, outcome, after),
    ensures
        outcome == Ok::<MemoryHandle, KernelErrorView>(output),
{
    announcing_is_a_course(kernel, slot, "input_set"@, inputs, states);
    announced_is_reported(
        kernel,
        slot,
        "output_set"@,
        "output_offset"@,
        "output_length"@,
        output,
        before,
        states,
        outcome,
        after,
    );
}

/// What has been set as the input is reported as the input, however often the output has been set
/// since, and to whatever. That holds of a kernel that keeps a slot for the input, and leaves it alone
/// when the output is set.
pub proof fn input_is_reported<'a>(
    kernel: Kernel,
    slot: spec_fn(StoreMut<'a>) -> (i64, i64),
    input: MemoryHandle,
    outputs: Seq<MemoryHandle>,
    before: StoreMut<'a>,
    states: Seq<StoreMut<'a>>,
    outcome: Result<MemoryHandle, KernelErrorView>,
    after: StoreMut<'a>,
)
    requires
        kernel.has_slot(slot, "input_set"@, "input_offset"@, "input_length"@),
        kernel.spares(slot, "output_set"@),
        kernel.announces(before, "input_set"@, input, Ok(()), states[0]),
        are_announced(kernel, "output_set"@, outputs, states),
        kernel.reports(states.last(), "input_offset"@, "input_length"@, outcome, after),
    ensures
        outcome == Ok::<MemoryHandle, KernelErrorView>(input),
{
    announcing_is_a_course(kernel, slot, "output_set"@, outputs, states);
    announced_is_reported(
        kernel,
        slot,
        "input_set"@,
        "input_offset"@,
        "input_length"@,
        input,
        before,
        states,
        outcome,
        after,
    );
}

} // verus!
