//! What the operations of a kernel come down to.
use crate::engine::{self, CallOutcome, ExportErrorView, ExternShape, MemoryLimits, ValueKind};
use crate::errors::{ConvertError, KernelErrorView, LinkProblem};
use crate::function;
use crate::kernel::{self, Kernel, MemoryHandle};
use crate::EXTISM_ENV_MODULE;
use vstd::prelude::*;
use vstd::utf8::*;
use wasmer::{Extern, Instance, Memory, MemoryError, Module, StoreMut};

verus! {

/// One number.
pub open spec fn number(number: i64) -> Seq<i64> {
    seq![number]
}

/// Two numbers, in this order.
pub open spec fn numbers(first: i64, second: i64) -> Seq<i64> {
    seq![first, second]
}

/// Whether a function of an instance ran, and returned these values.
pub open spec fn returned(
    before: StoreMut<'_>,
    instance: Instance,
    name: Seq<char>,
    args: Seq<i64>,
    values: Seq<int>,
    after: StoreMut<'_>,
) -> bool {
    engine::guest_call(before, instance, name, args, CallOutcome::Returned(values), after)
}

/// Whether a function of an instance that takes 64-bit integers gave no value, and why: it ran and
/// trapped, or it is not there, or it is of another type.
pub open spec fn gave_nothing(
    before: StoreMut<'_>,
    instance: Instance,
    name: Seq<char>,
    args: Seq<i64>,
    results: Seq<ValueKind>,
    trap: Option<wasmer::RuntimeError>,
    problem: Option<ExportErrorView>,
    after: StoreMut<'_>,
) -> bool {
    match (trap, problem) {
        (Some(trap), None) => engine::guest_call(
            before,
            instance,
            name,
            args,
            CallOutcome::Trapped(trap),
            after,
        ),
        (None, Some(ExportErrorView::Missing(missing))) => {
            &&& missing == name
            &&& !engine::instance_exports(instance).contains_key(name)
            &&& after == before
        },
        (None, Some(ExportErrorView::IncompatibleType)) => {
            &&& engine::instance_exports(instance).contains_key(name)
            &&& engine::extern_type(before, engine::instance_exports(instance)[name]) != (
            ExternShape::Function {
                params: Seq::new(args.len(), |i: int| ValueKind::I64),
                results,
            })
            &&& after == before
        },
        _ => false,
    }
}

/// Whether a question to a kernel failed, and why: the store at hand is another one, or the function
/// gave no value.
pub open spec fn unanswered(
    kernel: Kernel,
    before: StoreMut<'_>,
    name: Seq<char>,
    args: Seq<i64>,
    results: Seq<ValueKind>,
    err: KernelErrorView,
    after: StoreMut<'_>,
) -> bool {
    if engine::instance_store(kernel.instance()) != engine::store_id(before) {
        err is ContextGone && after == before
    } else {
        match err {
            KernelErrorView::Runtime(trap) => gave_nothing(
                before,
                kernel.instance(),
                name,
                args,
                results,
                Some(trap),
                None,
                after,
            ),
            KernelErrorView::Export(problem) => gave_nothing(
                before,
                kernel.instance(),
                name,
                args,
                results,
                None,
                Some(problem),
                after,
            ),
            _ => false,
        }
    }
}

/// A question to a kernel is a call of the function of that name with just those arguments, and the
/// answer is what it returned. There is none only where the function gave none, or where the store at
/// hand is another one.
pub proof fn questions_are_calls(
    kernel: Kernel,
    before: StoreMut<'_>,
    name: Seq<char>,
    args: Seq<i64>,
    results: Seq<ValueKind>,
    outcome: Result<Seq<int>, KernelErrorView>,
    after: StoreMut<'_>,
)
    requires
        kernel.asks(before, name, args, results, outcome, after),
    ensures
        match outcome {
            Ok(values) => {
                &&& engine::instance_store(kernel.instance()) == engine::store_id(before)
                &&& returned(before, kernel.instance(), name, args, values, after)
            },
            Err(err) => unanswered(kernel, before, name, args, results, err, after),
        },
{
}

/// Whether the kernel was asked for the length of a block, and what it answered.
pub open spec fn was_measured(
    kernel: Kernel,
    before: StoreMut<'_>,
    offset: u64,
    outcome: Result<u64, KernelErrorView>,
    after: StoreMut<'_>,
) -> bool {
    match outcome {
        Ok(length) => exists|values: Seq<int>|
            #[trigger] returned(
                before,
                kernel.instance(),
                "length"@,
                number(offset as i64),
                values,
                after,
            ) && length == values[0] as u64,
        Err(err) => unanswered(
            kernel,
            before,
            "length"@,
            number(offset as i64),
            seq![ValueKind::I64],
            err,
            after,
        ),
    }
}

/// The length of a block is what the kernel answers when it is asked for the length at the offset.
pub proof fn lengths_are_asked_for(
    kernel: Kernel,
    before: StoreMut<'_>,
    offset: u64,
    outcome: Result<u64, KernelErrorView>,
    after: StoreMut<'_>,
)
    requires
        kernel.measures(before, offset, outcome, after),
    ensures
        was_measured(kernel, before, offset, outcome, after),
{
    let said = choose|said: Result<Seq<int>, KernelErrorView>| #[trigger]
        kernel.asks(
            before,
            "length"@,
            engine::one_arg(offset as i64),
            engine::long_result(),
            said,
            after,
        ) && outcome == kernel::as_unsigned(said);
    questions_are_calls(
        kernel,
        before,
        "length"@,
        number(offset as i64),
        seq![ValueKind::I64],
        said,
        after,
    );
}

/// Whether a block was looked for at an offset, and found or not.
pub open spec fn was_found(
    kernel: Kernel,
    before: StoreMut<'_>,
    offset: u64,
    outcome: Option<MemoryHandle>,
    after: StoreMut<'_>,
) -> bool {
    &&& offset == 0 ==> outcome == Some(MemoryHandle { offset: 0, length: 0 }) && after == before
    &&& offset != 0 ==> match outcome {
        Some(handle) => exists|values: Seq<int>|
            {
                &&& #[trigger] returned(
                    before,
                    kernel.instance(),
                    "length"@,
                    number(offset as i64),
                    values,
                    after,
                )
                &&& handle.offset == offset
                &&& handle.length == values[0] as u64
                &&& handle.length != 0
            },
        None => {
            ||| exists|values: Seq<int>|
                #[trigger] returned(
                    before,
                    kernel.instance(),
                    "length"@,
                    number(offset as i64),
                    values,
                    after,
                ) && values[0] as u64 == 0
            ||| exists|err: KernelErrorView| #[trigger]
                unanswered(
                    kernel,
                    before,
                    "length"@,
                    number(offset as i64),
                    seq![ValueKind::I64],
                    err,
                    after,
                )
        },
    }
}

/// A handle that is found at an offset has that offset, and the length that the kernel answers. None is
/// found only where the kernel has no such block, or cannot say. At offset 0 there is always the null
/// handle, and the kernel is not asked.
pub proof fn handles_are_found_where_they_are(
    kernel: Kernel,
    before: StoreMut<'_>,
    offset: u64,
    outcome: Option<MemoryHandle>,
    after: StoreMut<'_>,
)
    requires
        kernel.finds(before, offset, outcome, after),
    ensures
        was_found(kernel, before, offset, outcome, after),
{
    if offset != 0 {
        let length = choose|length: Result<u64, KernelErrorView>| #[trigger]
            kernel.measures(before, offset, length, after) && outcome
                == kernel::handle_of(offset, length);
        lengths_are_asked_for(kernel, before, offset, length, after);
    }
}

/// Whether room was asked for, and got or not.
pub open spec fn was_allocated(
    kernel: Kernel,
    before: StoreMut<'_>,
    n: u64,
    outcome: Result<MemoryHandle, KernelErrorView>,
    after: StoreMut<'_>,
) -> bool {
    &&& n == 0 ==> outcome == Ok::<MemoryHandle, KernelErrorView>(
        MemoryHandle { offset: 0, length: 0 },
    ) && after == before
    &&& n != 0 ==> match outcome {
        Ok(handle) => handle.length == n && handle.offset != 0 && exists|values: Seq<int>|
            #[trigger] returned(
                before,
                kernel.instance(),
                "alloc"@,
                number(n as i64),
                values,
                after,
            ) && handle.offset == values[0] as u64,
        Err(KernelErrorView::OutOfMemory) => exists|values: Seq<int>|
            #[trigger] returned(
                before,
                kernel.instance(),
                "alloc"@,
                number(n as i64),
                values,
                after,
            ) && values[0] as u64 == 0,
        Err(err) => unanswered(
            kernel,
            before,
            "alloc"@,
            number(n as i64),
            seq![ValueKind::I64],
            err,
            after,
        ),
    }
}

/// An allocation of some bytes has just that length, and is where the kernel answers. There is none where
/// the kernel answers 0, and then there is no memory left, or where it does not answer. Nothing is
/// allocated for no bytes.
pub proof fn allocations_have_their_length(
    kernel: Kernel,
    before: StoreMut<'_>,
    n: u64,
    outcome: Result<MemoryHandle, KernelErrorView>,
    after: StoreMut<'_>,
)
    requires
        kernel.allocates(before, n, outcome, after),
    ensures
        was_allocated(kernel, before, n, outcome, after),
{
    if n != 0 {
        let said = choose|said: Result<Seq<int>, KernelErrorView>| #[trigger]
            kernel.asks(
                before,
                "alloc"@,
                engine::one_arg(n as i64),
                engine::long_result(),
                said,
                after,
            ) && outcome == kernel::allocated(n, kernel::as_unsigned(said));
        questions_are_calls(
            kernel,
            before,
            "alloc"@,
            number(n as i64),
            seq![ValueKind::I64],
            said,
            after,
        );
    }
}

/// Whether the kernel was told of a block to be freed.
pub open spec fn was_freed(
    kernel: Kernel,
    before: StoreMut<'_>,
    handle: MemoryHandle,
    outcome: Result<(), KernelErrorView>,
    after: StoreMut<'_>,
) -> bool {
    match outcome {
        Ok(_) => exists|values: Seq<int>| #[trigger]
            returned(
                before,
                kernel.instance(),
                "free"@,
                number(handle.offset as i64),
                values,
                after,
            ),
        Err(err) => unanswered(
            kernel,
            before,
            "free"@,
            number(handle.offset as i64),
            Seq::empty(),
            err,
            after,
        ),
    }
}

/// To free a block is to tell the kernel its offset, once.
pub proof fn blocks_are_freed_by_their_offset(
    kernel: Kernel,
    before: StoreMut<'_>,
    handle: MemoryHandle,
    outcome: Result<(), KernelErrorView>,
    after: StoreMut<'_>,
)
    requires
        kernel.frees(before, handle, outcome, after),
    ensures
        was_freed(kernel, before, handle, outcome, after),
{
    let said = choose|said: Result<Seq<int>, KernelErrorView>| #[trigger]
        kernel.asks(
            before,
            "free"@,
            engine::one_arg(handle.offset as i64),
            engine::no_result(),
            said,
            after,
        ) && outcome == kernel::as_unit(said);
    questions_are_calls(
        kernel,
        before,
        "free"@,
        number(handle.offset as i64),
        Seq::empty(),
        said,
        after,
    );
}

/// Whether the kernel was told of a block, by its offset and its length.
pub open spec fn was_announced(
    kernel: Kernel,
    before: StoreMut<'_>,
    name: Seq<char>,
    handle: MemoryHandle,
    outcome: Result<(), KernelErrorView>,
    after: StoreMut<'_>,
) -> bool {
    match outcome {
        Ok(_) => exists|values: Seq<int>| #[trigger]
            returned(
                before,
                kernel.instance(),
                name,
                numbers(handle.offset as i64, handle.length as i64),
                values,
                after,
            ),
        Err(err) => unanswered(
            kernel,
            before,
            name,
            numbers(handle.offset as i64, handle.length as i64),
            Seq::empty(),
            err,
            after,
        ),
    }
}

/// To set the input or the output is to tell the kernel the offset and the length of the block, in this
/// order and whole.
pub proof fn blocks_are_announced_whole(
    kernel: Kernel,
    before: StoreMut<'_>,
    name: Seq<char>,
    handle: MemoryHandle,
    outcome: Result<(), KernelErrorView>,
    after: StoreMut<'_>,
)
    requires
        kernel.announces(before, name, handle, outcome, after),
    ensures
        was_announced(kernel, before, name, handle, outcome, after),
{
    let said = choose|said: Result<Seq<int>, KernelErrorView>| #[trigger]
        kernel.asks(
            before,
            name,
            engine::two_args(handle.offset as i64, handle.length as i64),
            engine::no_result(),
            said,
            after,
        ) && outcome == kernel::as_unit(said);
    questions_are_calls(
        kernel,
        before,
        name,
        numbers(handle.offset as i64, handle.length as i64),
        Seq::empty(),
        said,
        after,
    );
}

/// Whether the kernel was asked for a block, first for its offset and then for its length.
pub open spec fn was_reported(
    kernel: Kernel,
    before: StoreMut<'_>,
    first: Seq<char>,
    second: Seq<char>,
    outcome: Result<MemoryHandle, KernelErrorView>,
    after: StoreMut<'_>,
) -> bool {
    match outcome {
        Ok(handle) => exists|offset: Seq<int>, between: StoreMut<'_>, length: Seq<int>|
            {
                &&& #[trigger] returned(
                    before,
                    kernel.instance(),
                    first,
                    Seq::empty(),
                    offset,
                    between,
                )
                &&& #[trigger] returned(
                    between,
                    kernel.instance(),
                    second,
                    Seq::empty(),
                    length,
                    after,
                )
                &&& handle.offset == offset[0] as u64
                &&& handle.length == length[0] as u64
            },
        Err(err) => {
            ||| unanswered(
                kernel,
                before,
                first,
                Seq::empty(),
                seq![ValueKind::I64],
                err,
                after,
            )
            ||| exists|offset: Seq<int>, between: StoreMut<'_>|
                #[trigger] returned(
                    before,
                    kernel.instance(),
                    first,
                    Seq::empty(),
                    offset,
                    between,
                ) && unanswered(
                    kernel,
                    between,
                    second,
                    Seq::empty(),
                    seq![ValueKind::I64],
                    err,
                    after,
                )
        },
    }
}

/// The block that is reported has the offset that the kernel answers first, and the length that it
/// answers then. There is none only where the kernel does not answer one of the two.
pub proof fn blocks_are_reported_whole(
    kernel: Kernel,
    before: StoreMut<'_>,
    first: Seq<char>,
    second: Seq<char>,
    outcome: Result<MemoryHandle, KernelErrorView>,
    after: StoreMut<'_>,
)
    requires
        kernel.reports(before, first, second, outcome, after),
    ensures
        was_reported(kernel, before, first, second, outcome, after),
{
    let (said, between) = choose|said: Result<Seq<int>, KernelErrorView>, between: StoreMut<'_>|
     #[trigger]
        kernel.asks(before, first, engine::no_args(), engine::long_result(), said, between)
            && match kernel::as_unsigned(said) {
            Err(err) => outcome == Err::<MemoryHandle, KernelErrorView>(err) && after == between,
            Ok(offset) => exists|other: Result<Seq<int>, KernelErrorView>| #[trigger]
                kernel.asks(
                    between,
                    second,
                    engine::no_args(),
                    engine::long_result(),
                    other,
                    after,
                ) && outcome == match kernel::as_unsigned(other) {
                    Err(err) => Err(err),
                    Ok(length) => Ok(MemoryHandle { offset, length }),
                },
        };
    questions_are_calls(kernel, before, first, Seq::empty(), seq![ValueKind::I64], said, between);
    if let Ok(values) = said {
        let offset = values[0] as u64;
        let other = choose|other: Result<Seq<int>, KernelErrorView>| #[trigger]
            kernel.asks(between, second, engine::no_args(), engine::long_result(), other, after)
                && outcome == match kernel::as_unsigned(other) {
                Err(err) => Err(err),
                Ok(length) => Ok(MemoryHandle { offset, length }),
            };
        questions_are_calls(
            kernel,
            between,
            second,
            Seq::empty(),
            seq![ValueKind::I64],
            other,
            after,
        );
    }
}

/// Whether bytes are in the memory of a kernel from an offset on.
pub open spec fn lie_at(
    kernel: Kernel,
    store: StoreMut<'_>,
    offset: int,
    bytes: Seq<u8>,
) -> bool {
    exists|memory: Memory|
        {
            &&& engine::instance_exports(kernel.instance()).contains_key("memory"@)
            &&& engine::extern_memory(engine::instance_exports(kernel.instance())["memory"@])
                == Some(memory)
            &&& 0 <= offset
            &&& offset + bytes.len() <= (#[trigger] engine::memory_data(store, memory)).len()
            &&& engine::memory_data(store, memory).subrange(offset, offset + bytes.len()) == bytes
        }
}

/// The bytes of a block that is inside the memory are all the bytes from its offset on, as many as its
/// length says, and those of a block that ends outside of it are all that there are. They cannot be had only where the store at hand is another one, or the kernel exports
/// no memory.
pub proof fn bytes_are_those_in_memory(kernel: Kernel, store: StoreMut<'_>, handle: MemoryHandle)
    ensures
        match kernel.bytes_at(store, handle) {
            Ok(bytes) => {
                &&& bytes.len() <= handle.length
                &&& bytes.len() > 0 ==> lie_at(kernel, store, handle.offset as int, bytes)
                &&& forall|memory: Memory|
                    engine::extern_memory(
                        engine::instance_exports(kernel.instance())["memory"@],
                    ) == Some(memory) && handle.offset + handle.length <= (
                    #[trigger] engine::memory_data(store, memory)).len() && handle.offset
                        + handle.length <= u64::MAX ==> bytes == engine::memory_data(
                        store,
                        memory,
                    ).subrange(handle.offset as int, handle.offset + handle.length)
                &&& forall|memory: Memory|
                    engine::extern_memory(
                        engine::instance_exports(kernel.instance())["memory"@],
                    ) == Some(memory) && handle.offset <= (#[trigger] engine::memory_data(
                        store,
                        memory,
                    )).len() < handle.offset + handle.length <= u64::MAX ==> bytes
                        == engine::memory_data(store, memory).skip(handle.offset as int)
                &&& handle.offset + handle.length > u64::MAX ==> bytes.len() == 0
                &&& forall|memory: Memory|
                    engine::extern_memory(
                        engine::instance_exports(kernel.instance())["memory"@],
                    ) == Some(memory) && handle.offset > (#[trigger] engine::memory_data(
                        store,
                        memory,
                    )).len() ==> bytes.len() == 0
            },
            Err(KernelErrorView::ContextGone) => engine::instance_store(kernel.instance())
                != engine::store_id(store),
            Err(KernelErrorView::Export(ExportErrorView::Missing(name))) => name == "memory"@
                && !engine::instance_exports(kernel.instance()).contains_key("memory"@),
            Err(KernelErrorView::Export(ExportErrorView::IncompatibleType)) => {
                &&& engine::instance_exports(kernel.instance()).contains_key("memory"@)
                &&& engine::extern_memory(
                    engine::instance_exports(kernel.instance())["memory"@],
                ) is None
            },
            Err(_) => false,
        },
{
    if let Ok(bytes) = kernel.bytes_at(store, handle) {
        let memory = engine::extern_memory(
            engine::instance_exports(kernel.instance())["memory"@],
        )->0;
        let data = engine::memory_data(store, memory);
        let end = handle.offset.wrapping_add(handle.length);
        if handle.offset + handle.length <= u64::MAX {
            assert(end == handle.offset + handle.length);
            if end <= data.len() && handle.length == 0 {
                assert(bytes =~= data.subrange(handle.offset as int, handle.offset as int));
            }
            if handle.offset <= data.len() < end {
                assert(bytes =~= data.skip(handle.offset as int));
            }
        } else {
            assert(end < handle.offset);
        }
        if bytes.len() > 0 {
            assert(data.subrange(handle.offset as int, handle.offset + bytes.len()) =~= bytes);
            assert(lie_at(kernel, store, handle.offset as int, bytes));
        }
    }
}

/// The text in a block is the one whose encoding its bytes are; there is none only where the bytes are
/// no encoding of a text, or cannot be had.
pub proof fn texts_are_those_in_memory(kernel: Kernel, store: StoreMut<'_>, handle: MemoryHandle)
    ensures
        match kernel.text_at(store, handle) {
            Ok(text) => kernel.bytes_at(store, handle) == Ok::<Seq<u8>, KernelErrorView>(
                encode_utf8(text),
            ),
            Err(KernelErrorView::FromUtf8Error(bytes)) => {
                &&& kernel.bytes_at(store, handle) == Ok::<Seq<u8>, KernelErrorView>(bytes)
                &&& !valid_utf8(bytes)
            },
            Err(err) => kernel.bytes_at(store, handle) == Err::<Seq<u8>, KernelErrorView>(err),
        },
{
    if let Ok(bytes) = kernel.bytes_at(store, handle) {
        if valid_utf8(bytes) {
            decode_utf8_encode_utf8(bytes);
        }
    }
}

/// Whether the kernel was asked for as many bytes as there are, and answered.
pub open spec fn room_was_made(
    kernel: Kernel,
    before: StoreMut<'_>,
    data: Seq<u8>,
    values: Seq<int>,
    after: StoreMut<'_>,
) -> bool {
    returned(before, kernel.instance(), "alloc"@, number(data.len() as u64 as i64), values, after)
}

/// Whether bytes are in the memory of a kernel from an offset on, and nothing else in it has changed.
pub open spec fn are_written(
    kernel: Kernel,
    before: StoreMut<'_>,
    offset: int,
    data: Seq<u8>,
    after: StoreMut<'_>,
) -> bool {
    &&& lie_at(kernel, after, offset, data)
    &&& offset + data.len() <= u64::MAX
    &&& forall|memory: Memory, i: int|
        engine::extern_memory(engine::instance_exports(kernel.instance())["memory"@]) == Some(
            memory,
        ) && 0 <= i < engine::memory_data(before, memory).len() && !(offset <= i < offset
            + data.len()) ==> engine::memory_data(after, memory)[i] == #[trigger] engine::memory_data(
            before,
            memory,
        )[i]
    &&& forall|memory: Memory|
        engine::extern_memory(engine::instance_exports(kernel.instance())["memory"@]) == Some(
            memory,
        ) ==> engine::memory_data(after, memory).len() == (#[trigger] engine::memory_data(
            before,
            memory,
        )).len()
}

/// Whether data has been put into the memory of a kernel: it lies there whole, where the handle says; the
/// kernel made just as much room; and nothing else in memory has changed. Nothing is no block.
pub open spec fn is_put_in(
    kernel: Kernel,
    before: StoreMut<'_>,
    data: Seq<u8>,
    handle: MemoryHandle,
    after: StoreMut<'_>,
) -> bool {
    &&& engine::instance_store(kernel.instance()) == engine::store_id(before)
    &&& engine::store_id(after) == engine::store_id(before)
    &&& handle.length == data.len()
    &&& if data.len() == 0 {
        handle.offset == 0 && after == before
    } else {
        handle.offset != 0 && exists|values: Seq<int>, between: StoreMut<'_>|
            {
                &&& #[trigger] room_was_made(kernel, before, data, values, between)
                &&& handle.offset == values[0] as u64
                &&& are_written(kernel, between, handle.offset as int, data, after)
            }
    }
}

/// Why the memory of a kernel cannot be had: it exports nothing of that name, or something else.
pub open spec fn memory_problem(kernel: Kernel) -> Option<ExportErrorView> {
    if !engine::instance_exports(kernel.instance()).contains_key("memory"@) {
        Some(ExportErrorView::Missing("memory"@))
    } else if engine::extern_memory(
        engine::instance_exports(kernel.instance())["memory"@],
    ) is None {
        Some(ExportErrorView::IncompatibleType)
    } else {
        None
    }
}

/// Whether there was a reason not to put data into the memory of a kernel: there is no room, the kernel
/// answers with a place outside its memory, does not answer, or has no memory.
pub open spec fn is_not_put_in(
    kernel: Kernel,
    before: StoreMut<'_>,
    data: Seq<u8>,
    err: KernelErrorView,
    after: StoreMut<'_>,
) -> bool {
    &&& data.len() > 0
    &&& match err {
        KernelErrorView::OutOfMemory => exists|values: Seq<int>|
            #[trigger] room_was_made(kernel, before, data, values, after) && values[0] as u64 == 0,
        KernelErrorView::MemoryAccess(_) => exists|values: Seq<int>|
            {
                &&& #[trigger] room_was_made(kernel, before, data, values, after)
                &&& values[0] as u64 != 0
                &&& memory_problem(kernel) is None
                &&& forall|memory: Memory|
                    engine::extern_memory(
                        engine::instance_exports(kernel.instance())["memory"@],
                    ) == Some(memory) ==> (values[0] as u64) + data.len() > u64::MAX || (
                    values[0] as u64) + data.len() > (#[trigger] engine::memory_data(
                        after,
                        memory,
                    )).len()
            },
        _ => {
            ||| unanswered(
                kernel,
                before,
                "alloc"@,
                number(data.len() as u64 as i64),
                seq![ValueKind::I64],
                err,
                after,
            )
            ||| exists|values: Seq<int>|
                {
                    &&& #[trigger] room_was_made(kernel, before, data, values, after)
                    &&& values[0] as u64 != 0
                    &&& memory_problem(kernel) matches Some(problem) && err
                        == KernelErrorView::Export(problem)
                }
        },
    }
}

/// Whether there was a reason not to put a value into the memory of a kernel: the store at hand is another
/// one, the value could not be encoded, or its encoding could not be put in.
pub open spec fn is_not_kept(
    kernel: Kernel,
    before: StoreMut<'_>,
    encoded: Result<Seq<u8>, extism_convert::Error>,
    err: KernelErrorView,
    after: StoreMut<'_>,
) -> bool {
    if engine::instance_store(kernel.instance()) != engine::store_id(before) {
        err is ContextGone && after == before
    } else {
        match encoded {
            Err(reason) => err == KernelErrorView::Extism(reason) && after == before,
            Ok(data) => is_not_put_in(kernel, before, data, err, after),
        }
    }
}

/// A value that is put into memory lies there, encoded and whole. It fails only where there is a reason.
pub proof fn values_are_kept_whole(
    kernel: Kernel,
    before: StoreMut<'_>,
    encoded: Result<Seq<u8>, extism_convert::Error>,
    outcome: Result<MemoryHandle, KernelErrorView>,
    after: StoreMut<'_>,
)
    requires
        encoded matches Ok(data) ==> data.len() <= u64::MAX,
        kernel.keeps(before, encoded, outcome, after),
    ensures
        match outcome {
            Ok(handle) => encoded is Ok && is_put_in(kernel, before, encoded->Ok_0, handle, after),
            Err(err) => is_not_kept(kernel, before, encoded, err, after),
        },
{
    if engine::instance_store(kernel.instance()) == engine::store_id(before) {
        if let Ok(data) = encoded {
            if data.len() > 0 {
                values_are_written(kernel, before, data, outcome, after);
            }
        }
    }
}

/// Data that has been put into memory is what the handle then gives.
pub proof fn data_that_is_put_in_is_there(
    kernel: Kernel,
    before: StoreMut<'_>,
    data: Seq<u8>,
    handle: MemoryHandle,
    after: StoreMut<'_>,
)
    requires
        0 < data.len() <= u64::MAX,
        is_put_in(kernel, before, data, handle, after),
    ensures
        kernel.bytes_at(after, handle) == Ok::<Seq<u8>, KernelErrorView>(data),
{
    let (values, between) = choose|values: Seq<int>, between: StoreMut<'_>|
        {
            &&& #[trigger] room_was_made(kernel, before, data, values, between)
            &&& handle.offset == values[0] as u64
            &&& are_written(kernel, between, handle.offset as int, data, after)
        };
    assert(lie_at(kernel, after, handle.offset as int, data));
    bytes_are_those_in_memory(kernel, after, handle);
}

proof fn values_are_written(
    kernel: Kernel,
    before: StoreMut<'_>,
    data: Seq<u8>,
    outcome: Result<MemoryHandle, KernelErrorView>,
    after: StoreMut<'_>,
)
    requires
        0 < data.len() <= u64::MAX,
        engine::instance_store(kernel.instance()) == engine::store_id(before),
        kernel.keeps(before, Ok(data), outcome, after),
    ensures
        match outcome {
            Ok(handle) => is_put_in(kernel, before, data, handle, after),
            Err(err) => is_not_put_in(kernel, before, data, err, after),
        },
{
    let n = data.len() as u64;
    let (got, between) = choose|got: Result<MemoryHandle, KernelErrorView>, between: StoreMut<'_>|
     #[trigger]
        kernel.allocates(before, n, got, between) && match got {
            Err(err) => outcome == Err::<MemoryHandle, KernelErrorView>(err) && after == between,
            Ok(handle) => kernel.fills(between, handle, data, outcome, after),
        };
    allocations_have_their_length(kernel, before, n, got, between);
    match got {
        Ok(place) => {
            let values = choose|values: Seq<int>|
                #[trigger] returned(
                    before,
                    kernel.instance(),
                    "alloc"@,
                    number(n as i64),
                    values,
                    between,
                ) && place.offset == values[0] as u64;
            assert(room_was_made(kernel, before, data, values, between));
            if let Ok(memory) = engine::memory_export(kernel.instance(), "memory"@) {
                let old_data = engine::memory_data(between, memory);
                if let Ok(handle) = outcome {
                    let new_data = engine::memory_data(after, memory);
                    let start = place.offset as int;
                    assert(new_data.subrange(start, start + data.len()) =~= data);
                    assert(new_data.len() == old_data.len());
                    assert(lie_at(kernel, after, start, data));
                    assert(are_written(kernel, between, start, data, after));
                }
            }
        },
        Err(KernelErrorView::OutOfMemory) => {
            let values = choose|values: Seq<int>|
                #[trigger] returned(
                    before,
                    kernel.instance(),
                    "alloc"@,
                    number(n as i64),
                    values,
                    between,
                ) && values[0] as u64 == 0;
            assert(room_was_made(kernel, before, data, values, between));
        },
        Err(err) => {},
    }
}

/// What a kernel is instantiated against: a memory under the name that plugins know, and nothing else.
pub open spec fn just_a_memory(memory: Memory) -> Map<(Seq<char>, Seq<char>), Extern> {
    Map::empty().insert(("extism:host/env"@, "memory"@), engine::memory_as_extern(memory))
}

/// A kernel that has started is an instance of just the given module, against a new memory without
/// limits. It fails only where there is no memory, where the module cannot be instantiated so, or where
/// the store gave another memory than asked for and the module does not ask for that.
pub proof fn kernels_are_instances(
    before: StoreMut<'_>,
    runtime: Module,
    outcome: Result<Instance, LinkProblem>,
    after: StoreMut<'_>,
)
    requires
        kernel::kernel_starts(before, runtime, outcome, after),
    ensures
        exists|made: Result<Memory, MemoryError>, between: StoreMut<'_>|
            #[trigger] engine::memory_creation(
                before,
                MemoryLimits { minimum: 0, maximum: None, shared: false },
                made,
                between,
            ) && match (made, outcome) {
                (Err(err), Err(LinkProblem::Memory(same))) => err == same && after == between,
                (Ok(memory), Ok(instance)) => engine::instantiation(
                    between,
                    runtime,
                    just_a_memory(memory),
                    Ok(instance),
                    after,
                ),
                (Ok(memory), Err(LinkProblem::Wasmer(err))) => engine::instantiation(
                    between,
                    runtime,
                    just_a_memory(memory),
                    Err(err),
                    after,
                ),
                (Ok(memory), Err(LinkProblem::IncompatibleType(space, name))) => {
                    &&& engine::extern_type(between, engine::memory_as_extern(memory)) != (
                    ExternShape::Memory(
                        MemoryLimits { minimum: 0, maximum: None, shared: false },
                    ))
                    &&& space == "extism:host/env"@
                    &&& name == "memory"@
                    &&& after == between
                },
                _ => false,
            },
{
    let (made, between) = choose|made: Result<Memory, MemoryError>, between: StoreMut<'_>| #[trigger]
        engine::memory_creation(before, kernel::unlimited(), made, between) && match made {
            Err(err) => outcome == Err::<Instance, LinkProblem>(LinkProblem::Memory(err)) && after
                == between,
            Ok(memory) => if kernel::is_unlimited(between, memory) || kernel::asks_for_unlimited(
                runtime,
            ) {
                exists|started: Result<Instance, wasmer::InstantiationError>| #[trigger]
                    engine::instantiation(
                        between,
                        runtime,
                        kernel::kernel_imports(memory),
                        started,
                        after,
                    ) && outcome == match started {
                        Ok(instance) => Ok(instance),
                        Err(err) => Err(LinkProblem::Wasmer(err)),
                    }
            } else {
                &&& outcome == Err::<Instance, LinkProblem>(
                    LinkProblem::IncompatibleType(EXTISM_ENV_MODULE@, "memory"@),
                )
                &&& after == between
            },
        };
    assert(engine::memory_creation(
        before,
        MemoryLimits { minimum: 0, maximum: None, shared: false },
        made,
        between,
    ));
    if let Ok(memory) = made {
        assert(kernel::kernel_imports(memory) == just_a_memory(memory));
    }
}

/// What is decoded from a block are just its bytes, and what comes of it is handed on.
pub proof fn values_are_decoded_from_their_bytes<
    T,
    D: Fn(Vec<u8>) -> Result<T, extism_convert::Error>,
>(bytes: Result<Seq<u8>, KernelErrorView>, decode: D, result: Result<T, ConvertError>)
    requires
        kernel::decoded(bytes, decode, result),
    ensures
        match result {
            Ok(value) => function::decodes(bytes, decode, value),
            Err(ConvertError::Kernel(err)) => bytes == Err::<Seq<u8>, KernelErrorView>(err@),
            Err(ConvertError::Convert(err)) => function::refuses(bytes, decode, err),
        },
{
    if let Ok(content) = bytes {
        let (data, end) = choose|data: Vec<u8>, end: Result<T, extism_convert::Error>|
            data@ == content && #[trigger] call_ensures(decode, (data,), end) && match end {
                Ok(value) => result == Ok::<T, ConvertError>(value),
                Err(err) => result == Err::<T, ConvertError>(ConvertError::Convert(err)),
            };
        match end {
            Ok(value) => {
                assert(call_ensures(decode, (data,), Ok(value)));
                assert(function::decodes(bytes, decode, value));
            },
            Err(err) => {
                assert(call_ensures(decode, (data,), Err::<T, extism_convert::Error>(err)));
                assert(function::refuses(bytes, decode, err));
            },
        }
    }
}

} // verus!
