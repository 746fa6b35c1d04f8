//! What calls of functions of plugins come down to.
use super::memory;
use crate::engine::{self, CallOutcome, ValueKind};
use crate::errors::{KernelErrorView, PluginRunError, RunProblem};
use crate::function;
use crate::kernel::{self, Kernel, MemoryHandle};
use crate::plugin::{self, Plugin};
use vstd::prelude::*;
use wasmer::StoreMut;

verus! {

/// Whether a function of the main module of a plugin ran, without arguments, and how that ended. It has
/// failed where it returned something else than 0; it did not run where there is no such module or
/// function.
pub open spec fn ran(
    plugin: Plugin,
    before: StoreMut<'_>,
    name: Seq<char>,
    outcome: Result<(), RunProblem>,
    after: StoreMut<'_>,
) -> bool {
    let main = plugin.parts().instances["main"@];
    if !plugin.parts().instances.contains_key("main"@) {
        outcome == Err::<(), RunProblem>(RunProblem::NoMainModule) && after == before
    } else {
        match outcome {
            Ok(_) => exists|values: Seq<int>|
                #[trigger] memory::returned(before, main, name, Seq::empty(), values, after)
                    && values[0] == 0,
            Err(RunProblem::Failed(code)) => exists|values: Seq<int>|
                #[trigger] memory::returned(before, main, name, Seq::empty(), values, after)
                    && values[0] != 0 && code == values[0] as i32,
            Err(RunProblem::Runtime(trap)) => memory::gave_nothing(
                before,
                main,
                name,
                Seq::empty(),
                seq![ValueKind::I32],
                Some(trap),
                None,
                after,
            ),
            Err(RunProblem::Export(problem)) => memory::gave_nothing(
                before,
                main,
                name,
                Seq::empty(),
                seq![ValueKind::I32],
                None,
                Some(problem),
                after,
            ),
            Err(_) => false,
        }
    }
}

/// A call runs the function of that name of the module called `main`, and succeeds just where it returns
/// 0.
pub proof fn calls_run_the_main_module(
    plugin: Plugin,
    before: StoreMut<'_>,
    name: Seq<char>,
    outcome: Result<(), RunProblem>,
    after: StoreMut<'_>,
)
    requires
        plugin.runs(before, name, outcome, after),
    ensures
        ran(plugin, before, name, outcome, after),
{
    if plugin.parts().instances.contains_key("main"@) {
        let main = plugin.parts().instances["main"@];
        let end = choose|end: CallOutcome| #[trigger]
            engine::calls(
                before,
                main,
                name,
                engine::no_args(),
                engine::int_result(),
                end,
                after,
            ) && outcome == plugin::run_outcome(end);
        assert(engine::longs(0) =~= Seq::new(0, |i: int| ValueKind::I64));
        if let CallOutcome::Returned(values) = end {
            assert(memory::returned(before, main, name, Seq::empty(), values, after));
        }
    }
}

/// Whether the kernel told where a block is: its offset, and then its length.
pub open spec fn is_told(
    kernel: Kernel,
    before: StoreMut<'_>,
    first: Seq<char>,
    second: Seq<char>,
    handle: MemoryHandle,
    after: StoreMut<'_>,
) -> bool {
    exists|offset: Seq<int>, between: StoreMut<'_>, length: Seq<int>|
        {
            &&& #[trigger] memory::returned(
                before,
                kernel.instance(),
                first,
                Seq::empty(),
                offset,
                between,
            )
            &&& #[trigger] memory::returned(
                between,
                kernel.instance(),
                second,
                Seq::empty(),
                length,
                after,
            )
            &&& handle.offset == offset[0] as u64
            &&& handle.length == length[0] as u64
        }
}

/// Whether the kernel was told of a block to be given back, whatever it made of that.
pub open spec fn is_given_back(
    kernel: Kernel,
    before: StoreMut<'_>,
    handle: MemoryHandle,
    after: StoreMut<'_>,
) -> bool {
    ||| exists|values: Seq<int>| #[trigger]
        memory::returned(
            before,
            kernel.instance(),
            "free"@,
            memory::number(handle.offset as i64),
            values,
            after,
        )
    ||| exists|err: KernelErrorView| #[trigger]
        memory::unanswered(
            kernel,
            before,
            "free"@,
            memory::number(handle.offset as i64),
            Seq::empty(),
            err,
            after,
        )
}

/// Giving a block back tells the kernel its offset, once.
pub(crate) proof fn released_blocks_are_given_back(
    kernel: Kernel,
    before: StoreMut<'_>,
    handle: MemoryHandle,
    after: StoreMut<'_>,
)
    requires
        kernel.releases(before, handle, after),
    ensures
        is_given_back(kernel, before, handle, after),
{
    let outcome = choose|outcome: Result<(), KernelErrorView>| #[trigger]
        kernel.frees(before, handle, outcome, after);
    memory::blocks_are_freed_by_their_offset(kernel, before, handle, outcome, after);
}

/// Whether an output was read: the kernel told where it is after the function had returned 0, and the value
/// is what all the bytes of that block decode to; then the block was given back. There is no value only
/// where the kernel did not tell, or where the block cannot be read or does not decode, and then it is
/// kept.
pub open spec fn is_read<OUT, D: Fn(Vec<u8>) -> Result<OUT, extism_convert::Error>>(
    kernel: Kernel,
    before: StoreMut<'_>,
    decode: D,
    result: Result<OUT, PluginRunError>,
    after: StoreMut<'_>,
) -> bool {
    match result {
        Ok(value) => exists|handle: MemoryHandle, between: StoreMut<'_>|
            {
                &&& #[trigger] is_told(
                    kernel,
                    before,
                    "output_offset"@,
                    "output_length"@,
                    handle,
                    between,
                )
                &&& function::decodes(kernel.bytes_at(between, handle), decode, value)
                &&& is_given_back(kernel, between, handle, after)
            },
        Err(err) => match err@ {
            RunProblem::Context(problem) => is_not_told(kernel, before, problem, after),
            RunProblem::Extism(problem) => exists|handle: MemoryHandle|
                #[trigger] is_told(
                    kernel,
                    before,
                    "output_offset"@,
                    "output_length"@,
                    handle,
                    after,
                ) && function::is_unreadable(kernel.bytes_at(after, handle), decode, problem),
            _ => false,
        },
    }
}

/// Whether the kernel did not tell where the output is, and why.
pub open spec fn is_not_told(
    kernel: Kernel,
    before: StoreMut<'_>,
    problem: KernelErrorView,
    after: StoreMut<'_>,
) -> bool {
    ||| memory::unanswered(
        kernel,
        before,
        "output_offset"@,
        Seq::empty(),
        seq![ValueKind::I64],
        problem,
        after,
    )
    ||| exists|offset: Seq<int>, between: StoreMut<'_>|
        #[trigger] memory::returned(
            before,
            kernel.instance(),
            "output_offset"@,
            Seq::empty(),
            offset,
            between,
        ) && memory::unanswered(
            kernel,
            between,
            "output_length"@,
            Seq::empty(),
            seq![ValueKind::I64],
            problem,
            after,
        )
}

/// The output of a plugin is read whole.
pub proof fn outputs_are_read_whole<OUT, D: Fn(Vec<u8>) -> Result<OUT, extism_convert::Error>>(
    kernel: Kernel,
    before: StoreMut<'_>,
    decode: D,
    result: Result<OUT, PluginRunError>,
    after: StoreMut<'_>,
)
    requires
        plugin::collects(kernel, before, decode, result, after),
    ensures
        is_read(kernel, before, decode, result, after),
{
    let (place, between) = choose|
        place: Result<MemoryHandle, KernelErrorView>,
        between: StoreMut<'_>,
    | #[trigger]
        kernel.reports(before, "output_offset"@, "output_length"@, place, between) && match place {
            Err(err) => plugin::fails(result, RunProblem::Context(err)) && after == between,
            Ok(handle) => plugin::reads_output(kernel, between, handle, decode, result, after),
        };
    memory::blocks_are_reported_whole(
        kernel,
        before,
        "output_offset"@,
        "output_length"@,
        place,
        between,
    );
    if let Ok(handle) = place {
        assert(is_told(kernel, before, "output_offset"@, "output_length"@, handle, between));
        let value = choose|value: Result<OUT, crate::errors::ConvertError>| #[trigger]
            kernel::decoded(kernel.bytes_at(between, handle), decode, value) && match value {
                Err(err) => plugin::fails(result, RunProblem::Extism(err@)) && after == between,
                Ok(value) => result == Ok::<OUT, PluginRunError>(value) && kernel.releases(
                    between,
                    handle,
                    after,
                ),
            };
        memory::values_are_decoded_from_their_bytes(
            kernel.bytes_at(between, handle),
            decode,
            value,
        );
        match value {
            Ok(inner) => {
                released_blocks_are_given_back(kernel, between, handle, after);
            },
            Err(err) => {
                assert(function::is_unreadable(kernel.bytes_at(between, handle), decode, err@));
            },
        }
    }
}

/// Whether a function of a plugin ran and its output was read, or why not.
pub open spec fn ran_and_read<OUT, D: Fn(Vec<u8>) -> Result<OUT, extism_convert::Error>>(
    plugin: Plugin,
    before: StoreMut<'_>,
    name: Seq<char>,
    decode: D,
    result: Result<OUT, PluginRunError>,
    after: StoreMut<'_>,
) -> bool {
    ||| exists|between: StoreMut<'_>|
        #[trigger] ran(plugin, before, name, Ok(()), between) && is_read(
            plugin.own_kernel(),
            between,
            decode,
            result,
            after,
        )
    ||| result matches Err(err) && ran(plugin, before, name, Err(err@), after)
}

/// A call with an output runs the function of that name, and gives what all the bytes of the block decode
/// to that the kernel then tells of, however many they are. It fails only where the function did, or where
/// its output could not be read.
pub proof fn calls_give_the_whole_output<OUT, D: Fn(Vec<u8>) -> Result<OUT, extism_convert::Error>>(
    plugin: Plugin,
    before: StoreMut<'_>,
    name: Seq<char>,
    decode: D,
    result: Result<OUT, PluginRunError>,
    after: StoreMut<'_>,
)
    requires
        plugin.calls_out(before, name, decode, result, after),
    ensures
        ran_and_read(plugin, before, name, decode, result, after),
{
    let (end, between) = choose|end: Result<(), RunProblem>, between: StoreMut<'_>| #[trigger]
        plugin.runs(before, name, end, between) && match end {
            Err(problem) => plugin::fails(result, problem) && after == between,
            Ok(_) => plugin::collects(plugin.own_kernel(), between, decode, result, after),
        };
    calls_run_the_main_module(plugin, before, name, end, between);
    if end is Ok {
        outputs_are_read_whole(plugin.own_kernel(), between, decode, result, after);
        assert(end == Ok::<(), RunProblem>(()));
        assert(ran(plugin, before, name, Ok(()), between));
    }
}

/// Whether the kernel was told of a block as the input, with its offset and its whole length.
pub open spec fn is_input(
    kernel: Kernel,
    before: StoreMut<'_>,
    handle: MemoryHandle,
    after: StoreMut<'_>,
) -> bool {
    exists|values: Seq<int>| #[trigger]
        memory::returned(
            before,
            kernel.instance(),
            "input_set"@,
            memory::numbers(handle.offset as i64, handle.length as i64),
            values,
            after,
        )
}

/// Whether the kernel could not be told of a block as the input, and why.
pub open spec fn is_no_input(
    kernel: Kernel,
    before: StoreMut<'_>,
    handle: MemoryHandle,
    problem: KernelErrorView,
    after: StoreMut<'_>,
) -> bool {
    memory::unanswered(
        kernel,
        before,
        "input_set"@,
        memory::numbers(handle.offset as i64, handle.length as i64),
        Seq::empty(),
        problem,
        after,
    )
}

/// Whether data is in place as the input of a plugin: it lies in the memory of its kernel, whole, and the
/// kernel has been told of just that block.
pub open spec fn is_in_place(
    kernel: Kernel,
    before: StoreMut<'_>,
    data: Seq<u8>,
    after: StoreMut<'_>,
) -> bool {
    exists|handle: MemoryHandle, between: StoreMut<'_>|
        #[trigger] memory::is_put_in(kernel, before, data, handle, between) && is_input(
            kernel,
            between,
            handle,
            after,
        )
}

/// Whether a function ran on the whole input, or why not.
pub open spec fn was_passed_in(
    plugin: Plugin,
    before: StoreMut<'_>,
    name: Seq<char>,
    encoded: Result<Seq<u8>, extism_convert::Error>,
    outcome: Result<(), RunProblem>,
    after: StoreMut<'_>,
) -> bool {
    &&& plugin.home() != engine::store_id(before) ==> outcome == Err::<(), RunProblem>(
        RunProblem::ContextGone,
    ) && after == before
    &&& plugin.home() == engine::store_id(before) ==> match outcome {
        Err(RunProblem::Context(err)) => {
            ||| memory::is_not_kept(plugin.own_kernel(), before, encoded, err, after)
            ||| exists|handle: MemoryHandle, between: StoreMut<'_>|
                encoded is Ok && #[trigger] memory::is_put_in(
                    plugin.own_kernel(),
                    before,
                    encoded->Ok_0,
                    handle,
                    between,
                ) && is_no_input(plugin.own_kernel(), between, handle, err, after)
        },
        Err(RunProblem::NoMainModule) => {
            &&& !plugin.parts().instances.contains_key("main"@)
            &&& encoded is Ok
            &&& exists|handle: MemoryHandle| #[trigger]
                memory::is_put_in(plugin.own_kernel(), before, encoded->Ok_0, handle, after)
        },
        _ => encoded is Ok && exists|between: StoreMut<'_>|
            #[trigger] is_in_place(plugin.own_kernel(), before, encoded->Ok_0, between) && ran(
                plugin,
                between,
                name,
                outcome,
                after,
            ),
    }
}

/// A call with an input runs the function of that name once all the bytes of the encoded input lie in
/// memory and the kernel has been told of just that block. It does not run it only where the store at hand
/// is another one, where the input could not be put in, where there is no main module, or where the kernel
/// could not be told.
pub proof fn calls_pass_the_whole_input(
    plugin: Plugin,
    before: StoreMut<'_>,
    name: Seq<char>,
    encoded: Result<Seq<u8>, extism_convert::Error>,
    outcome: Result<(), RunProblem>,
    after: StoreMut<'_>,
)
    requires
        encoded matches Ok(data) ==> data.len() <= u64::MAX,
        plugin.calls_in(before, name, encoded, outcome, after),
    ensures
        was_passed_in(plugin, before, name, encoded, outcome, after),
{
    if plugin.home() == engine::store_id(before) {
        let kernel = plugin.own_kernel();
        let (kept, ready) = choose|kept: Result<MemoryHandle, KernelErrorView>, ready: StoreMut<'_>|
         #[trigger]
            kernel.keeps(before, encoded, kept, ready) && match kept {
                Err(err) => outcome == Err::<(), RunProblem>(RunProblem::Context(err)) && after
                    == ready,
                Ok(handle) => plugin.passes_in(ready, name, handle, outcome, after),
            };
        memory::values_are_kept_whole(kernel, before, encoded, kept, ready);
        if let Ok(handle) = kept {
            let data = encoded->Ok_0;
            assert(memory::is_put_in(kernel, before, data, handle, ready));
            if plugin.parts().instances.contains_key("main"@) {
                let (told, between) = choose|
                    told: Result<(), KernelErrorView>,
                    between: StoreMut<'_>,
                | #[trigger]
                    kernel.announces(ready, "input_set"@, handle, told, between) && match told {
                        Err(err) => outcome == Err::<(), RunProblem>(RunProblem::Context(err))
                            && after == between,
                        Ok(_) => plugin.runs(between, name, outcome, after),
                    };
                memory::blocks_are_announced_whole(
                    kernel,
                    ready,
                    "input_set"@,
                    handle,
                    told,
                    between,
                );
                if told is Ok {
                    assert(is_input(kernel, ready, handle, between));
                    assert(is_in_place(kernel, before, data, between));
                    calls_run_the_main_module(plugin, between, name, outcome, after);
                }
            }
        }
    }
}

/// Whether a function ran on the whole input and its whole output was read, or why not.
pub open spec fn was_passed_and_read<OUT, D: Fn(Vec<u8>) -> Result<OUT, extism_convert::Error>>(
    plugin: Plugin,
    before: StoreMut<'_>,
    name: Seq<char>,
    encoded: Result<Seq<u8>, extism_convert::Error>,
    decode: D,
    result: Result<OUT, PluginRunError>,
    after: StoreMut<'_>,
) -> bool {
    &&& plugin.home() != engine::store_id(before) ==> (result matches Err(err) && err@
        == RunProblem::ContextGone) && after == before
    &&& plugin.home() == engine::store_id(before) ==> {
        ||| encoded is Ok && exists|between: StoreMut<'_>|
            #[trigger] is_in_place(plugin.own_kernel(), before, encoded->Ok_0, between)
                && ran_and_read(plugin, between, name, decode, result, after)
        ||| result matches Err(err) && err@ matches RunProblem::Context(problem)
            && was_not_passed(plugin.own_kernel(), before, encoded, problem, after)
    }
}

/// A call with an input and an output runs the function of that name once all the bytes of the encoded
/// input lie in memory and the kernel has been told of just that block, and gives what all the bytes of
/// the block decode to that the kernel then tells of. Where the function is not run, the block of the
/// input has been given back, if there is one.
pub proof fn calls_pass_and_give_all<OUT, D: Fn(Vec<u8>) -> Result<OUT, extism_convert::Error>>(
    plugin: Plugin,
    before: StoreMut<'_>,
    name: Seq<char>,
    encoded: Result<Seq<u8>, extism_convert::Error>,
    decode: D,
    result: Result<OUT, PluginRunError>,
    after: StoreMut<'_>,
)
    requires
        encoded matches Ok(data) ==> data.len() <= u64::MAX,
        plugin.calls_in_out(before, name, encoded, decode, result, after),
    ensures
        was_passed_and_read(plugin, before, name, encoded, decode, result, after),
{
    if plugin.home() == engine::store_id(before) {
        let kernel = plugin.own_kernel();
        let (kept, ready) = choose|kept: Result<MemoryHandle, KernelErrorView>, ready: StoreMut<'_>|
         #[trigger]
            kernel.keeps(before, encoded, kept, ready) && match kept {
                Err(err) => plugin::fails(result, RunProblem::Context(err)) && after == ready,
                Ok(handle) => plugin.passes_in_out(ready, name, handle, decode, result, after),
            };
        memory::values_are_kept_whole(kernel, before, encoded, kept, ready);
        if let Ok(handle) = kept {
            let data = encoded->Ok_0;
            assert(memory::is_put_in(kernel, before, data, handle, ready));
            let (told, between) = choose|told: Result<(), KernelErrorView>, between: StoreMut<'_>|
             #[trigger]
                kernel.announces(ready, "input_set"@, handle, told, between) && match told {
                    Err(err) => plugin::fails(result, RunProblem::Context(err)) && kernel.releases(
                        between,
                        handle,
                        after,
                    ),
                    Ok(_) => plugin.calls_out(between, name, decode, result, after),
                };
            memory::blocks_are_announced_whole(
                kernel,
                ready,
                "input_set"@,
                handle,
                told,
                between,
            );
            match told {
                Ok(_) => {
                    assert(is_input(kernel, ready, handle, between));
                    assert(is_in_place(kernel, before, data, between));
                    calls_give_the_whole_output(plugin, between, name, decode, result, after);
                },
                Err(err) => {
                    released_blocks_are_given_back(kernel, between, handle, after);
                    assert(is_no_input(kernel, ready, handle, err, between));
                    assert(was_dropped(kernel, ready, handle, err, after));
                    assert(was_not_passed(kernel, before, encoded, err, after));
                },
            }
        }
    }
}

/// Whether an input could not be passed, and why: it could not be put in, or the kernel could not be told
/// of it, and then its block was given back.
pub open spec fn was_not_passed(
    kernel: Kernel,
    before: StoreMut<'_>,
    encoded: Result<Seq<u8>, extism_convert::Error>,
    problem: KernelErrorView,
    after: StoreMut<'_>,
) -> bool {
    ||| memory::is_not_kept(kernel, before, encoded, problem, after)
    ||| encoded is Ok && exists|handle: MemoryHandle, ready: StoreMut<'_>|
        #[trigger] memory::is_put_in(kernel, before, encoded->Ok_0, handle, ready) && was_dropped(
            kernel,
            ready,
            handle,
            problem,
            after,
        )
}

/// Whether the kernel could not be told of a block as the input, and the block was given back.
pub open spec fn was_dropped(
    kernel: Kernel,
    before: StoreMut<'_>,
    handle: MemoryHandle,
    problem: KernelErrorView,
    after: StoreMut<'_>,
) -> bool {
    exists|between: StoreMut<'_>|
        #[trigger] is_no_input(kernel, before, handle, problem, between) && is_given_back(
            kernel,
            between,
            handle,
            after,
        )
}

/// With a kernel that keeps a slot for the output: where the function of a plugin leaves a block in that
/// slot, a call gives what all the bytes of that block decode to, however many they are.
pub proof fn announced_outputs_are_given<OUT, D: Fn(Vec<u8>) -> Result<OUT, extism_convert::Error>>(
    plugin: Plugin,
    slot: spec_fn(StoreMut<'_>) -> (i64, i64),
    before: StoreMut<'_>,
    name: Seq<char>,
    output: MemoryHandle,
    decode: D,
    value: OUT,
    after: StoreMut<'_>,
)
    requires
        plugin.own_kernel().has_slot(
            slot,
            "output_set"@,
            "output_offset"@,
            "output_length"@,
        ),
        forall|values: Seq<int>, between: StoreMut<'_>| #[trigger]
            memory::returned(
                before,
                plugin.parts().instances["main"@],
                name,
                Seq::empty(),
                values,
                between,
            ) ==> slot(between) == (output.offset as i64, output.length as i64)
                && plugin.own_kernel().runs_in(between),
        plugin.calls_out(before, name, decode, Ok(value), after),
    ensures
        exists|between: StoreMut<'_>| #[trigger]
            is_given_back(plugin.own_kernel(), between, output, after) && function::decodes(
                plugin.own_kernel().bytes_at(between, output),
                decode,
                value,
            ),
{
    let kernel = plugin.own_kernel();
    let (end, ended) = choose|end: Result<(), RunProblem>, ended: StoreMut<'_>| #[trigger]
        plugin.runs(before, name, end, ended) && match end {
            Err(problem) => false,
            Ok(_) => plugin::collects(kernel, ended, decode, Ok(value), after),
        };
    calls_run_the_main_module(plugin, before, name, end, ended);
    let (place, between) = choose|
        place: Result<MemoryHandle, KernelErrorView>,
        between: StoreMut<'_>,
    | #[trigger]
        kernel.reports(ended, "output_offset"@, "output_length"@, place, between) && match place {
            Err(err) => false,
            Ok(handle) => plugin::reads_output(kernel, between, handle, decode, Ok(value), after),
        };
    kernel::slot_is_reported(
        kernel,
        slot,
        "output_set"@,
        "output_offset"@,
        "output_length"@,
        output,
        ended,
        place,
        between,
    );
    let got = choose|got: Result<OUT, crate::errors::ConvertError>| #[trigger]
        kernel::decoded(kernel.bytes_at(between, output), decode, got) && match got {
            Err(err) => false,
            Ok(inner) => Ok::<OUT, PluginRunError>(value) == Ok::<OUT, PluginRunError>(inner)
                && kernel.releases(between, output, after),
        };
    memory::values_are_decoded_from_their_bytes(kernel.bytes_at(between, output), decode, got);
    released_blocks_are_given_back(kernel, between, output, after);
    assert(is_given_back(kernel, between, output, after));
}

/// With a kernel that keeps a slot for the output: where the function of a plugin, however it is run, leaves a block
/// in that slot, a call with an input too gives what all the bytes of that block decode to.
pub proof fn announced_outputs_are_given_for_inputs<
    OUT,
    D: Fn(Vec<u8>) -> Result<OUT, extism_convert::Error>,
>(
    plugin: Plugin,
    slot: spec_fn(StoreMut<'_>) -> (i64, i64),
    before: StoreMut<'_>,
    name: Seq<char>,
    encoded: Result<Seq<u8>, extism_convert::Error>,
    output: MemoryHandle,
    decode: D,
    value: OUT,
    after: StoreMut<'_>,
)
    requires
        plugin.own_kernel().has_slot(
            slot,
            "output_set"@,
            "output_offset"@,
            "output_length"@,
        ),
        forall|start: StoreMut<'_>, values: Seq<int>, between: StoreMut<'_>| #[trigger]
            memory::returned(
                start,
                plugin.parts().instances["main"@],
                name,
                Seq::empty(),
                values,
                between,
            ) ==> slot(between) == (output.offset as i64, output.length as i64)
                && plugin.own_kernel().runs_in(between),
        plugin.calls_in_out(before, name, encoded, decode, Ok(value), after),
    ensures
        exists|between: StoreMut<'_>| #[trigger]
            is_given_back(plugin.own_kernel(), between, output, after) && function::decodes(
                plugin.own_kernel().bytes_at(between, output),
                decode,
                value,
            ),
{
    let kernel = plugin.own_kernel();
    let (kept, ready) = choose|kept: Result<MemoryHandle, KernelErrorView>, ready: StoreMut<'_>|
     #[trigger]
        kernel.keeps(before, encoded, kept, ready) && match kept {
            Err(err) => false,
            Ok(handle) => plugin.passes_in_out(ready, name, handle, decode, Ok(value), after),
        };
    let handle = kept->Ok_0;
    let (told, between) = choose|told: Result<(), KernelErrorView>, between: StoreMut<'_>| #[trigger]
        kernel.announces(ready, "input_set"@, handle, told, between) && match told {
            Err(err) => false,
            Ok(_) => plugin.calls_out(between, name, decode, Ok(value), after),
        };
    announced_outputs_are_given(
        plugin,
        slot,
        between,
        name,
        output,
        decode,
        value,
        after,
    );
}

} // verus!
