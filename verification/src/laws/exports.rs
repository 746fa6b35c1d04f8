//! What calls of functions of the embedding program by guest code come down to.
use super::memory;
use crate::engine::{self, ExternShape, ValueKind};
use crate::errors::{ConvertError, KernelErrorView};
use crate::function::{
    self, Callable, ExportDefinition, FetchProblem, HostCall, HostExport, Plain, Taking,
};
use crate::kernel::{self, Kernel, MemoryHandle};
use vstd::prelude::*;
use wasmer::{Extern, StoreMut};

verus! {

/// Whether an input was had: it is what all the bytes of the block at the place that guest code gave decode
/// to, and the block was given back.
pub open spec fn was_had<IN, D: Fn(Vec<u8>) -> Result<IN, extism_convert::Error>>(
    kernel: Kernel,
    before: StoreMut<'_>,
    input: i64,
    decode: D,
    value: IN,
    after: StoreMut<'_>,
) -> bool {
    exists|handle: MemoryHandle, between: StoreMut<'_>|
        {
            &&& #[trigger] kernel.finds(before, input as u64, Some(handle), between)
            &&& function::decodes(kernel.bytes_at(between, handle), decode, value)
            &&& was_freed(kernel, between, handle, after)
        }
}

/// Whether a block was given back, and that succeeded.
pub open spec fn was_freed(
    kernel: Kernel,
    before: StoreMut<'_>,
    handle: MemoryHandle,
    after: StoreMut<'_>,
) -> bool {
    exists|values: Seq<int>| #[trigger]
        memory::returned(
            before,
            kernel.instance(),
            "free"@,
            memory::number(handle.offset as i64),
            values,
            after,
        )
}

/// Whether an input could not be had, and why: there is no block at the place that guest code gave; its bytes
/// do not decode, and then it is kept; or it could not be given back.
pub open spec fn was_not_had<IN, D: Fn(Vec<u8>) -> Result<IN, extism_convert::Error>>(
    kernel: Kernel,
    before: StoreMut<'_>,
    input: i64,
    decode: D,
    problem: FetchProblem,
    after: StoreMut<'_>,
) -> bool {
    match problem {
        FetchProblem::HandleNotFound(place) => place == input && kernel.finds(
            before,
            input as u64,
            None,
            after,
        ),
        FetchProblem::Access(err) => exists|handle: MemoryHandle|
            #[trigger] kernel.finds(before, input as u64, Some(handle), after)
                && function::is_unreadable(kernel.bytes_at(after, handle), decode, err),
        FetchProblem::Runtime(err) => exists|handle: MemoryHandle, between: StoreMut<'_>|
            #[trigger] kernel.finds(before, input as u64, Some(handle), between)
                && does_decode(kernel, between, handle, decode) && memory::unanswered(
                kernel,
                between,
                "free"@,
                memory::number(handle.offset as i64),
                Seq::empty(),
                err,
                after,
            ),
    }
}

/// Whether the bytes of a block may decode to something.
pub open spec fn does_decode<IN, D: Fn(Vec<u8>) -> Result<IN, extism_convert::Error>>(
    kernel: Kernel,
    store: StoreMut<'_>,
    handle: MemoryHandle,
    decode: D,
) -> bool {
    exists|value: IN| #[trigger] function::decodes(kernel.bytes_at(store, handle), decode, value)
}

/// An input is what all the bytes of its block decode to.
pub proof fn inputs_are_read_whole<IN, D: Fn(Vec<u8>) -> Result<IN, extism_convert::Error>>(
    kernel: Kernel,
    before: StoreMut<'_>,
    input: i64,
    decode: D,
    outcome: Result<IN, FetchProblem>,
    after: StoreMut<'_>,
)
    requires
        function::fetches(kernel, before, input, decode, outcome, after),
    ensures
        match outcome {
            Ok(value) => was_had(kernel, before, input, decode, value, after),
            Err(problem) => was_not_had(kernel, before, input, decode, problem, after),
        },
{
    let (found, between) = choose|found: Option<MemoryHandle>, between: StoreMut<'_>| #[trigger]
        kernel.finds(before, input as u64, found, between) && match found {
            None => {
                &&& outcome == Err::<IN, FetchProblem>(FetchProblem::HandleNotFound(input))
                &&& after == between
            },
            Some(handle) => function::consumes(kernel, between, handle, decode, outcome, after),
        };
    match found {
        None => {
            assert(kernel.finds(before, input as u64, None, after));
        },
        Some(handle) => {
            assert(kernel.finds(before, input as u64, Some(handle), between));
            let value = choose|value: Result<IN, ConvertError>| #[trigger]
                kernel::decoded(kernel.bytes_at(between, handle), decode, value) && match value {
                    Err(err) => outcome == Err::<IN, FetchProblem>(FetchProblem::Access(err@))
                        && after == between,
                    Ok(value) => exists|freed: Result<(), KernelErrorView>| #[trigger]
                        kernel.frees(between, handle, freed, after) && outcome == match freed {
                            Ok(_) => Ok(value),
                            Err(err) => Err(FetchProblem::Runtime(err)),
                        },
                };
            memory::values_are_decoded_from_their_bytes(
                kernel.bytes_at(between, handle),
                decode,
                value,
            );
            match value {
                Err(err) => {
                    assert(function::is_unreadable(kernel.bytes_at(between, handle), decode, err@));
                },
                Ok(inner) => {
                    let freed = choose|freed: Result<(), KernelErrorView>| #[trigger]
                        kernel.frees(between, handle, freed, after) && outcome == match freed {
                            Ok(_) => Ok(inner),
                            Err(err) => Err(FetchProblem::Runtime(err)),
                        };
                    memory::blocks_are_freed_by_their_offset(
                        kernel,
                        between,
                        handle,
                        freed,
                        after,
                    );
                    assert(function::decodes(kernel.bytes_at(between, handle), decode, inner));
                    assert(does_decode(kernel, between, handle, decode));
                },
            }
        },
    }
}

/// Whether guest code got a reply: after a failure it is 0, and nothing has changed. An output is encoded and
/// put into memory whole, and guest code gets its place; 0 only where it could not be put there.
pub open spec fn was_replied<OUT, E: Fn(OUT) -> Result<Vec<u8>, extism_convert::Error>>(
    kernel: Kernel,
    before: StoreMut<'_>,
    outcome: Result<OUT, ()>,
    encode: E,
    result: i64,
    after: StoreMut<'_>,
) -> bool {
    match outcome {
        Err(_) => result == 0 && after == before,
        Ok(output) => {
            ||| exists|bytes: Vec<u8>| #[trigger]
                call_ensures(encode, (output,), Ok(bytes)) && lies_at(
                    kernel,
                    before,
                    bytes@,
                    result,
                    after,
                )
            ||| exists|encoded: Result<Vec<u8>, extism_convert::Error>| #[trigger]
                call_ensures(encode, (output,), encoded) && result == 0 && lies_nowhere(
                    kernel,
                    before,
                    kernel::encoded_bytes(encoded),
                    after,
                )
        },
    }
}

/// Whether data was put into memory at a place.
pub open spec fn lies_at(
    kernel: Kernel,
    before: StoreMut<'_>,
    data: Seq<u8>,
    place: i64,
    after: StoreMut<'_>,
) -> bool {
    exists|handle: MemoryHandle| #[trigger]
        memory::is_put_in(kernel, before, data, handle, after) && place == handle.offset as i64
}

/// Whether there was a reason not to put something into memory.
pub open spec fn lies_nowhere(
    kernel: Kernel,
    before: StoreMut<'_>,
    encoded: Result<Seq<u8>, extism_convert::Error>,
    after: StoreMut<'_>,
) -> bool {
    exists|err: KernelErrorView| #[trigger]
        memory::is_not_kept(kernel, before, encoded, err, after)
}

/// An output is handed to guest code whole.
pub proof fn outputs_are_handed_out_whole<OUT, E: Fn(OUT) -> Result<Vec<u8>, extism_convert::Error>>(
    kernel: Kernel,
    before: StoreMut<'_>,
    outcome: Result<OUT, ()>,
    encode: E,
    result: i64,
    after: StoreMut<'_>,
)
    requires
        outcome matches Ok(output) ==> forall|bytes: Vec<u8>| #[trigger]
            call_ensures(encode, (output,), Ok(bytes)) ==> bytes@.len() <= u64::MAX,
        function::replies(kernel, before, outcome, encode, result, after),
    ensures
        was_replied(kernel, before, outcome, encode, result, after),
{
    if let Ok(output) = outcome {
        let stored = choose|stored: Result<i64, KernelErrorView>| #[trigger]
            function::stores(kernel, before, output, encode, stored, after) && result
                == function::place_or_null(stored);
        let encoded = choose|encoded: Result<Vec<u8>, extism_convert::Error>| #[trigger]
            call_ensures(encode, (output,), encoded) && function::puts(
                kernel,
                before,
                kernel::encoded_bytes(encoded),
                stored,
                after,
            );
        let kept = choose|kept: Result<MemoryHandle, KernelErrorView>| #[trigger]
            kernel.keeps(before, kernel::encoded_bytes(encoded), kept, after) && stored
                == match kept {
                Ok(handle) => Ok(handle.offset as i64),
                Err(err) => Err(err),
            };
        if let Ok(bytes) = encoded {
            assert(call_ensures(encode, (output,), Ok(bytes)));
        }
        memory::values_are_kept_whole(
            kernel,
            before,
            kernel::encoded_bytes(encoded),
            kept,
            after,
        );
        match kept {
            Ok(handle) => {
                let bytes = encoded->Ok_0;
                assert(memory::is_put_in(kernel, before, bytes@, handle, after));
                assert(lies_at(kernel, before, bytes@, result, after));
            },
            Err(err) => {
                assert(lies_nowhere(kernel, before, kernel::encoded_bytes(encoded), after));
            },
        }
    }
}

/// Whether a function was called with a value, and guest code got a reply to what it gave.
pub open spec fn was_called<IN, OUT, E: Fn(OUT) -> Result<Vec<u8>, extism_convert::Error>>(
    kernel: Kernel,
    before: StoreMut<'_>,
    gives: spec_fn(IN, Result<OUT, ()>) -> bool,
    value: IN,
    encode: E,
    result: i64,
    after: StoreMut<'_>,
) -> bool {
    exists|outcome: Result<OUT, ()>| #[trigger]
        gives(value, outcome) && was_replied(kernel, before, outcome, encode, result, after)
}

proof fn functions_are_called<IN, OUT, E: Fn(OUT) -> Result<Vec<u8>, extism_convert::Error>>(
    kernel: Kernel,
    before: StoreMut<'_>,
    gives: spec_fn(IN, Result<OUT, ()>) -> bool,
    value: IN,
    encode: E,
    result: i64,
    after: StoreMut<'_>,
)
    requires
        forall|output: OUT, bytes: Vec<u8>| #[trigger]
            call_ensures(encode, (output,), Ok(bytes)) ==> bytes@.len() <= u64::MAX,
        function::answers(gives, value, encode, kernel, before, result, after),
    ensures
        was_called(kernel, before, gives, value, encode, result, after),
{
    let outcome = choose|outcome: Result<OUT, ()>| #[trigger]
        gives(value, outcome) && function::replies(
            kernel,
            before,
            outcome,
            encode,
            result,
            after,
        );
    outputs_are_handed_out_whole(kernel, before, outcome, encode, result, after);
    assert(gives(value, outcome));
}

/// Whether a function with an input and an output was called with the whole input, and its whole output handed
/// out, or there was a reason not to call it.
pub open spec fn did_in_out<
    IN,
    OUT,
    D: Fn(Vec<u8>) -> Result<IN, extism_convert::Error>,
    E: Fn(OUT) -> Result<Vec<u8>, extism_convert::Error>,
>(
    gives: spec_fn(IN, Result<OUT, ()>) -> bool,
    decode: D,
    encode: E,
    kernel: Option<&Kernel>,
    before: StoreMut<'_>,
    input: i64,
    result: i64,
    after: StoreMut<'_>,
) -> bool {
    match kernel {
        None => result == 0 && after == before,
        Some(kernel) => {
            ||| result == 0 && exists|problem: FetchProblem| #[trigger]
                was_not_had(*kernel, before, input, decode, problem, after)
            ||| exists|value: IN, between: StoreMut<'_>|
                #[trigger] was_had(*kernel, before, input, decode, value, between) && was_called(
                    *kernel,
                    between,
                    gives,
                    value,
                    encode,
                    result,
                    after,
                )
        },
    }
}

/// A function with an input and an output is called with the whole input that guest code gave, and
/// guest code gets the whole output. It is not called only where the plugin is gone, or where the input
/// could not be had; and then guest code gets 0.
pub proof fn in_and_out_are_whole<
    IN,
    OUT,
    D: Fn(Vec<u8>) -> Result<IN, extism_convert::Error>,
    E: Fn(OUT) -> Result<Vec<u8>, extism_convert::Error>,
>(
    gives: spec_fn(IN, Result<OUT, ()>) -> bool,
    decode: D,
    encode: E,
    kernel: Option<&Kernel>,
    before: StoreMut<'_>,
    input: i64,
    result: i64,
    after: StoreMut<'_>,
)
    requires
        forall|output: OUT, bytes: Vec<u8>| #[trigger]
            call_ensures(encode, (output,), Ok(bytes)) ==> bytes@.len() <= u64::MAX,
        function::does_in_out(gives, decode, encode, kernel, before, input, result, after),
    ensures
        did_in_out(gives, decode, encode, kernel, before, input, result, after),
{
    if let Some(kernel) = kernel {
        let (fetched, between) = choose|fetched: Result<IN, FetchProblem>, between: StoreMut<'_>|
         #[trigger]
            function::fetches(*kernel, before, input, decode, fetched, between) && match fetched {
                Err(_) => result == 0 && after == between,
                Ok(value) => function::answers(
                    gives,
                    value,
                    encode,
                    *kernel,
                    between,
                    result,
                    after,
                ),
            };
        inputs_are_read_whole(*kernel, before, input, decode, fetched, between);
        match fetched {
            Ok(value) => {
                functions_are_called(*kernel, between, gives, value, encode, result, after);
                assert(was_had(*kernel, before, input, decode, value, between));
            },
            Err(problem) => {
                assert(was_not_had(*kernel, before, input, decode, problem, after));
            },
        }
    }
}

/// Whether a function with an input was called with the whole input, or there was a reason not to call it.
pub open spec fn did_in<IN, D: Fn(Vec<u8>) -> Result<IN, extism_convert::Error>>(
    gives: spec_fn(IN, ()) -> bool,
    decode: D,
    kernel: Option<&Kernel>,
    before: StoreMut<'_>,
    input: i64,
    after: StoreMut<'_>,
) -> bool {
    match kernel {
        None => after == before,
        Some(kernel) => {
            ||| exists|problem: FetchProblem| #[trigger]
                was_not_had(*kernel, before, input, decode, problem, after)
            ||| exists|value: IN| #[trigger]
                was_had(*kernel, before, input, decode, value, after) && gives(value, ())
        },
    }
}

/// A function with an input is called with the whole input that guest code gave. It is not called only
/// where the plugin is gone, or where the input could not be had.
pub proof fn in_is_whole<IN, D: Fn(Vec<u8>) -> Result<IN, extism_convert::Error>>(
    gives: spec_fn(IN, ()) -> bool,
    decode: D,
    kernel: Option<&Kernel>,
    before: StoreMut<'_>,
    input: i64,
    after: StoreMut<'_>,
)
    requires
        function::does_in(gives, decode, kernel, before, input, after),
    ensures
        did_in(gives, decode, kernel, before, input, after),
{
    if let Some(kernel) = kernel {
        let fetched = choose|fetched: Result<IN, FetchProblem>| #[trigger]
            function::fetches(*kernel, before, input, decode, fetched, after) && (fetched matches Ok(
                value,
            ) ==> gives(value, ()));
        inputs_are_read_whole(*kernel, before, input, decode, fetched, after);
        match fetched {
            Ok(value) => {
                assert(was_had(*kernel, before, input, decode, value, after));
            },
            Err(problem) => {
                assert(was_not_had(*kernel, before, input, decode, problem, after));
            },
        }
    }
}

/// Whether a function with an output was called and its whole output handed out, or the plugin is gone.
pub open spec fn did_out<OUT, E: Fn(OUT) -> Result<Vec<u8>, extism_convert::Error>>(
    gives: spec_fn((), Result<OUT, ()>) -> bool,
    encode: E,
    kernel: Option<&Kernel>,
    before: StoreMut<'_>,
    result: i64,
    after: StoreMut<'_>,
) -> bool {
    match kernel {
        None => result == 0 && after == before,
        Some(kernel) => was_called(*kernel, before, gives, (), encode, result, after),
    }
}

/// A function with an output is called, and guest code gets the whole output. It is not called only
/// where the plugin is gone.
pub proof fn out_is_whole<OUT, E: Fn(OUT) -> Result<Vec<u8>, extism_convert::Error>>(
    gives: spec_fn((), Result<OUT, ()>) -> bool,
    encode: E,
    kernel: Option<&Kernel>,
    before: StoreMut<'_>,
    result: i64,
    after: StoreMut<'_>,
)
    requires
        forall|output: OUT, bytes: Vec<u8>| #[trigger]
            call_ensures(encode, (output,), Ok(bytes)) ==> bytes@.len() <= u64::MAX,
        function::does_out(gives, encode, kernel, before, result, after),
    ensures
        did_out(gives, encode, kernel, before, result, after),
{
    if let Some(kernel) = kernel {
        functions_are_called(*kernel, before, gives, (), encode, result, after);
    }
}

/// A function without an input or an output is called, and nothing else is done.
pub proof fn bare_functions_are_just_called(
    gives: spec_fn((), ()) -> bool,
    before: StoreMut<'_>,
    after: StoreMut<'_>,
)
    requires
        function::does_bare(gives, before, after),
    ensures
        gives((), ()),
        after == before,
{
}

/// What guest code calls where it has imported a function with an input and an output is that function, with
/// the whole input and for the whole output.
pub proof fn in_out_externs_call_their_function<
    IN,
    OUT,
    D: Fn(Vec<u8>) -> Result<IN, extism_convert::Error>,
    E: Fn(OUT) -> Result<Vec<u8>, extism_convert::Error>,
>(
    external: Extern,
    gives: spec_fn(IN, Result<OUT, ()>) -> bool,
    decode: D,
    encode: E,
    kernel: Option<&Kernel>,
    before: StoreMut<'_>,
    input: i64,
    result: i64,
    after: StoreMut<'_>,
)
    requires
        forall|output: OUT, bytes: Vec<u8>| #[trigger]
            call_ensures(encode, (output,), Ok(bytes)) ==> bytes@.len() <= u64::MAX,
        function::stands_for_in_out(external, gives, decode, encode),
        function::in_out_call(external).does(kernel, before, input, result, after),
    ensures
        did_in_out(gives, decode, encode, kernel, before, input, result, after),
{
    in_and_out_are_whole(gives, decode, encode, kernel, before, input, result, after);
}

/// What guest code calls where it has imported a function with an input is that function, with the whole input.
pub proof fn in_externs_call_their_function<IN, D: Fn(Vec<u8>) -> Result<IN, extism_convert::Error>>(
    external: Extern,
    gives: spec_fn(IN, ()) -> bool,
    decode: D,
    kernel: Option<&Kernel>,
    before: StoreMut<'_>,
    input: i64,
    after: StoreMut<'_>,
)
    requires
        function::stands_for_in(external, gives, decode),
        function::in_call(external).does(kernel, before, input, (), after),
    ensures
        did_in(gives, decode, kernel, before, input, after),
{
    in_is_whole(gives, decode, kernel, before, input, after);
}

/// What guest code calls where it has imported a function with an output is that function, for the whole
/// output.
pub proof fn out_externs_call_their_function<
    OUT,
    E: Fn(OUT) -> Result<Vec<u8>, extism_convert::Error>,
>(
    external: Extern,
    gives: spec_fn((), Result<OUT, ()>) -> bool,
    encode: E,
    kernel: Option<&Kernel>,
    before: StoreMut<'_>,
    result: i64,
    after: StoreMut<'_>,
)
    requires
        forall|output: OUT, bytes: Vec<u8>| #[trigger]
            call_ensures(encode, (output,), Ok(bytes)) ==> bytes@.len() <= u64::MAX,
        function::stands_for_out(external, gives, encode),
        function::out_call(external).does(kernel, before, (), result, after),
    ensures
        did_out(gives, encode, kernel, before, result, after),
{
    out_is_whole(gives, encode, kernel, before, result, after);
}

/// What guest code calls where it has imported a function without an input or an output is that function.
pub proof fn bare_externs_call_their_function(
    external: Extern,
    gives: spec_fn((), ()) -> bool,
    kernel: Option<&Kernel>,
    before: StoreMut<'_>,
    after: StoreMut<'_>,
)
    requires
        function::stands_for_bare(external, gives),
        function::bare_call(external).does(kernel, before, (), (), after),
    ensures
        gives((), ()),
        after == before,
{
    assert(function::does_bare(gives, before, after));
}

/// A function gives what the closure gives that it was made of, in its environment, and accepts what that
/// accepts.
pub proof fn functions_are_their_closures<
    ENV,
    IN,
    R,
    F: Fn(&ENV, IN) -> R + Send + Sync + 'static,
    P: Fn(&ENV) -> R + Send + Sync + 'static,
>(f: F, plain: P, env: ENV, input: IN, result: R)
    ensures
        function::closure_results(f, env)(input, result) <==> call_ensures(
            f,
            (&env, input),
            result,
        ),
        function::plain_results(plain, env)((), result) <==> call_ensures(plain, (&env,), result),
        Taking(f).gives(&env, input, result) <==> call_ensures(f, (&env, input), result),
        Taking(f).accepts(&env, input) <==> call_requires(f, (&env, input)),
        Plain(plain).gives(&env, (), result) <==> call_ensures(plain, (&env,), result),
        Plain(plain).accepts(&env, ()) <==> call_requires(plain, (&env,)),
{
}

/// A definition is the function that it holds, with the type that its input and output call for.
pub proof fn definitions_are_their_functions<
    IN: 'static,
    OUT: 'static,
    ENV: Send + 'static,
    D: Fn(Vec<u8>) -> Result<IN, extism_convert::Error>,
    E: Fn(OUT) -> Result<Vec<u8>, extism_convert::Error>,
>(
    definition: ExportDefinition<IN, OUT, ENV>,
    external: Extern,
    decode: D,
    encode: E,
    kernel: Option<&Kernel>,
    before: StoreMut<'_>,
    input: i64,
    result: i64,
    after: StoreMut<'_>,
)
    requires
        forall|output: OUT, bytes: Vec<u8>| #[trigger]
            call_ensures(encode, (output,), Ok(bytes)) ==> bytes@.len() <= u64::MAX,
        definition.is_behind(external, decode, encode),
    ensures
        match definition {
            ExportDefinition::InOut { function, env } => {
                &&& definition.shape() == typed(1, 1)
                &&& function::in_out_call(external).does(kernel, before, input, result, after)
                    ==> did_in_out(
                    given_by(&*function, env),
                    decode,
                    encode,
                    kernel,
                    before,
                    input,
                    result,
                    after,
                )
            },
            ExportDefinition::In { function, env } => {
                &&& definition.shape() == typed(1, 0)
                &&& function::in_call(external).does(kernel, before, input, (), after) ==> did_in(
                    given_by(&*function, env),
                    decode,
                    kernel,
                    before,
                    input,
                    after,
                )
            },
            ExportDefinition::Out { function, env } => {
                &&& definition.shape() == typed(0, 1)
                &&& function::out_call(external).does(kernel, before, (), result, after) ==> did_out(
                    given_by(&*function, env),
                    encode,
                    kernel,
                    before,
                    result,
                    after,
                )
            },
            ExportDefinition::Bare { function, env } => {
                &&& definition.shape() == typed(0, 0)
                &&& function::bare_call(external).does(kernel, before, (), (), after)
                    ==> function.gives(&env, (), ()) && after == before
            },
        },
{
    assert(engine::longs(1) =~= longs(1));
    assert(engine::longs(0) =~= longs(0));
    assert(engine::long_result() =~= longs(1));
    assert(engine::no_result() =~= longs(0));
    match definition {
        ExportDefinition::InOut { function, env } => {
            assert(function::results_of(&*function, env) =~= given_by(&*function, env));
            if function::in_out_call(external).does(kernel, before, input, result, after) {
                in_out_externs_call_their_function(
                    external,
                    function::results_of(&*function, env),
                    decode,
                    encode,
                    kernel,
                    before,
                    input,
                    result,
                    after,
                );
            }
        },
        ExportDefinition::In { function, env } => {
            assert(function::results_of(&*function, env) =~= given_by(&*function, env));
            if function::in_call(external).does(kernel, before, input, (), after) {
                in_externs_call_their_function(
                    external,
                    function::results_of(&*function, env),
                    decode,
                    kernel,
                    before,
                    input,
                    after,
                );
            }
        },
        ExportDefinition::Out { function, env } => {
            assert(function::results_of(&*function, env) =~= given_by(&*function, env));
            if function::out_call(external).does(kernel, before, (), result, after) {
                out_externs_call_their_function(
                    external,
                    function::results_of(&*function, env),
                    encode,
                    kernel,
                    before,
                    result,
                    after,
                );
            }
        },
        ExportDefinition::Bare { function, env } => {
            assert(function::results_of(&*function, env) =~= given_by(&*function, env));
            if function::bare_call(external).does(kernel, before, (), (), after) {
                bare_externs_call_their_function(
                    external,
                    function::results_of(&*function, env),
                    kernel,
                    before,
                    after,
                );
                assert(function::results_of(&*function, env)((), ()));
            }
        },
    }
}

/// What a function gives in an environment.
pub open spec fn given_by<ENV, IN, R, C: Callable<ENV, IN, R> + ?Sized>(
    function: &C,
    env: ENV,
) -> spec_fn(IN, R) -> bool {
    |input: IN, result: R| function.gives(&env, input, result)
}

/// Some 64-bit integers.
pub open spec fn longs(count: nat) -> Seq<ValueKind> {
    Seq::new(count, |i: int| ValueKind::I64)
}

/// The type of a function of some 64-bit integers.
pub open spec fn typed(params: nat, results: nat) -> ExternShape {
    ExternShape::Function { params: longs(params), results: longs(results) }
}

/// An export is in the namespace that is given for it, and in that of such functions where none is.
pub proof fn namespaces_are_kept(export: HostExport, given: Option<&str>)
    requires
        function::is_namespace(export.namespace, given),
    ensures
        given matches Some(namespace) ==> export.space() == namespace@,
        given is None ==> export.space() == "extism:host/user"@,
{
}

/// A function with an input and an output is exported by its name, and guest code that has imported it calls just
/// that function.
pub proof fn new_with_in_out_exports_the_function<
    IN: 'static,
    OUT: 'static,
    ENV: Send + 'static,
    F: Fn(&ENV, IN) -> Result<OUT, ()> + Send + Sync + 'static,
    D: Fn(Vec<u8>) -> Result<IN, extism_convert::Error> + Send + 'static,
    E: Fn(OUT) -> Result<Vec<u8>, extism_convert::Error> + Send + 'static,
>(
    namespace: Option<&str>,
    name: &str,
    f: F,
    env: ENV,
    decode: D,
    encode: E,
    export: HostExport,
    external: Extern,
    kernel: Option<&Kernel>,
    before: StoreMut<'_>,
    input: i64,
    result: i64,
    after: StoreMut<'_>,
)
    requires
        forall|output: OUT, bytes: Vec<u8>| #[trigger]
            call_ensures(encode, (output,), Ok(bytes)) ==> bytes@.len() <= u64::MAX,
        call_ensures(
            HostExport::new_with_in_out::<IN, OUT, ENV, F, D, E>,
            (namespace, name, f, env, decode, encode),
            export,
        ),
        export.is_behind(external),
        function::in_out_call(external).does(kernel, before, input, result, after),
    ensures
        is_exported_as(export, namespace, name, typed(1, 1)),
        did_in_out(
            |value: IN, outcome: Result<OUT, ()>| call_ensures(f, (&env, value), outcome),
            decode,
            encode,
            kernel,
            before,
            input,
            result,
            after,
        ),
{
    assert(engine::longs(1) =~= longs(1));
    assert(engine::long_result() =~= longs(1));
    in_out_externs_call_their_function(
        external,
        function::closure_results(f, env),
        decode,
        encode,
        kernel,
        before,
        input,
        result,
        after,
    );
    assert(function::closure_results(f, env) =~= (|value: IN, outcome: Result<OUT, ()>|
        call_ensures(f, (&env, value), outcome)));
}

/// A function with an input is exported by its name, and guest code that has imported it calls just that
/// function.
pub proof fn new_with_in_exports_the_function<
    IN: 'static,
    ENV: Send + 'static,
    F: Fn(&ENV, IN) + Send + Sync + 'static,
    D: Fn(Vec<u8>) -> Result<IN, extism_convert::Error> + Send + 'static,
>(
    namespace: Option<&str>,
    name: &str,
    f: F,
    env: ENV,
    decode: D,
    export: HostExport,
    external: Extern,
    kernel: Option<&Kernel>,
    before: StoreMut<'_>,
    input: i64,
    after: StoreMut<'_>,
)
    requires
        call_ensures(
            HostExport::new_with_in::<IN, ENV, F, D>,
            (namespace, name, f, env, decode),
            export,
        ),
        export.is_behind(external),
        function::in_call(external).does(kernel, before, input, (), after),
    ensures
        is_exported_as(export, namespace, name, typed(1, 0)),
        did_in(
            |value: IN, outcome: ()| call_ensures(f, (&env, value), outcome),
            decode,
            kernel,
            before,
            input,
            after,
        ),
{
    assert(engine::longs(1) =~= longs(1));
    assert(engine::no_result() =~= longs(0));
    in_externs_call_their_function(
        external,
        function::closure_results(f, env),
        decode,
        kernel,
        before,
        input,
        after,
    );
    assert(function::closure_results(f, env) =~= (|value: IN, outcome: ()|
        call_ensures(f, (&env, value), outcome)));
}

/// A function with an output is exported by its name, and guest code that has imported it calls just that
/// function.
pub proof fn new_with_out_exports_the_function<
    OUT: 'static,
    ENV: Send + 'static,
    F: Fn(&ENV) -> Result<OUT, ()> + Send + Sync + 'static,
    E: Fn(OUT) -> Result<Vec<u8>, extism_convert::Error> + Send + 'static,
>(
    namespace: Option<&str>,
    name: &str,
    f: F,
    env: ENV,
    encode: E,
    export: HostExport,
    external: Extern,
    kernel: Option<&Kernel>,
    before: StoreMut<'_>,
    result: i64,
    after: StoreMut<'_>,
)
    requires
        forall|output: OUT, bytes: Vec<u8>| #[trigger]
            call_ensures(encode, (output,), Ok(bytes)) ==> bytes@.len() <= u64::MAX,
        call_ensures(
            HostExport::new_with_out::<OUT, ENV, F, E>,
            (namespace, name, f, env, encode),
            export,
        ),
        export.is_behind(external),
        function::out_call(external).does(kernel, before, (), result, after),
    ensures
        is_exported_as(export, namespace, name, typed(0, 1)),
        did_out(
            |value: (), outcome: Result<OUT, ()>| call_ensures(f, (&env,), outcome),
            encode,
            kernel,
            before,
            result,
            after,
        ),
{
    assert(engine::longs(0) =~= longs(0));
    assert(engine::long_result() =~= longs(1));
    out_externs_call_their_function(
        external,
        function::plain_results(f, env),
        encode,
        kernel,
        before,
        result,
        after,
    );
    assert(function::plain_results(f, env) =~= (|value: (), outcome: Result<OUT, ()>|
        call_ensures(f, (&env,), outcome)));
}

/// A function without an input or an output is exported by its name, and guest code that has imported it calls
/// just that function.
pub proof fn new_exports_the_function<ENV: Send + 'static, F: Fn(&ENV) + Send + Sync + 'static>(
    namespace: Option<&str>,
    name: &str,
    f: F,
    env: ENV,
    export: HostExport,
    external: Extern,
    kernel: Option<&Kernel>,
    before: StoreMut<'_>,
    after: StoreMut<'_>,
)
    requires
        call_ensures(HostExport::new::<ENV, F>, (namespace, name, f, env), export),
        export.is_behind(external),
        function::bare_call(external).does(kernel, before, (), (), after),
    ensures
        is_exported_as(export, namespace, name, typed(0, 0)),
        call_ensures(f, (&env,), ()),
        after == before,
{
    assert(engine::longs(0) =~= longs(0));
    assert(engine::no_result() =~= longs(0));
    bare_externs_call_their_function(
        external,
        function::plain_results(f, env),
        kernel,
        before,
        after,
    );
    assert(function::plain_results(f, env)((), ()));
}

/// Whether a function is exported under a name and with a type, from the namespace that is given, or from that of
/// such functions where none is.
pub open spec fn is_exported_as(
    export: HostExport,
    namespace: Option<&str>,
    name: &str,
    shape: ExternShape,
) -> bool {
    &&& export.name@ == name@
    &&& export.shape() == shape
    &&& match namespace {
        Some(given) => export.namespace matches Some(kept) && kept@ == given@,
        None => export.namespace is None,
    }
}

/// An export says which namespace it is in.
pub proof fn namespaces_are_told(export: &HostExport, result: &str)
    requires
        call_ensures(HostExport::namespace, (export,), result),
    ensures
        export.namespace matches Some(given) ==> result@ == given@,
        export.namespace is None ==> result@ == "extism:host/user"@,
{
}

} // verus!
