//! Functions of the embedding program that plugins can import.
use crate::engine::{self, ExternShape, ValueKind};
use crate::errors::{self, ConvertError, ConvertErrorView, KernelError, KernelErrorView};
use crate::kernel::{self, Kernel, MemoryHandle};
use crate::EXTISM_USER_MODULE;
use std::sync::{Arc, Weak};
use vstd::prelude::*;
use wasmer::{Extern, Function, FunctionEnv, FunctionEnvMut, StoreMut};

verus! {

/// A function with an environment, from an input to a result.
pub trait Callable<ENV, IN, R>: Send + Sync + 'static {
    /// Whether the function may be called with an input.
    spec fn accepts(&self, env: &ENV, input: IN) -> bool;

    /// Whether the function may give a result for an input.
    spec fn gives(&self, env: &ENV, input: IN, result: R) -> bool;

    /// Calls the function.
    fn call(&self, env: &ENV, input: IN) -> (result: R)
        requires
            self.accepts(env, input),
        ensures
            self.gives(env, input, result),
    ;
}

/// A closure that takes an input.
pub struct Taking<F>(pub F);

impl<ENV, IN, R, F: Fn(&ENV, IN) -> R + Send + Sync + 'static> Callable<ENV, IN, R> for Taking<F> {
    open spec fn accepts(&self, env: &ENV, input: IN) -> bool {
        call_requires(self.0, (env, input))
    }

    open spec fn gives(&self, env: &ENV, input: IN, result: R) -> bool {
        call_ensures(self.0, (env, input), result)
    }

    fn call(&self, env: &ENV, input: IN) -> R {
        (self.0)(env, input)
    }
}

/// A closure that takes no input.
pub struct Plain<F>(pub F);

impl<ENV, R, F: Fn(&ENV) -> R + Send + Sync + 'static> Callable<ENV, (), R> for Plain<F> {
    open spec fn accepts(&self, env: &ENV, input: ()) -> bool {
        call_requires(self.0, (env,))
    }

    open spec fn gives(&self, env: &ENV, input: (), result: R) -> bool {
        call_ensures(self.0, (env,), result)
    }

    fn call(&self, env: &ENV, input: ()) -> R {
        (self.0)(env)
    }
}

/// What is done when guest code calls a function of the embedding program.
pub trait HostCall<A, R>: Send + 'static {
    /// Whether the call can be made with all arguments.
    spec fn is_ready(&self) -> bool;

    /// What a call does. The kernel is that of the plugin, if the plugin is still there.
    spec fn does(
        &self,
        kernel: Option<&Kernel>,
        before: StoreMut<'_>,
        args: A,
        result: R,
        after: StoreMut<'_>,
    ) -> bool;

    /// Makes the call.
    fn run(&self, store: &mut StoreMut<'_>, kernel: Option<&Kernel>, args: A) -> (result: R)
        requires
            self.is_ready(),
        ensures
            self.does(kernel, *old(store), args, result, *final(store)),
    ;
}

/// Why the input of a function could not be had.
#[derive(Debug)]
pub enum FetchInError {
    HandleNotFound(i64),
    Access(ConvertError),
    Runtime(KernelError),
}

/// A [`FetchInError`] up to the identity of the strings in it.
pub enum FetchProblem {
    HandleNotFound(i64),
    Access(ConvertErrorView),
    Runtime(KernelErrorView),
}

impl View for FetchInError {
    type V = FetchProblem;

    open spec fn view(&self) -> FetchProblem {
        match self {
            FetchInError::HandleNotFound(input) => FetchProblem::HandleNotFound(*input),
            FetchInError::Access(err) => FetchProblem::Access(err@),
            FetchInError::Runtime(err) => FetchProblem::Runtime(err@),
        }
    }
}

/// What fetching gave, with its error seen as plain values.
pub open spec fn fetch_result<IN>(result: Result<IN, FetchInError>) -> Result<IN, FetchProblem> {
    match result {
        Ok(value) => Ok(value),
        Err(err) => Err(err@),
    }
}

/// What fetching the input of a function does: the block is found and decoded, and given back. A
/// block that does not decode is kept.
pub open spec fn fetches<IN, D: Fn(Vec<u8>) -> Result<IN, extism_convert::Error>>(
    kernel: Kernel,
    before: StoreMut<'_>,
    input: i64,
    decode: D,
    outcome: Result<IN, FetchProblem>,
    after: StoreMut<'_>,
) -> bool {
    exists|found: Option<MemoryHandle>, between: StoreMut<'_>| #[trigger]
        kernel.finds(before, input as u64, found, between) && match found {
            None => {
                &&& outcome == Err::<IN, FetchProblem>(FetchProblem::HandleNotFound(input))
                &&& after == between
            },
            Some(handle) => consumes(kernel, between, handle, decode, outcome, after),
        }
}

/// What decoding a block and giving it back does.
pub open spec fn consumes<IN, D: Fn(Vec<u8>) -> Result<IN, extism_convert::Error>>(
    kernel: Kernel,
    before: StoreMut<'_>,
    handle: MemoryHandle,
    decode: D,
    outcome: Result<IN, FetchProblem>,
    after: StoreMut<'_>,
) -> bool {
    exists|value: Result<IN, ConvertError>| #[trigger]
        kernel::decoded(kernel.bytes_at(before, handle), decode, value) && match value {
            Err(err) => outcome == Err::<IN, FetchProblem>(FetchProblem::Access(err@)) && after
                == before,
            Ok(value) => exists|freed: Result<(), KernelErrorView>| #[trigger]
                kernel.frees(before, handle, freed, after) && outcome == match freed {
                    Ok(_) => Ok(value),
                    Err(err) => Err(FetchProblem::Runtime(err)),
                },
        }
}

/// What storing the output of a function does: it is encoded, and put into a new block.
pub open spec fn stores<OUT, E: Fn(OUT) -> Result<Vec<u8>, extism_convert::Error>>(
    kernel: Kernel,
    before: StoreMut<'_>,
    output: OUT,
    encode: E,
    outcome: Result<i64, KernelErrorView>,
    after: StoreMut<'_>,
) -> bool {
    exists|encoded: Result<Vec<u8>, extism_convert::Error>| #[trigger]
        call_ensures(encode, (output,), encoded) && puts(
            kernel,
            before,
            kernel::encoded_bytes(encoded),
            outcome,
            after,
        )
}

/// What putting bytes into a new block does.
pub open spec fn puts(
    kernel: Kernel,
    before: StoreMut<'_>,
    encoded: Result<Seq<u8>, extism_convert::Error>,
    outcome: Result<i64, KernelErrorView>,
    after: StoreMut<'_>,
) -> bool {
    exists|kept: Result<MemoryHandle, KernelErrorView>| #[trigger]
        kernel.keeps(before, encoded, kept, after) && outcome == match kept {
            Ok(handle) => Ok(handle.offset as i64),
            Err(err) => Err(err),
        }
}

/// What guest code gets: the place of the output, or 0.
pub open spec fn place_or_null(outcome: Result<i64, KernelErrorView>) -> i64 {
    match outcome {
        Ok(place) => place,
        Err(_) => 0,
    }
}

/// What is done with the outcome of a function that has an output: an output is stored; after a
/// failure, or where the output cannot be stored, guest code gets 0.
pub open spec fn replies<OUT, E: Fn(OUT) -> Result<Vec<u8>, extism_convert::Error>>(
    kernel: Kernel,
    before: StoreMut<'_>,
    outcome: Result<OUT, ()>,
    encode: E,
    result: i64,
    after: StoreMut<'_>,
) -> bool {
    match outcome {
        Err(_) => result == 0 && after == before,
        Ok(output) => exists|stored: Result<i64, KernelErrorView>| #[trigger]
            stores(kernel, before, output, encode, stored, after) && result == place_or_null(
                stored,
            ),
    }
}

/// Fetches the input of a function.
fn fetch_in<IN, D: Fn(Vec<u8>) -> Result<IN, extism_convert::Error>>(
    store: &mut StoreMut<'_>,
    kernel: &Kernel,
    input: i64,
    decode: &D,
) -> (result: Result<IN, FetchInError>)
    requires
        forall|bytes: Vec<u8>| #[trigger] call_requires(*decode, (bytes,)),
    ensures
        fetches(*kernel, *old(store), input, *decode, fetch_result(result), *final(store)),
{
    let handle = match kernel.memory_handle(store, input as u64) {
        Some(handle) => handle,
        None => {
            return Err(FetchInError::HandleNotFound(input));
        },
    };
    let ghost between = *store;
    let value = kernel.memory_get(store, handle, decode);
    let ghost seen = value;
    assert(kernel::decoded(kernel.bytes_at(between, handle), *decode, seen));
    let result = match value {
        Ok(value) => match kernel.memory_free(store, handle) {
            Ok(_) => Ok(value),
            Err(err) => Err(FetchInError::Runtime(err)),
        },
        Err(err) => Err(FetchInError::Access(err)),
    };
    assert(consumes(*kernel, between, handle, *decode, fetch_result(result), *store));
    result
}

/// Stores the output of a function.
fn store_out<OUT, E: Fn(OUT) -> Result<Vec<u8>, extism_convert::Error>>(
    store: &mut StoreMut<'_>,
    kernel: &Kernel,
    output: OUT,
    encode: &E,
) -> (result: Result<i64, KernelError>)
    requires
        forall|output: OUT| #[trigger] call_requires(*encode, (output,)),
    ensures
        stores(
            *kernel,
            *old(store),
            output,
            *encode,
            errors::kernel_result(result),
            *final(store),
        ),
{
    let encoded = encode(output);
    let ghost bytes = kernel::encoded_bytes(encoded);
    let kept = kernel.memory_new(store, encoded);
    assert(kernel.keeps(*old(store), bytes, errors::kernel_result(kept), *store));
    match kept {
        Ok(handle) => Ok(handle.offset as i64),
        Err(err) => Err(err),
    }
}

/// Replies to guest code with the outcome of a function that has an output.
fn reply<OUT, E: Fn(OUT) -> Result<Vec<u8>, extism_convert::Error>>(
    store: &mut StoreMut<'_>,
    kernel: &Kernel,
    outcome: Result<OUT, ()>,
    encode: &E,
) -> (result: i64)
    requires
        forall|output: OUT| #[trigger] call_requires(*encode, (output,)),
    ensures
        replies(*kernel, *old(store), outcome, *encode, result, *final(store)),
{
    match outcome {
        Ok(output) => {
            let stored = store_out(store, kernel, output, encode);
            assert(stores(
                *kernel,
                *old(store),
                output,
                *encode,
                errors::kernel_result(stored),
                *store,
            ));
            match stored {
                Ok(place) => place,
                Err(_) => 0,
            }
        },
        Err(_) => 0,
    }
}

/// What calling a function with an input and an output does. When the plugin is gone, or its input
/// cannot be had, guest code gets 0 and the function is not called.
pub open spec fn does_in_out<
    IN,
    OUT,
    D: Fn(Vec<u8>) -> Result<IN, extism_convert::Error>,
    E: Fn(OUT) -> Result<Vec<u8>, extism_convert::Error>,
>(
    gives: spec_fn(IN, Result<OUT, ()>) -> bool,
    decode: D,
    encode: E,
    kernel: Option<&Kernel>,
    before: StoreMut<'_>,
    input: i64,
    result: i64,
    after: StoreMut<'_>,
) -> bool {
    match kernel {
        None => result == 0 && after == before,
        Some(kernel) => exists|fetched: Result<IN, FetchProblem>, between: StoreMut<'_>| #[trigger]
            fetches(*kernel, before, input, decode, fetched, between) && match fetched {
                Err(_) => result == 0 && after == between,
                Ok(value) => answers(gives, value, encode, *kernel, between, result, after),
            },
    }
}

/// What calling a function without an input or an output does. It is called even when the plugin is
/// gone.
pub open spec fn does_bare(
    gives: spec_fn((), ()) -> bool,
    before: StoreMut<'_>,
    after: StoreMut<'_>,
) -> bool {
    gives((), ()) && after == before
}

/// What calling a function that has an output and replying to guest code does.
pub open spec fn answers<IN, OUT, E: Fn(OUT) -> Result<Vec<u8>, extism_convert::Error>>(
    gives: spec_fn(IN, Result<OUT, ()>) -> bool,
    input: IN,
    encode: E,
    kernel: Kernel,
    before: StoreMut<'_>,
    result: i64,
    after: StoreMut<'_>,
) -> bool {
    exists|outcome: Result<OUT, ()>| #[trigger]
        gives(input, outcome) && replies(kernel, before, outcome, encode, result, after)
}

/// Which results a function may give in an environment.
pub open spec fn results_of<ENV, IN, R, C: Callable<ENV, IN, R> + ?Sized>(
    function: &C,
    env: ENV,
) -> spec_fn(IN, R) -> bool {
    |input: IN, result: R| function.gives(&env, input, result)
}

/// What calling a function with an input does. When the plugin is gone, or its input cannot be had,
/// the function is not called.
pub open spec fn does_in<IN, D: Fn(Vec<u8>) -> Result<IN, extism_convert::Error>>(
    gives: spec_fn(IN, ()) -> bool,
    decode: D,
    kernel: Option<&Kernel>,
    before: StoreMut<'_>,
    input: i64,
    after: StoreMut<'_>,
) -> bool {
    match kernel {
        None => after == before,
        Some(kernel) => exists|fetched: Result<IN, FetchProblem>| #[trigger]
            fetches(*kernel, before, input, decode, fetched, after) && (fetched matches Ok(value)
                ==> gives(value, ())),
    }
}

/// What calling a function with an output does. When the plugin is gone, guest code gets 0 and the
/// function is not called.
pub open spec fn does_out<OUT, E: Fn(OUT) -> Result<Vec<u8>, extism_convert::Error>>(
    gives: spec_fn((), Result<OUT, ()>) -> bool,
    encode: E,
    kernel: Option<&Kernel>,
    before: StoreMut<'_>,
    result: i64,
    after: StoreMut<'_>,
) -> bool {
    match kernel {
        None => result == 0 && after == before,
        Some(kernel) => answers(gives, (), encode, *kernel, before, result, after),
    }
}

/// A function of the embedding program and its environment.
#[verifier::reject_recursive_types(IN)]
#[verifier::reject_recursive_types(OUT)]
#[verifier::reject_recursive_types(ENV)]
#[allow(inconsistent_fields)]
pub enum ExportDefinition<IN, OUT, ENV> {
    InOut { function: Box<dyn Callable<ENV, IN, Result<OUT, ()>>>, env: ENV },
    In { function: Box<dyn Callable<ENV, IN, ()>>, env: ENV },
    Out { function: Box<dyn Callable<ENV, (), Result<OUT, ()>>>, env: ENV },
    Bare { function: Box<dyn Callable<ENV, (), ()>>, env: ENV },
}

/// Whether an extern stands for a function with an input and an output.
pub open spec fn stands_for_in_out<
    IN,
    OUT,
    D: Fn(Vec<u8>) -> Result<IN, extism_convert::Error>,
    E: Fn(OUT) -> Result<Vec<u8>, extism_convert::Error>,
>(external: Extern, gives: spec_fn(IN, Result<OUT, ()>) -> bool, decode: D, encode: E) -> bool {
    forall|kernel: Option<&Kernel>, before: StoreMut<'_>, input: i64, result: i64, after: StoreMut<
        '_,
    >| #[trigger]
        in_out_call(external).does(kernel, before, input, result, after) == does_in_out(
            gives,
            decode,
            encode,
            kernel,
            before,
            input,
            result,
            after,
        )
}

/// Whether an extern stands for a function with an input.
pub open spec fn stands_for_in<IN, D: Fn(Vec<u8>) -> Result<IN, extism_convert::Error>>(
    external: Extern,
    gives: spec_fn(IN, ()) -> bool,
    decode: D,
) -> bool {
    forall|kernel: Option<&Kernel>, before: StoreMut<'_>, input: i64, after: StoreMut<'_>|
     #[trigger]
        in_call(external).does(kernel, before, input, (), after) == does_in(
            gives,
            decode,
            kernel,
            before,
            input,
            after,
        )
}

/// Whether an extern stands for a function with an output.
pub open spec fn stands_for_out<OUT, E: Fn(OUT) -> Result<Vec<u8>, extism_convert::Error>>(
    external: Extern,
    gives: spec_fn((), Result<OUT, ()>) -> bool,
    encode: E,
) -> bool {
    forall|kernel: Option<&Kernel>, before: StoreMut<'_>, result: i64, after: StoreMut<'_>|
     #[trigger]
        out_call(external).does(kernel, before, (), result, after) == does_out(
            gives,
            encode,
            kernel,
            before,
            result,
            after,
        )
}

/// Whether an extern stands for a function without an input or an output.
pub open spec fn stands_for_bare(external: Extern, gives: spec_fn((), ()) -> bool) -> bool {
    forall|kernel: Option<&Kernel>, before: StoreMut<'_>, after: StoreMut<'_>| #[trigger]
        bare_call(external).does(kernel, before, (), (), after) == does_bare(gives, before, after)
}

impl<IN: 'static, OUT: 'static, ENV: Send + 'static> ExportDefinition<IN, OUT, ENV> {
    /// Whether the function can be called with all inputs.
    pub open spec fn accepts_all(self) -> bool {
        match self {
            ExportDefinition::InOut { function, env } => forall|input: IN| #[trigger]
                function.accepts(&env, input),
            ExportDefinition::In { function, env } => forall|input: IN| #[trigger]
                function.accepts(&env, input),
            ExportDefinition::Out { function, env } => function.accepts(&env, ()),
            ExportDefinition::Bare { function, env } => function.accepts(&env, ()),
        }
    }

    /// The type of the function for guest code.
    pub open spec fn shape(self) -> ExternShape {
        match self {
            ExportDefinition::InOut { .. } => function_shape(
                engine::longs(1),
                engine::long_result(),
            ),
            ExportDefinition::In { .. } => function_shape(engine::longs(1), engine::no_result()),
            ExportDefinition::Out { .. } => function_shape(
                engine::longs(0),
                engine::long_result(),
            ),
            ExportDefinition::Bare { .. } => function_shape(engine::longs(0), engine::no_result()),
        }
    }

    /// Whether an extern stands for the function.
    pub open spec fn is_behind<
        D: Fn(Vec<u8>) -> Result<IN, extism_convert::Error>,
        E: Fn(OUT) -> Result<Vec<u8>, extism_convert::Error>,
    >(self, external: Extern, decode: D, encode: E) -> bool {
        match self {
            ExportDefinition::InOut { function, env } => stands_for_in_out(
                external,
                results_of(&*function, env),
                decode,
                encode,
            ),
            ExportDefinition::In { function, env } => stands_for_in(
                external,
                results_of(&*function, env),
                decode,
            ),
            ExportDefinition::Out { function, env } => stands_for_out(
                external,
                results_of(&*function, env),
                encode,
            ),
            ExportDefinition::Bare { function, env } => stands_for_bare(
                external,
                results_of(&*function, env),
            ),
        }
    }
}

/// A function of the embedding program, and how its input and output are converted.
#[verifier::reject_recursive_types(IN)]
#[verifier::reject_recursive_types(OUT)]
#[verifier::reject_recursive_types(ENV)]
struct Converted<IN, OUT, ENV, D, E> {
    definition: ExportDefinition<IN, OUT, ENV>,
    decode: D,
    encode: E,
}

impl<
    IN: 'static,
    OUT: 'static,
    ENV: Send + 'static,
    D: Fn(Vec<u8>) -> Result<IN, extism_convert::Error> + Send + 'static,
    E: Fn(OUT) -> Result<Vec<u8>, extism_convert::Error> + Send + 'static,
> Converted<IN, OUT, ENV, D, E> {
    /// Whether the function can be called with all inputs, and everything can be converted.
    spec fn accepts_all(self) -> bool {
        &&& self.definition.accepts_all()
        &&& forall|bytes: Vec<u8>| #[trigger] call_requires(self.decode, (bytes,))
        &&& forall|output: OUT| #[trigger] call_requires(self.encode, (output,))
    }
}

impl<
    IN: 'static,
    OUT: 'static,
    ENV: Send + 'static,
    D: Fn(Vec<u8>) -> Result<IN, extism_convert::Error> + Send + 'static,
    E: Fn(OUT) -> Result<Vec<u8>, extism_convert::Error> + Send + 'static,
> HostCall<i64, i64> for Converted<IN, OUT, ENV, D, E> {
    closed spec fn is_ready(&self) -> bool {
        self.definition is InOut && self.accepts_all()
    }

    closed spec fn does(
        &self,
        kernel: Option<&Kernel>,
        before: StoreMut<'_>,
        args: i64,
        result: i64,
        after: StoreMut<'_>,
    ) -> bool {
        self.definition matches ExportDefinition::InOut { function, env } && does_in_out(
            results_of(&*function, env),
            self.decode,
            self.encode,
            kernel,
            before,
            args,
            result,
            after,
        )
    }

    fn run(&self, store: &mut StoreMut<'_>, kernel: Option<&Kernel>, args: i64) -> (result: i64) {
        let kernel = match kernel {
            Some(kernel) => kernel,
            None => {
                return 0;
            },
        };
        match &self.definition {
            ExportDefinition::InOut { function, env } => {
                let fetched = fetch_in(store, kernel, args, &self.decode);
                assert(fetches(
                    *kernel,
                    *old(store),
                    args,
                    self.decode,
                    fetch_result(fetched),
                    *store,
                ));
                match fetched {
                    Ok(input) => {
                        let outcome = function.call(env, input);
                        assert(results_of(&**function, *env)(input, outcome));
                        reply(store, kernel, outcome, &self.encode)
                    },
                    Err(_) => 0,
                }
            },
            _ => 0,
        }
    }
}

impl<
    IN: 'static,
    OUT: 'static,
    ENV: Send + 'static,
    D: Fn(Vec<u8>) -> Result<IN, extism_convert::Error> + Send + 'static,
    E: Fn(OUT) -> Result<Vec<u8>, extism_convert::Error> + Send + 'static,
> HostCall<i64, ()> for Converted<IN, OUT, ENV, D, E> {
    closed spec fn is_ready(&self) -> bool {
        self.definition is In && self.accepts_all()
    }

    closed spec fn does(
        &self,
        kernel: Option<&Kernel>,
        before: StoreMut<'_>,
        args: i64,
        result: (),
        after: StoreMut<'_>,
    ) -> bool {
        self.definition matches ExportDefinition::In { function, env } && does_in(
            results_of(&*function, env),
            self.decode,
            kernel,
            before,
            args,
            after,
        )
    }

    fn run(&self, store: &mut StoreMut<'_>, kernel: Option<&Kernel>, args: i64) {
        let kernel = match kernel {
            Some(kernel) => kernel,
            None => {
                return;
            },
        };
        match &self.definition {
            ExportDefinition::In { function, env } => {
                let fetched = fetch_in(store, kernel, args, &self.decode);
                assert(fetches(
                    *kernel,
                    *old(store),
                    args,
                    self.decode,
                    fetch_result(fetched),
                    *store,
                ));
                match fetched {
                    Ok(input) => {
                        function.call(env, input);
                        assert(results_of(&**function, *env)(input, ()));
                    },
                    Err(_) => {},
                }
            },
            _ => {},
        }
    }
}

impl<
    IN: 'static,
    OUT: 'static,
    ENV: Send + 'static,
    D: Fn(Vec<u8>) -> Result<IN, extism_convert::Error> + Send + 'static,
    E: Fn(OUT) -> Result<Vec<u8>, extism_convert::Error> + Send + 'static,
> HostCall<(), i64> for Converted<IN, OUT, ENV, D, E> {
    closed spec fn is_ready(&self) -> bool {
        self.definition is Out && self.accepts_all()
    }

    closed spec fn does(
        &self,
        kernel: Option<&Kernel>,
        before: StoreMut<'_>,
        args: (),
        result: i64,
        after: StoreMut<'_>,
    ) -> bool {
        self.definition matches ExportDefinition::Out { function, env } && does_out(
            results_of(&*function, env),
            self.encode,
            kernel,
            before,
            result,
            after,
        )
    }

    fn run(&self, store: &mut StoreMut<'_>, kernel: Option<&Kernel>, args: ()) -> (result: i64) {
        let kernel = match kernel {
            Some(kernel) => kernel,
            None => {
                return 0;
            },
        };
        match &self.definition {
            ExportDefinition::Out { function, env } => {
                let outcome = function.call(env, ());
                assert(results_of(&**function, *env)((), outcome));
                reply(store, kernel, outcome, &self.encode)
            },
            _ => 0,
        }
    }
}

impl<
    IN: 'static,
    OUT: 'static,
    ENV: Send + 'static,
    D: Fn(Vec<u8>) -> Result<IN, extism_convert::Error> + Send + 'static,
    E: Fn(OUT) -> Result<Vec<u8>, extism_convert::Error> + Send + 'static,
> HostCall<(), ()> for Converted<IN, OUT, ENV, D, E> {
    closed spec fn is_ready(&self) -> bool {
        self.definition is Bare && self.accepts_all()
    }

    closed spec fn does(
        &self,
        kernel: Option<&Kernel>,
        before: StoreMut<'_>,
        args: (),
        result: (),
        after: StoreMut<'_>,
    ) -> bool {
        self.definition matches ExportDefinition::Bare { function, env } && does_bare(
            results_of(&*function, env),
            before,
            after,
        )
    }

    fn run(&self, store: &mut StoreMut<'_>, kernel: Option<&Kernel>, args: ()) {
        match &self.definition {
            ExportDefinition::Bare { function, env } => {
                function.call(env, ());
                assert(results_of(&**function, *env)((), ()));
            },
            _ => {},
        }
    }
}

/// What is done when guest code calls a function with an input and an output.
pub uninterp spec fn in_out_call(external: Extern) -> Box<dyn HostCall<i64, i64>>;

/// What is done when guest code calls a function with an input.
pub uninterp spec fn in_call(external: Extern) -> Box<dyn HostCall<i64, ()>>;

/// What is done when guest code calls a function with an output.
pub uninterp spec fn out_call(external: Extern) -> Box<dyn HostCall<(), i64>>;

/// What is done when guest code calls a function without an input or an output.
pub uninterp spec fn bare_call(external: Extern) -> Box<dyn HostCall<(), ()>>;

/// The kernel that a function works on, as long as it is there.
pub uninterp spec fn call_kernel(external: Extern) -> Kernel;

/// The type of a function.
pub open spec fn function_shape(params: Seq<ValueKind>, results: Seq<ValueKind>) -> ExternShape {
    ExternShape::Function { params, results }
}

/// Whether an extern belongs to a store and is a function of a type.
pub open spec fn is_function(
    store: StoreMut<'_>,
    external: Extern,
    params: Seq<ValueKind>,
    results: Seq<ValueKind>,
) -> bool {
    &&& engine::extern_store(external) == engine::store_id(store)
    &&& engine::extern_type(store, external) == function_shape(params, results)
}

/// A function for guest code, with an input and an output.
///
/// Calls `FunctionEnv::new` and `Function::new_typed_with_env`: the new function belongs to the store,
/// is of the type of the closure, and runs `call`, with the kernel as long as somebody else keeps it.
#[verifier::external_body]
fn register_in_out(
    store: &mut StoreMut<'_>,
    kernel: &Arc<Kernel>,
    call: Box<dyn HostCall<i64, i64>>,
) -> (result: Extern)
    requires
        call.is_ready(),
    ensures
        in_out_call(result) == call,
        call_kernel(result) == **kernel,
        is_function(*final(store), result, engine::longs(1), engine::long_result()),
        engine::extends(*old(store), *final(store)),
{
    let env = FunctionEnv::new(store, (Arc::downgrade(kernel), call));
    Extern::Function(Function::new_typed_with_env(
        store,
        &env,
        |mut env: FunctionEnvMut<'_, (Weak<Kernel>, Box<dyn HostCall<i64, i64>>)>, input: i64| {
            let ((kernel, call), mut store) = env.data_and_store_mut();
            call.run(&mut store, kernel.upgrade().as_deref(), input)
        },
    ))
}

/// A function for guest code, with an input.
///
/// Calls `FunctionEnv::new` and `Function::new_typed_with_env`: the new function belongs to the store,
/// is of the type of the closure, and runs `call`, with the kernel as long as somebody else keeps it.
#[verifier::external_body]
fn register_in(
    store: &mut StoreMut<'_>,
    kernel: &Arc<Kernel>,
    call: Box<dyn HostCall<i64, ()>>,
) -> (result: Extern)
    requires
        call.is_ready(),
    ensures
        in_call(result) == call,
        call_kernel(result) == **kernel,
        is_function(*final(store), result, engine::longs(1), engine::no_result()),
        engine::extends(*old(store), *final(store)),
{
    let env = FunctionEnv::new(store, (Arc::downgrade(kernel), call));
    Extern::Function(Function::new_typed_with_env(
        store,
        &env,
        |mut env: FunctionEnvMut<'_, (Weak<Kernel>, Box<dyn HostCall<i64, ()>>)>, input: i64| {
            let ((kernel, call), mut store) = env.data_and_store_mut();
            call.run(&mut store, kernel.upgrade().as_deref(), input)
        },
    ))
}

/// A function for guest code, with an output.
///
/// Calls `FunctionEnv::new` and `Function::new_typed_with_env`: the new function belongs to the store,
/// is of the type of the closure, and runs `call`, with the kernel as long as somebody else keeps it.
#[verifier::external_body]
fn register_out(
    store: &mut StoreMut<'_>,
    kernel: &Arc<Kernel>,
    call: Box<dyn HostCall<(), i64>>,
) -> (result: Extern)
    requires
        call.is_ready(),
    ensures
        out_call(result) == call,
        call_kernel(result) == **kernel,
        is_function(*final(store), result, engine::longs(0), engine::long_result()),
        engine::extends(*old(store), *final(store)),
{
    let env = FunctionEnv::new(store, (Arc::downgrade(kernel), call));
    Extern::Function(Function::new_typed_with_env(
        store,
        &env,
        |mut env: FunctionEnvMut<'_, (Weak<Kernel>, Box<dyn HostCall<(), i64>>)>| {
            let ((kernel, call), mut store) = env.data_and_store_mut();
            call.run(&mut store, kernel.upgrade().as_deref(), ())
        },
    ))
}

/// A function for guest code, without an input or an output.
///
/// Calls `FunctionEnv::new` and `Function::new_typed_with_env`: the new function belongs to the store,
/// is of the type of the closure, and runs `call`, with the kernel as long as somebody else keeps it.
#[verifier::external_body]
fn register_bare(
    store: &mut StoreMut<'_>,
    kernel: &Arc<Kernel>,
    call: Box<dyn HostCall<(), ()>>,
) -> (result: Extern)
    requires
        call.is_ready(),
    ensures
        bare_call(result) == call,
        call_kernel(result) == **kernel,
        is_function(*final(store), result, engine::longs(0), engine::no_result()),
        engine::extends(*old(store), *final(store)),
{
    let env = FunctionEnv::new(store, (Arc::downgrade(kernel), call));
    Extern::Function(Function::new_typed_with_env(
        store,
        &env,
        |mut env: FunctionEnvMut<'_, (Weak<Kernel>, Box<dyn HostCall<(), ()>>)>| {
            let ((kernel, call), mut store) = env.data_and_store_mut();
            call.run(&mut store, kernel.upgrade().as_deref(), ())
        },
    ))
}

/// How many inputs and outputs a function has.
enum Kind {
    InOut,
    In,
    Out,
    Bare,
}

impl<
    IN: 'static,
    OUT: 'static,
    ENV: Send + 'static,
    D: Fn(Vec<u8>) -> Result<IN, extism_convert::Error> + Send + 'static,
    E: Fn(OUT) -> Result<Vec<u8>, extism_convert::Error> + Send + 'static,
> Converted<IN, OUT, ENV, D, E> {
    /// Makes the function available to guest code.
    fn register(self, store: &mut StoreMut<'_>, kernel: &Arc<Kernel>) -> (result: Extern)
        requires
            self.accepts_all(),
        ensures
            self.definition.is_behind(result, self.decode, self.encode),
            call_kernel(result) == **kernel,
            engine::extern_store(result) == engine::store_id(*final(store)),
            engine::extern_type(*final(store), result) == self.definition.shape(),
            engine::extends(*old(store), *final(store)),
    {
        let kind = match &self.definition {
            ExportDefinition::InOut { .. } => Kind::InOut,
            ExportDefinition::In { .. } => Kind::In,
            ExportDefinition::Out { .. } => Kind::Out,
            ExportDefinition::Bare { .. } => Kind::Bare,
        };
        match kind {
            Kind::InOut => register_in_out(store, kernel, Box::new(self)),
            Kind::In => register_in(store, kernel, Box::new(self)),
            Kind::Out => register_out(store, kernel, Box::new(self)),
            Kind::Bare => register_bare(store, kernel, Box::new(self)),
        }
    }
}

impl<IN: 'static, OUT: 'static, ENV: Send + 'static> ExportDefinition<IN, OUT, ENV> {
    /// Makes the function available to guest code. Its input is decoded and its output encoded by
    /// the given functions.
    pub fn to_extern<
        D: Fn(Vec<u8>) -> Result<IN, extism_convert::Error> + Send + 'static,
        E: Fn(OUT) -> Result<Vec<u8>, extism_convert::Error> + Send + 'static,
    >(self, store: &mut StoreMut<'_>, kernel: &Arc<Kernel>, decode: D, encode: E) -> (result: Extern)
        requires
            self.accepts_all(),
            forall|bytes: Vec<u8>| #[trigger] call_requires(decode, (bytes,)),
            forall|output: OUT| #[trigger] call_requires(encode, (output,)),
        ensures
            self.is_behind(result, decode, encode),
            call_kernel(result) == **kernel,
            engine::extern_store(result) == engine::store_id(*final(store)),
            engine::extern_type(*final(store), result) == self.shape(),
            engine::extends(*old(store), *final(store)),
    {
        let converted = Converted { definition: self, decode, encode };
        converted.register(store, kernel)
    }
}

/// What can be made available to guest code.
pub trait ToExtern: Send + 'static {
    /// Whether it can be made available.
    spec fn is_usable(&self) -> bool;

    /// Its type for guest code.
    spec fn shape(&self) -> ExternShape;

    /// Whether an extern stands for it.
    spec fn is_behind(&self, external: Extern) -> bool;

    /// Makes it available to guest code.
    fn to_extern(self: Box<Self>, store: &mut StoreMut<'_>, kernel: &Arc<Kernel>) -> (result: Extern)
        requires
            self.is_usable(),
        ensures
            self.is_behind(result),
            call_kernel(result) == **kernel,
            engine::extern_store(result) == engine::store_id(*final(store)),
            engine::extern_type(*final(store), result) == self.shape(),
            engine::extends(*old(store), *final(store)),
    ;
}

impl<
    IN: 'static,
    OUT: 'static,
    ENV: Send + 'static,
    D: Fn(Vec<u8>) -> Result<IN, extism_convert::Error> + Send + 'static,
    E: Fn(OUT) -> Result<Vec<u8>, extism_convert::Error> + Send + 'static,
> ToExtern for Converted<IN, OUT, ENV, D, E> {
    closed spec fn is_usable(&self) -> bool {
        self.accepts_all()
    }

    closed spec fn shape(&self) -> ExternShape {
        self.definition.shape()
    }

    closed spec fn is_behind(&self, external: Extern) -> bool {
        self.definition.is_behind(external, self.decode, self.encode)
    }

    fn to_extern(self: Box<Self>, store: &mut StoreMut<'_>, kernel: &Arc<Kernel>) -> (result:
        Extern) {
        let converted = *self;
        converted.register(store, kernel)
    }
}

/// Which results a closure that takes an input may give in an environment.
pub open spec fn closure_results<ENV, IN, R, F: Fn(&ENV, IN) -> R>(f: F, env: ENV) -> spec_fn(
    IN,
    R,
) -> bool {
    |input: IN, result: R| call_ensures(f, (&env, input), result)
}

/// Which results a closure that takes no input may give in an environment.
pub open spec fn plain_results<ENV, R, F: Fn(&ENV) -> R>(f: F, env: ENV) -> spec_fn((), R) -> bool {
    |input: (), result: R| call_ensures(f, (&env,), result)
}

/// Whether a namespace is the one that was given, or none where none was.
pub open spec fn is_namespace(kept: Option<String>, given: Option<&str>) -> bool {
    match given {
        Some(namespace) => kept matches Some(string) && string@ == namespace@,
        None => kept is None,
    }
}

/// A copy of a text, if there is one.
fn owned(text: Option<&str>) -> (result: Option<String>)
    ensures
        is_namespace(result, text),
{
    match text {
        Some(text) => Some(text.to_owned()),
        None => None,
    }
}

/// Decodes nothing from bytes.
fn nothing_from(bytes: Vec<u8>) -> (result: Result<(), extism_convert::Error>)
    ensures
        result is Ok,
{
    Ok(())
}

/// Encodes nothing, as no bytes.
fn nothing_to(nothing: ()) -> (result: Result<Vec<u8>, extism_convert::Error>)
    ensures
        result matches Ok(bytes) && bytes@.len() == 0,
{
    Ok(Vec::new())
}

/// A function of the embedding program, under the name by which plugins import it.
pub struct HostExport {
    pub name: String,
    pub namespace: Option<String>,
    pub definition: Box<dyn ToExtern>,
}

impl HostExport {
    /// Whether the function can be made available to guest code.
    pub open spec fn is_usable(self) -> bool {
        self.definition.is_usable()
    }

    /// The type of the function for guest code.
    pub open spec fn shape(self) -> ExternShape {
        self.definition.shape()
    }

    /// Whether an extern stands for the function.
    pub open spec fn is_behind(self, external: Extern) -> bool {
        self.definition.is_behind(external)
    }

    /// An export of a function, with all that it takes.
    fn assemble<
        IN: 'static,
        OUT: 'static,
        ENV: Send + 'static,
        D: Fn(Vec<u8>) -> Result<IN, extism_convert::Error> + Send + 'static,
        E: Fn(OUT) -> Result<Vec<u8>, extism_convert::Error> + Send + 'static,
    >(
        namespace: Option<&str>,
        name: &str,
        definition: ExportDefinition<IN, OUT, ENV>,
        decode: D,
        encode: E,
    ) -> (result: Self)
        requires
            definition.accepts_all(),
            forall|bytes: Vec<u8>| #[trigger] call_requires(decode, (bytes,)),
            forall|output: OUT| #[trigger] call_requires(encode, (output,)),
        ensures
            result.name@ == name@,
            is_namespace(result.namespace, namespace),
            result.is_usable(),
            result.shape() == definition.shape(),
            forall|external: Extern| #[trigger]
                result.is_behind(external) ==> match definition {
                    ExportDefinition::InOut { function, env } => stands_for_in_out(
                        external,
                        results_of(&*function, env),
                        decode,
                        encode,
                    ),
                    ExportDefinition::In { function, env } => stands_for_in(
                        external,
                        results_of(&*function, env),
                        decode,
                    ),
                    ExportDefinition::Out { function, env } => stands_for_out(
                        external,
                        results_of(&*function, env),
                        encode,
                    ),
                    ExportDefinition::Bare { function, env } => stands_for_bare(
                        external,
                        results_of(&*function, env),
                    ),
                },
    {
        HostExport {
            name: name.to_owned(),
            namespace: owned(namespace),
            definition: Box::new(Converted { definition, decode, encode }),
        }
    }

    /// A function with an input and an output.
    pub fn new_with_in_out<
        IN: 'static,
        OUT: 'static,
        ENV: Send + 'static,
        F: Fn(&ENV, IN) -> Result<OUT, ()> + Send + Sync + 'static,
        D: Fn(Vec<u8>) -> Result<IN, extism_convert::Error> + Send + 'static,
        E: Fn(OUT) -> Result<Vec<u8>, extism_convert::Error> + Send + 'static,
    >(namespace: Option<&str>, name: &str, f: F, env: ENV, decode: D, encode: E) -> (result: Self)
        requires
            forall|input: IN| #[trigger] call_requires(f, (&env, input)),
            forall|bytes: Vec<u8>| #[trigger] call_requires(decode, (bytes,)),
            forall|output: OUT| #[trigger] call_requires(encode, (output,)),
        ensures
            result.name@ == name@,
            is_namespace(result.namespace, namespace),
            result.is_usable(),
            result.shape() == function_shape(engine::longs(1), engine::long_result()),
            forall|external: Extern| #[trigger]
                result.is_behind(external) ==> stands_for_in_out(external, closure_results(f, env), decode, encode),
    {
        let ghost function = f;
        let ghost environment = env;
        let definition: ExportDefinition<IN, OUT, ENV> = ExportDefinition::InOut {
            function: Box::new(Taking(f)),
            env,
        };
        assert(definition matches ExportDefinition::InOut { function: boxed, env: kept }
            && results_of(&*boxed, kept) =~= closure_results(function, environment));
        Self::assemble(namespace, name, definition, decode, encode)
    }

    /// A function with an input.
    pub fn new_with_in<
        IN: 'static,
        ENV: Send + 'static,
        F: Fn(&ENV, IN) + Send + Sync + 'static,
        D: Fn(Vec<u8>) -> Result<IN, extism_convert::Error> + Send + 'static,
    >(namespace: Option<&str>, name: &str, f: F, env: ENV, decode: D) -> (result: Self)
        requires
            forall|input: IN| #[trigger] call_requires(f, (&env, input)),
            forall|bytes: Vec<u8>| #[trigger] call_requires(decode, (bytes,)),
        ensures
            result.name@ == name@,
            is_namespace(result.namespace, namespace),
            result.is_usable(),
            result.shape() == function_shape(engine::longs(1), engine::no_result()),
            forall|external: Extern| #[trigger]
                result.is_behind(external) ==> stands_for_in(external, closure_results(f, env), decode),
    {
        let ghost function = f;
        let ghost environment = env;
        let definition: ExportDefinition<IN, (), ENV> = ExportDefinition::In {
            function: Box::new(Taking(f)),
            env,
        };
        assert(definition matches ExportDefinition::In { function: boxed, env: kept }
            && results_of(&*boxed, kept) =~= closure_results(function, environment));
        Self::assemble(namespace, name, definition, decode, nothing_to)
    }

    /// A function with an output.
    pub fn new_with_out<
        OUT: 'static,
        ENV: Send + 'static,
        F: Fn(&ENV) -> Result<OUT, ()> + Send + Sync + 'static,
        E: Fn(OUT) -> Result<Vec<u8>, extism_convert::Error> + Send + 'static,
    >(namespace: Option<&str>, name: &str, f: F, env: ENV, encode: E) -> (result: Self)
        requires
            call_requires(f, (&env,)),
            forall|output: OUT| #[trigger] call_requires(encode, (output,)),
        ensures
            result.name@ == name@,
            is_namespace(result.namespace, namespace),
            result.is_usable(),
            result.shape() == function_shape(engine::longs(0), engine::long_result()),
            forall|external: Extern| #[trigger]
                result.is_behind(external) ==> stands_for_out(external, plain_results(f, env), encode),
    {
        let ghost function = f;
        let ghost environment = env;
        let definition: ExportDefinition<(), OUT, ENV> = ExportDefinition::Out {
            function: Box::new(Plain(f)),
            env,
        };
        assert(definition matches ExportDefinition::Out { function: boxed, env: kept }
            && results_of(&*boxed, kept) =~= plain_results(function, environment));
        Self::assemble(namespace, name, definition, nothing_from, encode)
    }

    /// A function without an input or an output.
    pub fn new<
        ENV: Send + 'static,
        F: Fn(&ENV) + Send + Sync + 'static,
    >(namespace: Option<&str>, name: &str, f: F, env: ENV) -> (result: Self)
        requires
            call_requires(f, (&env,)),
        ensures
            result.name@ == name@,
            is_namespace(result.namespace, namespace),
            result.is_usable(),
            result.shape() == function_shape(engine::longs(0), engine::no_result()),
            forall|external: Extern| #[trigger]
                result.is_behind(external) ==> stands_for_bare(external, plain_results(f, env)),
    {
        let ghost function = f;
        let ghost environment = env;
        let definition: ExportDefinition<(), (), ENV> = ExportDefinition::Bare {
            function: Box::new(Plain(f)),
            env,
        };
        assert(definition matches ExportDefinition::Bare { function: boxed, env: kept }
            && results_of(&*boxed, kept) =~= plain_results(function, environment));
        Self::assemble(namespace, name, definition, nothing_from, nothing_to)
    }

    /// The namespace that plugins import the function from, as a text.
    pub open spec fn space(self) -> Seq<char> {
        match self.namespace {
            Some(namespace) => namespace@,
            None => EXTISM_USER_MODULE@,
        }
    }

    /// The namespace that plugins import the function from.
    pub fn namespace(&self) -> (result: &str)
        ensures
            result@ == self.space(),
    {
        match &self.namespace {
            Some(namespace) => namespace.as_str(),
            None => EXTISM_USER_MODULE,
        }
    }

    /// Makes the function available to guest code.
    pub fn build(self, store: &mut StoreMut<'_>, kernel: &Arc<Kernel>) -> (result: Extern)
        requires
            self.is_usable(),
        ensures
            self.is_behind(result),
            call_kernel(result) == **kernel,
            engine::extern_store(result) == engine::store_id(*final(store)),
            engine::extern_type(*final(store), result) == self.shape(),
            engine::extends(*old(store), *final(store)),
    {
        self.definition.to_extern(store, kernel)
    }
}

/// What guest code gets from a function with an output, unless it is null, is the place of a block
/// that holds the encoded output.
pub proof fn replies_are_readable<OUT, E: Fn(OUT) -> Result<Vec<u8>, extism_convert::Error>>(
    kernel: Kernel,
    before: StoreMut<'_>,
    outcome: Result<OUT, ()>,
    encode: E,
    result: i64,
    after: StoreMut<'_>,
)
    requires
        replies(kernel, before, outcome, encode, result, after),
        result != 0,
    ensures
        outcome is Ok,
        exists|bytes: Vec<u8>, handle: MemoryHandle|
            #![trigger call_ensures(encode, (outcome->Ok_0,), Ok(bytes)), kernel.bytes_at(after, handle)]
            {
                &&& call_ensures(encode, (outcome->Ok_0,), Ok(bytes))
                &&& handle.offset as i64 == result
                &&& kernel.bytes_at(after, handle) == Ok::<Seq<u8>, KernelErrorView>(bytes@)
            },
{
    let output = outcome->Ok_0;
    let stored = choose|stored: Result<i64, KernelErrorView>| #[trigger]
        stores(kernel, before, output, encode, stored, after) && result == place_or_null(stored);
    let encoded = choose|encoded: Result<Vec<u8>, extism_convert::Error>| #[trigger]
        call_ensures(encode, (output,), encoded) && puts(
            kernel,
            before,
            kernel::encoded_bytes(encoded),
            stored,
            after,
        );
    let kept = choose|kept: Result<MemoryHandle, KernelErrorView>| #[trigger]
        kernel.keeps(before, kernel::encoded_bytes(encoded), kept, after) && stored == match kept {
            Ok(handle) => Ok(handle.offset as i64),
            Err(err) => Err(err),
        };
    let handle = kept->Ok_0;
    let bytes = encoded->Ok_0;
    assert(bytes@.len() == bytes.len());
    kernel::kept_bytes_are_read_back(kernel, before, bytes@, handle, after);
    assert(call_ensures(encode, (outcome->Ok_0,), Ok(bytes)));
    assert(kernel.bytes_at(after, handle) == Ok::<Seq<u8>, KernelErrorView>(bytes@));
}

/// A function with an input is called on nothing but what its input decodes to; and when its plugin
/// is gone, it is not called, and guest code gets null.
pub proof fn inputs_are_decoded<
    IN,
    OUT,
    D: Fn(Vec<u8>) -> Result<IN, extism_convert::Error>,
    E: Fn(OUT) -> Result<Vec<u8>, extism_convert::Error>,
>(
    gives: spec_fn(IN, Result<OUT, ()>) -> bool,
    decode: D,
    encode: E,
    kernel: Option<&Kernel>,
    before: StoreMut<'_>,
    input: i64,
    result: i64,
    after: StoreMut<'_>,
)
    requires
        does_in_out(gives, decode, encode, kernel, before, input, result, after),
        result != 0,
    ensures
        kernel is Some,
        exists|bytes: Vec<u8>, value: IN, outcome: Result<OUT, ()>|
            #![trigger call_ensures(decode, (bytes,), Ok(value)), gives(value, outcome)]
            call_ensures(decode, (bytes,), Ok(value)) && gives(value, outcome) && outcome is Ok,
{
    let home = *kernel->0;
    let (fetched, between) = choose|fetched: Result<IN, FetchProblem>, between: StoreMut<'_>|
     #[trigger]
        fetches(home, before, input, decode, fetched, between) && match fetched {
            Err(_) => result == 0 && after == between,
            Ok(value) => answers(gives, value, encode, home, between, result, after),
        };
    let value = fetched->Ok_0;
    let (found, earlier) = choose|found: Option<MemoryHandle>, earlier: StoreMut<'_>| #[trigger]
        home.finds(before, input as u64, found, earlier) && match found {
            None => false,
            Some(handle) => consumes(home, earlier, handle, decode, fetched, between),
        };
    let handle = found->0;
    let got = choose|got: Result<IN, ConvertError>| #[trigger]
        kernel::decoded(home.bytes_at(earlier, handle), decode, got) && match got {
            Err(err) => false,
            Ok(v) => exists|freed: Result<(), KernelErrorView>| #[trigger]
                home.frees(earlier, handle, freed, between) && fetched == match freed {
                    Ok(_) => Ok(v),
                    Err(err) => Err(FetchProblem::Runtime(err)),
                },
        };
    let outcome = choose|outcome: Result<OUT, ()>| #[trigger]
        gives(value, outcome) && replies(home, between, outcome, encode, result, after);
    replies_are_readable(home, between, outcome, encode, result, after);
    assert(gives(value, outcome) && outcome is Ok);
}

/// What fetching an input gives, and what becomes of its block: it fails with the place exactly where
/// there is no block; where the block cannot be read or decoded, that is the error, and the block is
/// kept; a value is what the bytes of the block decode to, and the block has then been given back,
/// once; and where only that failed, that is the error. So what has been stored as an output, of a
/// kernel that knows the block, is fetched from there as what its encoding decodes to.
pub proof fn inputs_are_fetched<
    OUT,
    IN,
    E: Fn(OUT) -> Result<Vec<u8>, extism_convert::Error>,
    D: Fn(Vec<u8>) -> Result<IN, extism_convert::Error>,
>(
    kernel: Kernel,
    first: StoreMut<'_>,
    output: OUT,
    encode: E,
    before: StoreMut<'_>,
    input: i64,
    decode: D,
    outcome: Result<IN, FetchProblem>,
    after: StoreMut<'_>,
)
    requires
        fetches(kernel, before, input, decode, outcome, after),
    ensures
        stores(kernel, first, output, encode, Ok(input), before) && knows_encoded(
            kernel,
            before,
            output,
            encode,
            input,
        ) ==> (outcome matches Ok(value) ==> comes_back(output, encode, decode, value)),
        exists|found: Option<MemoryHandle>, between: StoreMut<'_>|
            {
                &&& #[trigger] kernel.finds(before, input as u64, found, between)
                &&& (outcome matches Err(FetchProblem::HandleNotFound(_))) <==> found is None
                &&& match outcome {
                    Err(FetchProblem::HandleNotFound(place)) => place == input && after == between,
                    Err(FetchProblem::Access(problem)) => after == between && is_unreadable(
                        kernel.bytes_at(between, found->0),
                        decode,
                        problem,
                    ),
                    Ok(value) => kernel.frees(between, found->0, Ok(()), after) && decodes(
                        kernel.bytes_at(between, found->0),
                        decode,
                        value,
                    ),
                    Err(FetchProblem::Runtime(problem)) => kernel.frees(
                        between,
                        found->0,
                        Err(problem),
                        after,
                    ),
                }
            },
{
    if let Ok(value) = outcome {
        if stores(kernel, first, output, encode, Ok(input), before) && knows_encoded(
            kernel,
            before,
            output,
            encode,
            input,
        ) {
            stored_values_are_fetched(
                kernel,
                first,
                output,
                encode,
                input,
                before,
                decode,
                value,
                after,
            );
        }
    }
    let (found, between) = choose|found: Option<MemoryHandle>, between: StoreMut<'_>| #[trigger]
        kernel.finds(before, input as u64, found, between) && match found {
            None => {
                &&& outcome == Err::<IN, FetchProblem>(FetchProblem::HandleNotFound(input))
                &&& after == between
            },
            Some(handle) => consumes(kernel, between, handle, decode, outcome, after),
        };
    if let Some(handle) = found {
        let got = choose|got: Result<IN, ConvertError>| #[trigger]
            kernel::decoded(kernel.bytes_at(between, handle), decode, got) && match got {
                Err(err) => outcome == Err::<IN, FetchProblem>(FetchProblem::Access(err@)) && after
                    == between,
                Ok(value) => exists|freed: Result<(), KernelErrorView>| #[trigger]
                    kernel.frees(between, handle, freed, after) && outcome == match freed {
                        Ok(_) => Ok(value),
                        Err(err) => Err(FetchProblem::Runtime(err)),
                    },
            };
        match got {
            Ok(value) => {
                let freed = choose|freed: Result<(), KernelErrorView>| #[trigger]
                    kernel.frees(between, handle, freed, after) && outcome == match freed {
                        Ok(_) => Ok(value),
                        Err(err) => Err(FetchProblem::Runtime(err)),
                    };
                if let Ok(unit) = freed {
                    assert(freed == Ok::<(), KernelErrorView>(()));
                }
                assert(decodes(kernel.bytes_at(between, handle), decode, value));
            },
            Err(err) => {
                if let Ok(bytes) = kernel.bytes_at(between, handle) {
                    let (data, end) = choose|data: Vec<u8>, end: Result<IN, extism_convert::Error>|
                        data@ == bytes && #[trigger] call_ensures(decode, (data,), end)
                            && match end {
                            Ok(value) => got == Ok::<IN, ConvertError>(value),
                            Err(err) => got == Err::<IN, ConvertError>(ConvertError::Convert(err)),
                        };
                    let inner = end->Err_0;
                    assert(err@ == ConvertErrorView::Convert(inner));
                    assert(end == Err::<IN, extism_convert::Error>(inner));
                    assert(call_ensures(
                        decode,
                        (data,),
                        Err::<IN, extism_convert::Error>(inner),
                    ));
                    assert(refuses(kernel.bytes_at(between, handle), decode, inner));
                }
                assert(is_unreadable(kernel.bytes_at(between, handle), decode, err@));
            },
        }
    }
    assert(kernel.finds(before, input as u64, found, between));
}

/// Whether a kernel knows a block of just the size of an encoded value.
pub open spec fn knows_encoded<OUT, E: Fn(OUT) -> Result<Vec<u8>, extism_convert::Error>>(
    kernel: Kernel,
    store: StoreMut<'_>,
    output: OUT,
    encode: E,
    place: i64,
) -> bool {
    forall|bytes: Vec<u8>| #[trigger]
        call_ensures(encode, (output,), Ok(bytes)) ==> kernel.knows(
            store,
            MemoryHandle { offset: place as u64, length: bytes@.len() as u64 },
        )
}

/// Whether a value is what another one, encoded, decodes to.
pub open spec fn comes_back<
    OUT,
    IN,
    E: Fn(OUT) -> Result<Vec<u8>, extism_convert::Error>,
    D: Fn(Vec<u8>) -> Result<IN, extism_convert::Error>,
>(output: OUT, encode: E, decode: D, value: IN) -> bool {
    exists|bytes: Vec<u8>, copy: Vec<u8>|
        #![trigger call_ensures(encode, (output,), Ok(bytes)), call_ensures(decode, (copy,), Ok(value))]
        {
            &&& call_ensures(encode, (output,), Ok(bytes))
            &&& copy@ == bytes@
            &&& call_ensures(decode, (copy,), Ok(value))
        }
}

/// Whether bytes may decode to a value.
pub open spec fn decodes<IN, D: Fn(Vec<u8>) -> Result<IN, extism_convert::Error>>(
    bytes: Result<Seq<u8>, KernelErrorView>,
    decode: D,
    value: IN,
) -> bool {
    exists|data: Vec<u8>| #[trigger]
        call_ensures(decode, (data,), Ok(value)) && bytes == Ok::<Seq<u8>, KernelErrorView>(data@)
}

/// Whether bytes could not be had, or may fail to decode, and why.
pub open spec fn is_unreadable<IN, D: Fn(Vec<u8>) -> Result<IN, extism_convert::Error>>(
    bytes: Result<Seq<u8>, KernelErrorView>,
    decode: D,
    problem: ConvertErrorView,
) -> bool {
    match problem {
        ConvertErrorView::Kernel(err) => bytes == Err::<Seq<u8>, KernelErrorView>(err),
        ConvertErrorView::Convert(err) => refuses(bytes, decode, err),
    }
}

/// Whether bytes may fail to decode, and why.
pub open spec fn refuses<IN, D: Fn(Vec<u8>) -> Result<IN, extism_convert::Error>>(
    bytes: Result<Seq<u8>, KernelErrorView>,
    decode: D,
    err: extism_convert::Error,
) -> bool {
    exists|data: Vec<u8>| #[trigger]
        call_ensures(decode, (data,), Err::<IN, extism_convert::Error>(err)) && bytes == Ok::<
            Seq<u8>,
            KernelErrorView,
        >(data@)
}

/// What has been stored as an output is what is fetched as an input from the same place: what is
/// decoded are the bytes that the value was encoded to. That holds as long as nothing happens in
/// between, and of a kernel that knows the block that it has made.
pub proof fn stored_values_are_fetched<
    OUT,
    IN,
    E: Fn(OUT) -> Result<Vec<u8>, extism_convert::Error>,
    D: Fn(Vec<u8>) -> Result<IN, extism_convert::Error>,
>(
    kernel: Kernel,
    before: StoreMut<'_>,
    output: OUT,
    encode: E,
    place: i64,
    between: StoreMut<'_>,
    decode: D,
    value: IN,
    after: StoreMut<'_>,
)
    requires
        stores(kernel, before, output, encode, Ok(place), between),
        fetches(kernel, between, place, decode, Ok(value), after),
        knows_encoded(kernel, between, output, encode, place),
    ensures
        comes_back(output, encode, decode, value),
{
    let encoded = choose|encoded: Result<Vec<u8>, extism_convert::Error>| #[trigger]
        call_ensures(encode, (output,), encoded) && puts(
            kernel,
            before,
            kernel::encoded_bytes(encoded),
            Ok(place),
            between,
        );
    let kept = choose|kept: Result<MemoryHandle, KernelErrorView>| #[trigger]
        kernel.keeps(before, kernel::encoded_bytes(encoded), kept, between) && Ok::<
            i64,
            KernelErrorView,
        >(place) == match kept {
            Ok(handle) => Ok(handle.offset as i64),
            Err(err) => Err(err),
        };
    let handle = kept->Ok_0;
    let bytes = encoded->Ok_0;
    assert(bytes@.len() == bytes.len());
    assert(encoded == Ok::<Vec<u8>, extism_convert::Error>(bytes));
    kernel::kept_bytes_are_read_back(kernel, before, bytes@, handle, between);
    let offset = handle.offset;
    assert((offset as i64) as u64 == offset) by (bit_vector);
    assert(handle == MemoryHandle { offset: place as u64, length: bytes@.len() as u64 });
    let (found, later) = choose|found: Option<MemoryHandle>, later: StoreMut<'_>| #[trigger]
        kernel.finds(between, place as u64, found, later) && match found {
            None => false,
            Some(handle) => consumes(kernel, later, handle, decode, Ok(value), after),
        };
    assert(found == Some(handle));
    let got = choose|got: Result<IN, ConvertError>| #[trigger]
        kernel::decoded(kernel.bytes_at(later, handle), decode, got) && match got {
            Err(err) => false,
            Ok(inner) => exists|freed: Result<(), KernelErrorView>| #[trigger]
                kernel.frees(later, handle, freed, after) && Ok::<IN, FetchProblem>(value)
                    == match freed {
                    Ok(_) => Ok(inner),
                    Err(err) => Err(FetchProblem::Runtime(err)),
                },
        };
    assert(got == Ok::<IN, ConvertError>(value));
    assert(kernel.bytes_at(later, handle) == Ok::<Seq<u8>, KernelErrorView>(bytes@));
    let (copy, outcome) = choose|copy: Vec<u8>, outcome: Result<IN, extism_convert::Error>|
        copy@ == bytes@ && #[trigger] call_ensures(decode, (copy,), outcome) && match outcome {
            Ok(inner) => got == Ok::<IN, ConvertError>(inner),
            Err(err) => got == Err::<IN, ConvertError>(ConvertError::Convert(err)),
        };
    assert(outcome == Ok::<IN, extism_convert::Error>(value));
    assert(call_ensures(encode, (output,), Ok(bytes)));
    assert(call_ensures(decode, (copy,), Ok(value)));
}

} // verus!
