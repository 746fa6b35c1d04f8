//! That the operations of plugins and kernels do what the laws say.
use super::calls;
use super::guest;
use super::memory;
use crate::engine::{self, ExportErrorView};
use crate::errors::{
    self, ContextGoneError, ConvertError, KernelError, KernelErrorView, PluginRunError,
    RunProblem,
};
use crate::function;
use crate::host::{self, AnswerView, HostEvent, HostEventView, HttpAnswer, PluginMetadata};
use crate::kernel::{self, Kernel, MemoryHandle};
use crate::levels::LogLevel;
use crate::plugin::{self, Plugin};
use vstd::prelude::*;
use vstd::utf8::*;
use wasmer::{Extern, Memory, StoreMut};

verus! {

/// The length of a block is what the kernel answers.
pub proof fn memory_length_asks(
    kernel: &Kernel,
    store: &mut StoreMut<'_>,
    offs: u64,
    result: Result<u64, KernelError>,
)
    requires
        call_ensures(Kernel::memory_length, (kernel, store, offs), result),
    ensures
        memory::was_measured(
            *kernel,
            *old(store),
            offs,
            errors::kernel_result(result),
            *final(store),
        ),
{
    memory::lengths_are_asked_for(
        *kernel,
        *old(store),
        offs,
        errors::kernel_result(result),
        *final(store),
    );
}

/// A block is found where the kernel has one.
pub proof fn memory_handle_finds(
    kernel: &Kernel,
    store: &mut StoreMut<'_>,
    offs: u64,
    result: Option<MemoryHandle>,
)
    requires
        call_ensures(Kernel::memory_handle, (kernel, store, offs), result),
    ensures
        memory::was_found(*kernel, *old(store), offs, result, *final(store)),
{
    memory::handles_are_found_where_they_are(*kernel, *old(store), offs, result, *final(store));
}

/// As much room is made as is asked for.
pub proof fn memory_alloc_makes_room(
    kernel: &Kernel,
    store: &mut StoreMut<'_>,
    n: u64,
    result: Result<MemoryHandle, KernelError>,
)
    requires
        call_ensures(Kernel::memory_alloc, (kernel, store, n), result),
    ensures
        memory::was_allocated(
            *kernel,
            *old(store),
            n,
            errors::kernel_result(result),
            *final(store),
        ),
{
    memory::allocations_have_their_length(
        *kernel,
        *old(store),
        n,
        errors::kernel_result(result),
        *final(store),
    );
}

/// A block is given back by its offset.
pub proof fn memory_free_gives_back(
    kernel: &Kernel,
    store: &mut StoreMut<'_>,
    handle: MemoryHandle,
    result: Result<(), KernelError>,
)
    requires
        call_ensures(Kernel::memory_free, (kernel, store, handle), result),
    ensures
        memory::was_freed(
            *kernel,
            *old(store),
            handle,
            errors::kernel_result(result),
            *final(store),
        ),
{
    memory::blocks_are_freed_by_their_offset(
        *kernel,
        *old(store),
        handle,
        errors::kernel_result(result),
        *final(store),
    );
}

/// A value is put into memory whole.
pub proof fn memory_new_keeps_all(
    kernel: &Kernel,
    store: &mut StoreMut<'_>,
    encoded: Result<Vec<u8>, extism_convert::Error>,
    result: Result<MemoryHandle, KernelError>,
)
    requires
        call_ensures(Kernel::memory_new, (kernel, store, encoded), result),
    ensures
        match result {
            Ok(handle) => encoded matches Ok(data) && memory::is_put_in(
                *kernel,
                *old(store),
                data@,
                handle,
                *final(store),
            ),
            Err(err) => memory::is_not_kept(
                *kernel,
                *old(store),
                match encoded {
                    Ok(data) => Ok(data@),
                    Err(err) => Err(err),
                },
                err@,
                *final(store),
            ),
        },
{
    if let Ok(data) = encoded {
        assert(data.len() == data@.len());
    }
    memory::values_are_kept_whole(
        *kernel,
        *old(store),
        kernel::encoded_bytes(encoded),
        errors::kernel_result(result),
        *final(store),
    );
}

/// The bytes of a block are all that are in memory there, and reading them changes nothing.
pub proof fn memory_bytes_reads_all(
    kernel: &Kernel,
    store: &mut StoreMut<'_>,
    handle: MemoryHandle,
    result: Result<Vec<u8>, KernelError>,
)
    requires
        call_ensures(Kernel::memory_bytes, (kernel, store, handle), result),
    ensures
        *final(store) == *old(store),
        result matches Ok(bytes) ==> kernel.bytes_at(*old(store), handle) == Ok::<
            Seq<u8>,
            KernelErrorView,
        >(bytes@),
        result matches Err(err) ==> kernel.bytes_at(*old(store), handle) == Err::<
            Seq<u8>,
            KernelErrorView,
        >(err@),
{
}

/// The text in a block is all that is there, and reading it changes nothing.
pub proof fn memory_string_reads_all(
    kernel: &Kernel,
    store: &mut StoreMut<'_>,
    handle: MemoryHandle,
    result: Result<String, KernelError>,
)
    requires
        call_ensures(Kernel::memory_string, (kernel, store, handle), result),
    ensures
        *final(store) == *old(store),
        match result {
            Ok(text) => kernel.bytes_at(*old(store), handle) == Ok::<Seq<u8>, KernelErrorView>(
                encode_utf8(text@),
            ),
            Err(err) => match err@ {
                KernelErrorView::FromUtf8Error(bytes) => !valid_utf8(bytes) && kernel.bytes_at(
                    *old(store),
                    handle,
                ) == Ok::<Seq<u8>, KernelErrorView>(bytes),
                problem => kernel.bytes_at(*old(store), handle) == Err::<Seq<u8>, KernelErrorView>(
                    problem,
                ),
            },
        },
{
    memory::texts_are_those_in_memory(*kernel, *old(store), handle);
}

/// A value is what all the bytes of its block decode to, and reading it changes nothing.
pub proof fn memory_get_decodes_all<T, D: Fn(Vec<u8>) -> Result<T, extism_convert::Error>>(
    kernel: &Kernel,
    store: &mut StoreMut<'_>,
    handle: MemoryHandle,
    decode: &D,
    result: Result<T, ConvertError>,
)
    requires
        call_ensures(Kernel::memory_get::<T, D>, (kernel, store, handle, decode), result),
    ensures
        *final(store) == *old(store),
        match result {
            Ok(value) => function::decodes(kernel.bytes_at(*old(store), handle), *decode, value),
            Err(err) => function::is_unreadable(
                kernel.bytes_at(*old(store), handle),
                *decode,
                err@,
            ),
        },
{
    memory::values_are_decoded_from_their_bytes(
        kernel.bytes_at(*old(store), handle),
        *decode,
        result,
    );
}

/// The kernel is told of the whole input.
pub proof fn set_input_tells_all(
    kernel: &Kernel,
    store: &mut StoreMut<'_>,
    handle: MemoryHandle,
    result: Result<(), KernelError>,
)
    requires
        call_ensures(Kernel::set_input, (kernel, store, handle), result),
    ensures
        memory::was_announced(
            *kernel,
            *old(store),
            "input_set"@,
            handle,
            errors::kernel_result(result),
            *final(store),
        ),
{
    memory::blocks_are_announced_whole(
        *kernel,
        *old(store),
        "input_set"@,
        handle,
        errors::kernel_result(result),
        *final(store),
    );
}

/// The kernel is told of the whole output.
pub proof fn set_output_tells_all(
    kernel: &Kernel,
    store: &mut StoreMut<'_>,
    handle: MemoryHandle,
    result: Result<(), KernelError>,
)
    requires
        call_ensures(Kernel::set_output, (kernel, store, handle), result),
    ensures
        memory::was_announced(
            *kernel,
            *old(store),
            "output_set"@,
            handle,
            errors::kernel_result(result),
            *final(store),
        ),
{
    memory::blocks_are_announced_whole(
        *kernel,
        *old(store),
        "output_set"@,
        handle,
        errors::kernel_result(result),
        *final(store),
    );
}

/// The input is where the kernel says, and as long.
pub proof fn get_input_asks_for_all(
    kernel: &Kernel,
    store: &mut StoreMut<'_>,
    result: Result<MemoryHandle, KernelError>,
)
    requires
        call_ensures(Kernel::get_input, (kernel, store), result),
    ensures
        memory::was_reported(
            *kernel,
            *old(store),
            "input_offset"@,
            "input_length"@,
            errors::kernel_result(result),
            *final(store),
        ),
{
    memory::blocks_are_reported_whole(
        *kernel,
        *old(store),
        "input_offset"@,
        "input_length"@,
        errors::kernel_result(result),
        *final(store),
    );
}

/// The output is where the kernel says, and as long.
pub proof fn get_output_asks_for_all(
    kernel: &Kernel,
    store: &mut StoreMut<'_>,
    result: Result<MemoryHandle, KernelError>,
)
    requires
        call_ensures(Kernel::get_output, (kernel, store), result),
    ensures
        memory::was_reported(
            *kernel,
            *old(store),
            "output_offset"@,
            "output_length"@,
            errors::kernel_result(result),
            *final(store),
        ),
{
    memory::blocks_are_reported_whole(
        *kernel,
        *old(store),
        "output_offset"@,
        "output_length"@,
        errors::kernel_result(result),
        *final(store),
    );
}

/// The memory of a kernel is what it exports by that name, and all that it exports is listed.
pub proof fn kernels_show_what_they_export(
    kernel: &Kernel,
    memory: Result<Memory, KernelError>,
    exports: Vec<(String, Extern)>,
)
    requires
        call_ensures(Kernel::memory, (kernel,), memory),
        call_ensures(Kernel::exports, (kernel,), exports),
    ensures
        match memory {
            Ok(found) => memory::memory_problem(*kernel) is None && engine::extern_memory(
                engine::instance_exports(kernel.instance())["memory"@],
            ) == Some(found),
            Err(err) => memory::memory_problem(*kernel) matches Some(problem) && err@
                == KernelErrorView::Export(problem),
        },
        forall|name: Seq<char>, external: Extern|
            #![trigger is_listed(exports@, name, external)]
            is_listed(exports@, name, external) <==> engine::instance_exports(
                kernel.instance(),
            ).contains_key(name) && engine::instance_exports(kernel.instance())[name] == external,
{
    assert forall|name: Seq<char>, external: Extern|
        #![trigger is_listed(exports@, name, external)]
        engine::instance_exports(kernel.instance()).contains_key(name) && engine::instance_exports(
            kernel.instance(),
        )[name] == external implies is_listed(exports@, name, external) by {
        let i = choose|i: int| 0 <= i < exports@.len() && #[trigger] exports@[i].0@ == name;
        assert(exports@[i].0@ == name);
        assert(exports@[i].1 == external);
    }
}

/// Whether an extern is listed by its name.
pub open spec fn is_listed(
    exports: Seq<(String, Extern)>,
    name: Seq<char>,
    external: Extern,
) -> bool {
    exists|i: int|
        0 <= i < exports.len() && (#[trigger] exports[i]).0@ == name && exports[i].1 == external
}

/// A message of guest code is logged whole.
pub proof fn log_logs_the_whole_message(
    kernel: &Kernel,
    store: &mut StoreMut<'_>,
    level: LogLevel,
    text: i64,
    result: Vec<HostEvent>,
)
    requires
        call_ensures(Kernel::log, (kernel, store, level, text), result),
    ensures
        guest::was_logged(
            *kernel,
            *old(store),
            level,
            text,
            host::told(result@),
            *final(store),
        ),
{
    guest::messages_are_logged_whole(
        *kernel,
        *old(store),
        level,
        text,
        host::told(result@),
        *final(store),
    );
}

/// Guest code gets the whole value of the configuration.
pub proof fn config_get_hands_out_the_whole_value<ID>(
    kernel: &Kernel,
    store: &mut StoreMut<'_>,
    metadata: &PluginMetadata<ID>,
    key: i64,
    result: (i64, Vec<HostEvent>),
)
    requires
        forall|name: Seq<char>|
            metadata.config@.contains_key(name) ==> encode_utf8(
                (#[trigger] metadata.config@[name])@,
            ).len() <= u64::MAX,
        call_ensures(Kernel::config_get::<ID>, (kernel, store, metadata, key), result),
    ensures
        guest::was_looked_up(
            *kernel,
            *old(store),
            |name: Seq<char>|
                if metadata.config@.contains_key(name) {
                    Some(encode_utf8(metadata.config@[name]@))
                } else {
                    None
                },
            |name: Seq<char>| HostEventView::ConfigNotFound(name),
            key,
            result.0,
            host::told(result.1@),
            *final(store),
        ),
{
    guest::config_values_are_handed_out_whole(
        *kernel,
        *old(store),
        metadata.config@,
        key,
        result.0,
        host::told(result.1@),
        *final(store),
    );
    let config = metadata.config@;
    assert((|name: Seq<char>|
        if config.contains_key(name) {
            Some(encode_utf8(config[name]@))
        } else {
            None
        }) =~= (|name: Seq<char>|
        if metadata.config@.contains_key(name) {
            Some(encode_utf8(metadata.config@[name]@))
        } else {
            None
        }));
}

/// Guest code gets the whole value of a variable.
pub proof fn var_get_hands_out_the_whole_value<ID>(
    kernel: &Kernel,
    store: &mut StoreMut<'_>,
    metadata: &PluginMetadata<ID>,
    key: i64,
    result: (i64, Vec<HostEvent>),
)
    requires
        forall|name: Seq<char>|
            metadata.vars@.contains_key(name) ==> (#[trigger] metadata.vars@[name]).len()
                <= u64::MAX,
        call_ensures(Kernel::var_get::<ID>, (kernel, store, metadata, key), result),
    ensures
        guest::was_looked_up(
            *kernel,
            *old(store),
            |name: Seq<char>|
                if metadata.vars@.contains_key(name) {
                    Some(metadata.vars@[name])
                } else {
                    None
                },
            |name: Seq<char>| HostEventView::VarNotFound(name),
            key,
            result.0,
            host::told(result.1@),
            *final(store),
        ),
{
    guest::variables_are_handed_out_whole(
        *kernel,
        *old(store),
        metadata.vars@,
        key,
        result.0,
        host::told(result.1@),
        *final(store),
    );
    let vars = metadata.vars@;
    assert((|name: Seq<char>|
        if vars.contains_key(name) {
            Some(vars[name])
        } else {
            None
        }) =~= (|name: Seq<char>|
        if metadata.vars@.contains_key(name) {
            Some(metadata.vars@[name])
        } else {
            None
        }));
}

/// A variable is set to the whole value, and nothing else that the host knows of the plugin changes.
pub proof fn var_set_sets_the_whole_value<ID>(
    kernel: &Kernel,
    store: &mut StoreMut<'_>,
    metadata: &mut PluginMetadata<ID>,
    key: i64,
    value: i64,
    result: Vec<HostEvent>,
)
    requires
        call_ensures(Kernel::var_set::<ID>, (kernel, store, metadata, key, value), result),
    ensures
        guest::was_assigned(
            *kernel,
            *old(store),
            old(metadata).vars@,
            key,
            value,
            final(metadata).vars@,
            host::told(result@),
            *final(store),
        ),
        final(metadata).id == old(metadata).id,
        final(metadata).config == old(metadata).config,
{
    guest::variables_are_set_whole(
        *kernel,
        *old(store),
        old(metadata).vars@,
        key,
        value,
        final(metadata).vars@,
        host::told(result@),
        *final(store),
    );
}

/// A request and its body are taken over whole.
pub proof fn take_request_takes_all(
    kernel: &Kernel,
    store: &mut StoreMut<'_>,
    url: i64,
    body: i64,
    result: (Option<(Vec<u8>, Vec<u8>)>, Vec<HostEvent>),
)
    requires
        call_ensures(Kernel::take_request, (kernel, store, url, body), result),
    ensures
        guest::was_taken_over(
            *kernel,
            *old(store),
            url,
            body,
            match result.0 {
                Some((request, content)) => Some((request@, content@)),
                None => None,
            },
            host::told(result.1@),
            *final(store),
        ),
{
    guest::requests_are_taken_whole(
        *kernel,
        *old(store),
        url,
        body,
        host::request_of(result.0),
        host::told(result.1@),
        *final(store),
    );
}

/// The body of an answer is handed out whole, and the answer is kept.
pub proof fn hand_answer_out_hands_out_all(
    kernel: &Kernel,
    store: &mut StoreMut<'_>,
    last: &mut Option<HttpAnswer>,
    answer: Result<HttpAnswer, ()>,
    result: (i64, Vec<HostEvent>),
)
    requires
        call_ensures(Kernel::hand_answer_out, (kernel, store, last, answer), result),
    ensures
        guest::was_answered(
            *kernel,
            *old(store),
            match answer {
                Ok(answer) => Ok(
                    AnswerView {
                        status: answer.status,
                        headers: answer.headers@,
                        body: answer.body@,
                    },
                ),
                Err(_) => Err(()),
            },
            result.0,
            host::last_answer(*final(last)),
            host::told(result.1@),
            *final(store),
        ),
{
    if let Ok(answer) = answer {
        assert(answer.body.len() == answer.body@.len());
    }
    guest::answers_are_passed_on_whole(
        *kernel,
        *old(store),
        host::reply(answer),
        result.0,
        host::last_answer(*final(last)),
        host::told(result.1@),
        *final(store),
    );
}

/// A request is sent whole, and its answer handed out whole.
pub proof fn http_request_sends_all<S: Fn(Vec<u8>, Vec<u8>) -> Result<HttpAnswer, ()>>(
    kernel: &Kernel,
    store: &mut StoreMut<'_>,
    last: &mut Option<HttpAnswer>,
    url: i64,
    body: i64,
    send: &S,
    result: (i64, Vec<HostEvent>),
)
    requires
        call_ensures(Kernel::http_request::<S>, (kernel, store, last, url, body, send), result),
    ensures
        guest::was_requested(
            *kernel,
            *old(store),
            host::last_answer(*old(last)),
            url,
            body,
            |request: (Seq<u8>, Seq<u8>), answer: Result<AnswerView, ()>|
                host::may_answer(*send, request, answer),
            result.0,
            host::last_answer(*final(last)),
            host::told(result.1@),
            *final(store),
        ),
{
    let replies = host::answers_of(*send);
    assert forall|request: (Seq<u8>, Seq<u8>), answer: AnswerView| #[trigger]
        replies(request, Ok(answer)) implies answer.body.len() <= u64::MAX by {
        let (asked, sent, got) = choose|asked: Vec<u8>, sent: Vec<u8>, got: Result<HttpAnswer, ()>|
            asked@ == request.0 && sent@ == request.1 && host::reply(got)
                == Ok::<AnswerView, ()>(answer) && #[trigger] call_ensures(
                *send,
                (asked, sent),
                got,
            );
        assert(got->Ok_0.body.len() == answer.body.len());
    }
    guest::requests_are_sent_whole(
        *kernel,
        *old(store),
        host::last_answer(*old(last)),
        url,
        body,
        replies,
        result.0,
        host::last_answer(*final(last)),
        host::told(result.1@),
        *final(store),
    );
    assert(replies =~= (|request: (Seq<u8>, Seq<u8>), answer: Result<AnswerView, ()>|
        host::may_answer(*send, request, answer)));
}

/// The status code is that of the last answer, and 0 where there is none.
pub proof fn http_status_code_is_that_of_the_answer(
    kernel: &Kernel,
    last: &Option<HttpAnswer>,
    result: i32,
)
    requires
        call_ensures(Kernel::http_status_code, (kernel, last), result),
    ensures
        last matches Some(answer) ==> result == answer.status,
        last is None ==> result == 0,
{
}

/// Guest code gets the whole headers of the last answer.
pub proof fn http_headers_hands_out_all(
    kernel: &Kernel,
    store: &mut StoreMut<'_>,
    last: &Option<HttpAnswer>,
    result: (i64, Vec<HostEvent>),
)
    requires
        call_ensures(Kernel::http_headers, (kernel, store, last), result),
    ensures
        match last {
            Some(answer) => guest::was_handed_out(
                *kernel,
                *old(store),
                answer.headers@,
                result.0,
                host::told(result.1@),
                *final(store),
            ),
            None => result.0 == 0 && result.1@.len() == 0 && *final(store) == *old(store),
        },
{
    if let Some(answer) = last {
        assert(answer.headers.len() == answer.headers@.len());
    }
    guest::headers_are_handed_out_whole(
        *kernel,
        *old(store),
        host::last_answer(*last),
        result.0,
        host::told(result.1@),
        *final(store),
    );
    assert(host::told(result.1@).len() == result.1@.len());
}

/// A plugin can be used with the store that it runs in, and with no other.
pub proof fn plugins_are_used_where_they_run(
    plugin: &Plugin,
    store: &mut StoreMut<'_>,
    result: Result<(), ContextGoneError>,
)
    requires
        call_ensures(Plugin::context, (plugin, store), result),
    ensures
        result is Ok <==> plugin.home() == engine::store_id(*old(store)),
        *final(store) == *old(store),
{
}

/// A call runs the function of that name of the main module.
pub proof fn call_runs_the_function(
    plugin: &Plugin,
    store: &mut StoreMut<'_>,
    name: &str,
    result: Result<(), PluginRunError>,
)
    requires
        call_ensures(Plugin::call, (plugin, store, name), result),
    ensures
        if plugin.home() == engine::store_id(*old(store)) {
            calls::ran(
                *plugin,
                *old(store),
                name@,
                plugin::run_result(result),
                *final(store),
            )
        } else {
            (result matches Err(err) && err@ == RunProblem::ContextGone) && *final(store) == *old(
                store,
            )
        },
{
    if plugin.home() == engine::store_id(*old(store)) {
        calls::calls_run_the_main_module(
            *plugin,
            *old(store),
            name@,
            plugin::run_result(result),
            *final(store),
        );
    }
}

/// A call with an output gives the whole output.
pub proof fn call_out_gives_the_whole_output<
    OUT,
    D: Fn(Vec<u8>) -> Result<OUT, extism_convert::Error>,
>(
    plugin: &Plugin,
    store: &mut StoreMut<'_>,
    name: &str,
    decode: &D,
    result: Result<OUT, PluginRunError>,
)
    requires
        call_ensures(Plugin::call_out::<OUT, D>, (plugin, store, name, decode), result),
    ensures
        if plugin.home() == engine::store_id(*old(store)) {
            calls::ran_and_read(*plugin, *old(store), name@, *decode, result, *final(store))
        } else {
            (result matches Err(err) && err@ == RunProblem::ContextGone) && *final(store) == *old(
                store,
            )
        },
{
    if plugin.home() == engine::store_id(*old(store)) {
        calls::calls_give_the_whole_output(
            *plugin,
            *old(store),
            name@,
            *decode,
            result,
            *final(store),
        );
    }
}

/// A call with an input passes the whole input.
pub proof fn call_in_passes_the_whole_input(
    plugin: &Plugin,
    store: &mut StoreMut<'_>,
    name: &str,
    encoded: Result<Vec<u8>, extism_convert::Error>,
    result: Result<(), PluginRunError>,
)
    requires
        call_ensures(Plugin::call_in, (plugin, store, name, encoded), result),
    ensures
        calls::was_passed_in(
            *plugin,
            *old(store),
            name@,
            match encoded {
                Ok(data) => Ok(data@),
                Err(err) => Err(err),
            },
            plugin::run_result(result),
            *final(store),
        ),
{
    if let Ok(data) = encoded {
        assert(data.len() == data@.len());
    }
    calls::calls_pass_the_whole_input(
        *plugin,
        *old(store),
        name@,
        kernel::encoded_bytes(encoded),
        plugin::run_result(result),
        *final(store),
    );
}

/// A call with an input and an output passes the whole input, and gives the whole output.
pub proof fn call_in_out_passes_and_gives_all<
    OUT,
    D: Fn(Vec<u8>) -> Result<OUT, extism_convert::Error>,
>(
    plugin: &Plugin,
    store: &mut StoreMut<'_>,
    name: &str,
    encoded: Result<Vec<u8>, extism_convert::Error>,
    decode: &D,
    result: Result<OUT, PluginRunError>,
)
    requires
        call_ensures(
            Plugin::call_in_out::<OUT, D>,
            (plugin, store, name, encoded, decode),
            result,
        ),
    ensures
        calls::was_passed_and_read(
            *plugin,
            *old(store),
            name@,
            match encoded {
                Ok(data) => Ok(data@),
                Err(err) => Err(err),
            },
            *decode,
            result,
            *final(store),
        ),
{
    if let Ok(data) = encoded {
        assert(data.len() == data@.len());
    }
    calls::calls_pass_and_give_all(
        *plugin,
        *old(store),
        name@,
        kernel::encoded_bytes(encoded),
        *decode,
        result,
        *final(store),
    );
}

} // verus!
