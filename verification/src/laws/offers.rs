//! What the host offers to guest code: which functions, and what they work on.
use super::guest;
use crate::engine::{ExternShape, ValueKind};
use crate::env::{self, GuestHost, HostFunction, HostView};
use crate::host::{
    self, AnswerView, HostEvent, HostEventView, HttpAnswer, PluginMetadata, Told,
};
use crate::kernel::Kernel;
use crate::levels::{self, LogLevel};
use vstd::prelude::*;
use vstd::utf8::*;
use wasmer::StoreMut;

verus! {

/// The type of a function of 64-bit integers.
pub open spec fn function_type(params: nat, results: Seq<ValueKind>) -> ExternShape {
    ExternShape::Function { params: Seq::new(params, |i: int| ValueKind::I64), results }
}

/// By which names guest code knows the functions of the host, and of which types they are.
pub proof fn functions_are_known_by_their_names()
    ensures
        env::function_named("log_trace"@) == Some(HostFunction::Log(LogLevel::Trace)),
        env::function_named("log_debug"@) == Some(HostFunction::Log(LogLevel::Debug)),
        env::function_named("log_info"@) == Some(HostFunction::Log(LogLevel::Info)),
        env::function_named("log_warn"@) == Some(HostFunction::Log(LogLevel::Warn)),
        env::function_named("log_error"@) == Some(HostFunction::Log(LogLevel::Error)),
        env::function_named("get_log_level"@) == Some(HostFunction::GetLogLevel),
        env::function_named("config_get"@) == Some(HostFunction::ConfigGet),
        env::function_named("var_get"@) == Some(HostFunction::VarGet),
        env::function_named("var_set"@) == Some(HostFunction::VarSet),
        env::function_named("http_request"@) == Some(HostFunction::HttpRequest),
        env::function_named("http_status_code"@) == Some(HostFunction::HttpStatusCode),
        env::function_named("http_headers"@) == Some(HostFunction::HttpHeaders),
        forall|name: Seq<char>| #[trigger]
            env::function_named(name) is Some ==> {
                ||| name == "log_trace"@ || name == "log_debug"@ || name == "log_info"@
                ||| name == "log_warn"@ || name == "log_error"@ || name == "get_log_level"@
                ||| name == "config_get"@ || name == "var_get"@ || name == "var_set"@
                ||| name == "http_request"@ || name == "http_status_code"@
                ||| name == "http_headers"@
            },
        forall|level: LogLevel| #[trigger]
            env::host_type(HostFunction::Log(level)) == function_type(1, Seq::empty()),
        env::host_type(HostFunction::GetLogLevel) == function_type(0, seq![ValueKind::I64]),
        env::host_type(HostFunction::ConfigGet) == function_type(1, seq![ValueKind::I64]),
        env::host_type(HostFunction::VarGet) == function_type(1, seq![ValueKind::I64]),
        env::host_type(HostFunction::VarSet) == function_type(2, Seq::empty()),
        env::host_type(HostFunction::HttpRequest) == function_type(2, seq![ValueKind::I64]),
        env::host_type(HostFunction::HttpStatusCode) == function_type(0, seq![ValueKind::I32]),
        env::host_type(HostFunction::HttpHeaders) == function_type(0, seq![ValueKind::I64]),
{
    reveal_strlit("log_warn");
    reveal_strlit("log_info");
    reveal_strlit("log_debug");
    reveal_strlit("log_error");
    reveal_strlit("log_trace");
    reveal_strlit("get_log_level");
    reveal_strlit("config_get");
    reveal_strlit("var_get");
    reveal_strlit("var_set");
    reveal_strlit("http_request");
    reveal_strlit("http_status_code");
    reveal_strlit("http_headers");
    assert("log_warn"@.len() == 8);
    assert("log_info"@.len() == 8);
    assert("log_debug"@.len() == 9);
    assert("log_error"@.len() == 9);
    assert("log_trace"@.len() == 9);
    assert("get_log_level"@.len() == 13);
    assert("config_get"@.len() == 10);
    assert("var_get"@.len() == 7);
    assert("var_set"@.len() == 7);
    assert("http_request"@.len() == 12);
    assert("http_status_code"@.len() == 16);
    assert("http_headers"@.len() == 12);
    assert("log_warn"@[4] != "log_info"@[4]);
    assert("log_debug"@[4] != "log_error"@[4]);
    assert("log_debug"@[4] != "log_trace"@[4]);
    assert("log_error"@[4] != "log_trace"@[4]);
    assert("var_get"@[4] != "var_set"@[4]);
    assert("http_request"@[5] != "http_headers"@[5]);
}

/// Every function of the host has just one name.
pub proof fn functions_have_one_name(one: Seq<char>, other: Seq<char>)
    requires
        env::function_named(one) is Some,
        env::function_named(one) == env::function_named(other),
    ensures
        one == other,
{
}

/// Levels that matter more have larger numbers, from 0 to 4, and a message is logged just where the number
/// of its level is not less than the one that guest code is told.
pub proof fn levels_go_up(level: LogLevel, least: Option<LogLevel>)
    ensures
        0 <= levels::level_number(LogLevel::Trace),
        levels::level_number(LogLevel::Trace) < levels::level_number(LogLevel::Debug),
        levels::level_number(LogLevel::Debug) < levels::level_number(LogLevel::Info),
        levels::level_number(LogLevel::Info) < levels::level_number(LogLevel::Warn),
        levels::level_number(LogLevel::Warn) < levels::level_number(LogLevel::Error),
        levels::level_number(LogLevel::Error) <= 4,
        least is None ==> levels::level_number(level) < levels::threshold_number(least)
            && levels::threshold_number(least) == i64::MAX,
        least matches Some(bound) ==> (levels::level_number(level) >= levels::threshold_number(
            least,
        ) <==> levels::level_number(level) >= levels::level_number(bound)),
        least matches Some(bound) ==> levels::threshold_number(least) == levels::level_number(
            bound,
        ),
{
}

/// A message is logged at its own level; what guest code asked for in vain is a warning, and what the host
/// could not do is an error.
pub proof fn events_have_their_level(event: HostEventView)
    ensures
        match event {
            HostEventView::Message(level, _) => host::event_level(event) == level,
            HostEventView::HandleNotFound(_)
            | HostEventView::ConfigNotFound(_)
            | HostEventView::VarNotFound(_) => host::event_level(event) == LogLevel::Warn,
            HostEventView::MemoryAccess(_)
            | HostEventView::NotFreed(_)
            | HostEventView::RequestFailed => host::event_level(event) == LogLevel::Error,
        },
{
}

/// The host keeps for a plugin what it is given: its kernel, its whole configuration, its variables, and where
/// events and requests go to; and no answer yet.
pub proof fn hosts_keep_what_they_are_given<
    ID,
    L: Fn(&ID, HostEvent),
    S: Fn(Vec<u8>, Vec<u8>) -> Result<HttpAnswer, ()>,
>(kernel: &Kernel, metadata: PluginMetadata<ID>, emit: L, send: S)
    ensures
        env::host_view(kernel, metadata, emit, send).kernel == *kernel,
        forall|name: Seq<char>| #[trigger]
            env::host_view(kernel, metadata, emit, send).config.contains_key(name)
                <==> metadata.config@.contains_key(name),
        forall|name: Seq<char>|
            metadata.config@.contains_key(name) ==> #[trigger] env::host_view(
                kernel,
                metadata,
                emit,
                send,
            ).config[name] == encode_utf8(metadata.config@[name]@),
        env::host_view(kernel, metadata, emit, send).vars == metadata.vars@,
        env::host_view(kernel, metadata, emit, send).last is None,
        forall|event: HostEventView| #[trigger]
            (env::host_view(kernel, metadata, emit, send).sink)(event) <==> exists|sent: HostEvent|
                sent@ == event && #[trigger] call_ensures(emit, (&metadata.id, sent), ()),
        forall|request: (Seq<u8>, Seq<u8>), answer: Result<AnswerView, ()>| #[trigger]
            (env::host_view(kernel, metadata, emit, send).replies)(request, answer) <==> exists|
                asked: Vec<u8>,
                body: Vec<u8>,
                got: Result<HttpAnswer, ()>,
            |
                asked@ == request.0 && body@ == request.1 && host::reply(got) == answer
                    && #[trigger] call_ensures(send, (asked, body), got),
{
}

/// The functions of the host work on all that it keeps for a plugin, by a handle on the same kernel.
pub proof fn functions_share_what_hosts_keep(view: HostView)
    ensures
        view.shared().kernel == view.kernel.copied(),
        view.shared().config == view.config,
        view.shared().vars == view.vars,
        view.shared().last == view.last,
        view.shared().sink == view.sink,
        view.shared().replies == view.replies,
{
}

/// Whether events were all handed on for a plugin.
pub open spec fn was_told(view: HostView, events: Told) -> bool {
    forall|i: int| 0 <= i < events.len() ==> (view.sink)(#[trigger] events[i])
}

/// Logging for a plugin logs the message, whole, by its own kernel, and everything is handed on.
pub proof fn plugins_log_whole_messages(
    view: HostView,
    before: StoreMut<'_>,
    level: LogLevel,
    text: i64,
    after: StoreMut<'_>,
)
    requires
        view.logs(before, level, text, after),
    ensures
        exists|events: Told| #[trigger]
            guest::was_logged(view.kernel, before, level, text, events, after) && was_told(
                view,
                events,
            ),
{
    let events = choose|events: Told| #[trigger]
        view.kernel.logs(before, level, text, events, after) && host::all_handed_on(
            view.sink,
            events,
        );
    guest::messages_are_logged_whole(view.kernel, before, level, text, events, after);
    assert(was_told(view, events));
}

/// The value of a name.
pub open spec fn value_in(values: Map<Seq<char>, Seq<u8>>) -> spec_fn(Seq<char>) -> Option<Seq<u8>> {
    |name: Seq<char>|
        if values.contains_key(name) {
            Some(values[name])
        } else {
            None
        }
}

/// That there is no configuration value of a name.
pub open spec fn config_is_missing() -> spec_fn(Seq<char>) -> HostEventView {
    |name: Seq<char>| HostEventView::ConfigNotFound(name)
}

/// That there is no variable of a name.
pub open spec fn var_is_missing() -> spec_fn(Seq<char>) -> HostEventView {
    |name: Seq<char>| HostEventView::VarNotFound(name)
}

/// Looking a configuration value up for a plugin gives that of its own configuration, whole.
pub proof fn plugins_look_their_configuration_up(
    view: HostView,
    before: StoreMut<'_>,
    key: i64,
    place: i64,
    after: StoreMut<'_>,
)
    requires
        forall|name: Seq<char>|
            view.config.contains_key(name) ==> (#[trigger] view.config[name]).len() <= u64::MAX,
        view.looks_config_up(before, key, place, after),
    ensures
        exists|events: Told| #[trigger]
            guest::was_looked_up(
                view.kernel,
                before,
                value_in(view.config),
                config_is_missing(),
                key,
                place,
                events,
                after,
            ) && was_told(view, events),
{
    let events = choose|events: Told| #[trigger]
        view.kernel.looks_up(
            before,
            view.config,
            host::no_config(),
            key,
            place,
            events,
            after,
        ) && host::all_handed_on(view.sink, events);
    guest::values_are_looked_up(
        view.kernel,
        before,
        view.config,
        host::no_config(),
        key,
        place,
        events,
        after,
    );
    let values = view.config;
    let given = |name: Seq<char>|
        if values.contains_key(name) {
            Some(values[name])
        } else {
            None
        };
    assert(given =~= value_in(values));
    assert(host::no_config() =~= config_is_missing());
    assert(guest::was_looked_up(
        view.kernel,
        before,
        value_in(values),
        config_is_missing(),
        key,
        place,
        events,
        after,
    ));
    assert(was_told(view, events));
}

/// Looking a variable up for a plugin gives that of its own variables, whole.
pub proof fn plugins_look_their_variables_up(
    view: HostView,
    before: StoreMut<'_>,
    key: i64,
    place: i64,
    after: StoreMut<'_>,
)
    requires
        forall|name: Seq<char>|
            view.vars.contains_key(name) ==> (#[trigger] view.vars[name]).len() <= u64::MAX,
        view.looks_var_up(before, key, place, after),
    ensures
        exists|events: Told| #[trigger]
            guest::was_looked_up(
                view.kernel,
                before,
                value_in(view.vars),
                var_is_missing(),
                key,
                place,
                events,
                after,
            ) && was_told(view, events),
{
    let events = choose|events: Told| #[trigger]
        view.kernel.looks_up(before, view.vars, host::no_var(), key, place, events, after)
            && host::all_handed_on(view.sink, events);
    guest::values_are_looked_up(
        view.kernel,
        before,
        view.vars,
        host::no_var(),
        key,
        place,
        events,
        after,
    );
    let values = view.vars;
    let given = |name: Seq<char>|
        if values.contains_key(name) {
            Some(values[name])
        } else {
            None
        };
    assert(given =~= value_in(values));
    assert(host::no_var() =~= var_is_missing());
    assert(guest::was_looked_up(
        view.kernel,
        before,
        value_in(values),
        var_is_missing(),
        key,
        place,
        events,
        after,
    ));
    assert(was_told(view, events));
}

/// Setting a variable for a plugin sets one of its own variables to the whole value, or has a reason not to.
pub proof fn plugins_set_their_variables(
    view: HostView,
    before: StoreMut<'_>,
    key: i64,
    value: i64,
    vars: Map<Seq<char>, Seq<u8>>,
    after: StoreMut<'_>,
)
    requires
        view.assigns(before, key, value, vars, after),
    ensures
        exists|events: Told| #[trigger]
            guest::was_assigned(
                view.kernel,
                before,
                view.vars,
                key,
                value,
                vars,
                events,
                after,
            ) && was_told(view, events),
{
    let events = choose|events: Told| #[trigger]
        view.kernel.assigns(before, view.vars, key, value, vars, events, after)
            && host::all_handed_on(view.sink, events);
    guest::variables_are_set_whole(
        view.kernel,
        before,
        view.vars,
        key,
        value,
        vars,
        events,
        after,
    );
    assert(was_told(view, events));
}

/// A request of a plugin is sent whole, and its answer handed out whole.
pub proof fn plugins_send_whole_requests(
    view: HostView,
    before: StoreMut<'_>,
    url: i64,
    body: i64,
    place: i64,
    last: Option<AnswerView>,
    after: StoreMut<'_>,
)
    requires
        forall|request: (Seq<u8>, Seq<u8>), answer: AnswerView| #[trigger]
            (view.replies)(request, Ok(answer)) ==> answer.body.len() <= u64::MAX,
        view.requests(before, url, body, place, last, after),
    ensures
        exists|events: Told| #[trigger]
            guest::was_requested(
                view.kernel,
                before,
                view.last,
                url,
                body,
                view.replies,
                place,
                last,
                events,
                after,
            ) && was_told(view, events),
{
    let events = choose|events: Told| #[trigger]
        view.kernel.requests(
            before,
            view.last,
            url,
            body,
            view.replies,
            place,
            last,
            events,
            after,
        ) && host::all_handed_on(view.sink, events);
    guest::requests_are_sent_whole(
        view.kernel,
        before,
        view.last,
        url,
        body,
        view.replies,
        place,
        last,
        events,
        after,
    );
    assert(was_told(view, events));
}

/// The headers of the last answer to a request of a plugin are handed out whole.
pub proof fn plugins_get_whole_headers(
    view: HostView,
    before: StoreMut<'_>,
    place: i64,
    after: StoreMut<'_>,
)
    requires
        view.last matches Some(answer) ==> answer.headers.len() <= u64::MAX,
        view.hands_headers_out(before, place, after),
    ensures
        match view.last {
            Some(answer) => exists|events: Told| #[trigger]
                guest::was_handed_out(view.kernel, before, answer.headers, place, events, after)
                    && was_told(view, events),
            None => place == 0 && after == before,
        },
{
    let events = choose|events: Told| #[trigger]
        view.kernel.hands_headers_out(before, view.last, place, events, after)
            && host::all_handed_on(view.sink, events);
    guest::headers_are_handed_out_whole(view.kernel, before, view.last, place, events, after);
    assert(was_told(view, events));
}

/// Guest code logs a whole message by the kernel that the host keeps for the plugin.
pub proof fn hosts_log<T: GuestHost>(
    host: &T,
    store: &mut StoreMut<'_>,
    level: LogLevel,
    text: i64,
)
    requires
        call_ensures(T::log, (host, store, level, text), ()),
    ensures
        exists|events: Told| #[trigger]
            guest::was_logged(
                host.seen().kernel,
                *old(store),
                level,
                text,
                events,
                *final(store),
            ) && was_told(host.seen(), events),
{
    plugins_log_whole_messages(host.seen(), *old(store), level, text, *final(store));
}

/// Guest code gets the whole value of the configuration that the host keeps for the plugin.
pub proof fn hosts_look_the_configuration_up<T: GuestHost>(
    host: &T,
    store: &mut StoreMut<'_>,
    key: i64,
    result: i64,
)
    requires
        forall|name: Seq<char>|
            host.seen().config.contains_key(name) ==> (#[trigger] host.seen().config[name]).len()
                <= u64::MAX,
        call_ensures(T::config_get, (host, store, key), result),
    ensures
        exists|events: Told| #[trigger]
            guest::was_looked_up(
                host.seen().kernel,
                *old(store),
                value_in(host.seen().config),
                config_is_missing(),
                key,
                result,
                events,
                *final(store),
            ) && was_told(host.seen(), events),
{
    plugins_look_their_configuration_up(host.seen(), *old(store), key, result, *final(store));
}

/// Guest code gets the whole value of a variable that the host keeps for the plugin.
pub proof fn hosts_look_variables_up<T: GuestHost>(
    host: &T,
    store: &mut StoreMut<'_>,
    key: i64,
    result: i64,
)
    requires
        forall|name: Seq<char>|
            host.seen().vars.contains_key(name) ==> (#[trigger] host.seen().vars[name]).len()
                <= u64::MAX,
        call_ensures(T::var_get, (host, store, key), result),
    ensures
        exists|events: Told| #[trigger]
            guest::was_looked_up(
                host.seen().kernel,
                *old(store),
                value_in(host.seen().vars),
                var_is_missing(),
                key,
                result,
                events,
                *final(store),
            ) && was_told(host.seen(), events),
{
    plugins_look_their_variables_up(host.seen(), *old(store), key, result, *final(store));
}

/// Guest code sets a variable that the host keeps for the plugin, and nothing else changes.
pub proof fn hosts_set_variables<T: GuestHost>(
    host: &mut T,
    store: &mut StoreMut<'_>,
    key: i64,
    value: i64,
)
    requires
        call_ensures(T::var_set, (host, store, key, value), ()),
    ensures
        exists|events: Told| #[trigger]
            guest::was_assigned(
                old(host).seen().kernel,
                *old(store),
                old(host).seen().vars,
                key,
                value,
                final(host).seen().vars,
                events,
                *final(store),
            ) && was_told(old(host).seen(), events),
        final(host).seen().kernel == old(host).seen().kernel,
        final(host).seen().config == old(host).seen().config,
        final(host).seen().last == old(host).seen().last,
        final(host).seen().sink == old(host).seen().sink,
        final(host).seen().replies == old(host).seen().replies,
{
    plugins_set_their_variables(
        old(host).seen(),
        *old(store),
        key,
        value,
        final(host).seen().vars,
        *final(store),
    );
}

/// Guest code sends a whole request, the host keeps the answer for the plugin, and nothing else changes.
pub proof fn hosts_send_requests<T: GuestHost>(
    host: &mut T,
    store: &mut StoreMut<'_>,
    url: i64,
    body: i64,
    result: i64,
)
    requires
        forall|request: (Seq<u8>, Seq<u8>), answer: AnswerView| #[trigger]
            (old(host).seen().replies)(request, Ok(answer)) ==> answer.body.len() <= u64::MAX,
        call_ensures(T::http_request, (host, store, url, body), result),
    ensures
        exists|events: Told| #[trigger]
            guest::was_requested(
                old(host).seen().kernel,
                *old(store),
                old(host).seen().last,
                url,
                body,
                old(host).seen().replies,
                result,
                final(host).seen().last,
                events,
                *final(store),
            ) && was_told(old(host).seen(), events),
        final(host).seen().kernel == old(host).seen().kernel,
        final(host).seen().config == old(host).seen().config,
        final(host).seen().vars == old(host).seen().vars,
        final(host).seen().sink == old(host).seen().sink,
        final(host).seen().replies == old(host).seen().replies,
{
    plugins_send_whole_requests(
        old(host).seen(),
        *old(store),
        url,
        body,
        result,
        final(host).seen().last,
        *final(store),
    );
}

/// Guest code is told the status of the last answer that the host keeps for the plugin, and gets its whole
/// headers.
pub proof fn hosts_tell_of_the_last_answer<T: GuestHost>(
    host: &T,
    status: i32,
    store: &mut StoreMut<'_>,
    place: i64,
)
    requires
        host.seen().last matches Some(answer) ==> answer.headers.len() <= u64::MAX,
        call_ensures(T::http_status_code, (host,), status),
        call_ensures(T::http_headers, (host, store), place),
    ensures
        match host.seen().last {
            Some(answer) => status == answer.status && exists|events: Told| #[trigger]
                guest::was_handed_out(
                    host.seen().kernel,
                    *old(store),
                    answer.headers,
                    place,
                    events,
                    *final(store),
                ) && was_told(host.seen(), events),
            None => status == 0 && place == 0 && *final(store) == *old(store),
        },
{
    plugins_get_whole_headers(host.seen(), *old(store), place, *final(store));
}

} // verus!
