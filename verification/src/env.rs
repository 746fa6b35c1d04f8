//! The namespace of the kernel, as plugins see it: what the kernel exports, and the functions of the
//! host.
use crate::engine::{self, copy_extern, ExternShape};
use crate::errors::{KernelError, KernelErrorView};
use crate::host::{self, AnswerView, HostEvent, HostEventView, HttpAnswer, PluginMetadata, Told};
use crate::kernel::Kernel;
use crate::levels::{get_log_level, LogLevel};
use crate::names::NameMap;
use vstd::prelude::*;
use wasmer::{Extern, Function, FunctionEnv, FunctionEnvMut, Instance, StoreMut};
use wasmer_types::StoreId;

verus! {

/// The functions that the host offers to every plugin.
#[derive(Clone, Copy, PartialEq, Eq, Structural, Debug)]
pub enum HostFunction {
    Log(LogLevel),
    GetLogLevel,
    ConfigGet,
    VarGet,
    VarSet,
    HttpRequest,
    HttpStatusCode,
    HttpHeaders,
}

/// The function of the host that an extern stands for.
pub uninterp spec fn host_function(external: Extern) -> HostFunction;

/// The type of a function of the host.
pub open spec fn host_type(function: HostFunction) -> ExternShape {
    match function {
        HostFunction::Log(_) => ExternShape::Function {
            params: engine::longs(1),
            results: engine::no_result(),
        },
        HostFunction::GetLogLevel => ExternShape::Function {
            params: engine::longs(0),
            results: engine::long_result(),
        },
        HostFunction::ConfigGet => ExternShape::Function {
            params: engine::longs(1),
            results: engine::long_result(),
        },
        HostFunction::VarGet => ExternShape::Function {
            params: engine::longs(1),
            results: engine::long_result(),
        },
        HostFunction::VarSet => ExternShape::Function {
            params: engine::longs(2),
            results: engine::no_result(),
        },
        HostFunction::HttpRequest => ExternShape::Function {
            params: engine::longs(2),
            results: engine::long_result(),
        },
        HostFunction::HttpStatusCode => ExternShape::Function {
            params: engine::longs(0),
            results: engine::int_result(),
        },
        HostFunction::HttpHeaders => ExternShape::Function {
            params: engine::longs(0),
            results: engine::long_result(),
        },
    }
}

/// The function of the host that plugins know by a name.
pub open spec fn function_named(name: Seq<char>) -> Option<HostFunction> {
    if name == "log_warn"@ {
        Some(HostFunction::Log(LogLevel::Warn))
    } else if name == "log_info"@ {
        Some(HostFunction::Log(LogLevel::Info))
    } else if name == "log_debug"@ {
        Some(HostFunction::Log(LogLevel::Debug))
    } else if name == "log_error"@ {
        Some(HostFunction::Log(LogLevel::Error))
    } else if name == "log_trace"@ {
        Some(HostFunction::Log(LogLevel::Trace))
    } else if name == "get_log_level"@ {
        Some(HostFunction::GetLogLevel)
    } else if name == "config_get"@ {
        Some(HostFunction::ConfigGet)
    } else if name == "var_get"@ {
        Some(HostFunction::VarGet)
    } else if name == "var_set"@ {
        Some(HostFunction::VarSet)
    } else if name == "http_request"@ {
        Some(HostFunction::HttpRequest)
    } else if name == "http_status_code"@ {
        Some(HostFunction::HttpStatusCode)
    } else if name == "http_headers"@ {
        Some(HostFunction::HttpHeaders)
    } else {
        None
    }
}

/// Whether an extern belongs to a store and has the type of a function of the host.
pub open spec fn is_registered(
    store: StoreMut<'_>,
    external: Extern,
    function: HostFunction,
) -> bool {
    &&& engine::extern_store(external) == engine::store_id(store)
    &&& engine::extern_type(store, external) == host_type(function)
}

/// What the functions of the host work on, where they hand events on to, and what answers to HTTP
/// requests they may get.
#[verifier::ext_equal]
pub struct HostView {
    pub kernel: Kernel,
    pub config: Map<Seq<char>, Seq<u8>>,
    pub vars: Map<Seq<char>, Seq<u8>>,
    pub last: Option<AnswerView>,
    pub sink: spec_fn(HostEventView) -> bool,
    pub replies: spec_fn((Seq<u8>, Seq<u8>), Result<AnswerView, ()>) -> bool,
}

impl HostView {
    /// The same, with the handle on the kernel that the functions of the host have.
    pub open spec fn shared(self) -> HostView {
        HostView { kernel: self.kernel.copied(), ..self }
    }

    /// What logging does.
    pub open spec fn logs(
        self,
        before: StoreMut<'_>,
        level: LogLevel,
        text: i64,
        after: StoreMut<'_>,
    ) -> bool {
        exists|events: Told| #[trigger]
            self.kernel.logs(before, level, text, events, after) && host::all_handed_on(
                self.sink,
                events,
            )
    }

    /// What looking a configuration value up does.
    pub open spec fn looks_config_up(
        self,
        before: StoreMut<'_>,
        key: i64,
        place: i64,
        after: StoreMut<'_>,
    ) -> bool {
        exists|events: Told| #[trigger]
            self.kernel.looks_up(before, self.config, host::no_config(), key, place, events, after)
                && host::all_handed_on(self.sink, events)
    }

    /// What looking a variable up does.
    pub open spec fn looks_var_up(
        self,
        before: StoreMut<'_>,
        key: i64,
        place: i64,
        after: StoreMut<'_>,
    ) -> bool {
        exists|events: Told| #[trigger]
            self.kernel.looks_up(before, self.vars, host::no_var(), key, place, events, after)
                && host::all_handed_on(self.sink, events)
    }

    /// What setting a variable does.
    pub open spec fn assigns(
        self,
        before: StoreMut<'_>,
        key: i64,
        value: i64,
        vars: Map<Seq<char>, Seq<u8>>,
        after: StoreMut<'_>,
    ) -> bool {
        exists|events: Told| #[trigger]
            self.kernel.assigns(before, self.vars, key, value, vars, events, after)
                && host::all_handed_on(self.sink, events)
    }

    /// What making an HTTP request does.
    pub open spec fn requests(
        self,
        before: StoreMut<'_>,
        url: i64,
        body: i64,
        place: i64,
        last: Option<AnswerView>,
        after: StoreMut<'_>,
    ) -> bool {
        exists|events: Told| #[trigger]
            self.kernel.requests(
                before,
                self.last,
                url,
                body,
                self.replies,
                place,
                last,
                events,
                after,
            ) && host::all_handed_on(self.sink, events)
    }

    /// What handing the headers of the last answer out does.
    pub open spec fn hands_headers_out(
        self,
        before: StoreMut<'_>,
        place: i64,
        after: StoreMut<'_>,
    ) -> bool {
        exists|events: Told| #[trigger]
            self.kernel.hands_headers_out(before, self.last, place, events, after)
                && host::all_handed_on(self.sink, events)
    }
}

/// What guest code of one plugin can ask of the host.
pub trait GuestHost: Send + 'static {
    /// What the host works on.
    spec fn seen(&self) -> HostView;

    /// Whether every event can be handed on, and every request sent.
    spec fn is_open(&self) -> bool;

    /// Hands on a log message.
    fn log(&self, store: &mut StoreMut<'_>, level: LogLevel, text: i64)
        requires
            self.is_open(),
        ensures
            self.seen().logs(*old(store), level, text, *final(store)),
    ;

    /// Looks a configuration value up.
    fn config_get(&self, store: &mut StoreMut<'_>, key: i64) -> (result: i64)
        requires
            self.is_open(),
        ensures
            self.seen().looks_config_up(*old(store), key, result, *final(store)),
    ;

    /// Looks a variable up.
    fn var_get(&self, store: &mut StoreMut<'_>, key: i64) -> (result: i64)
        requires
            self.is_open(),
        ensures
            self.seen().looks_var_up(*old(store), key, result, *final(store)),
    ;

    /// Sets or removes a variable.
    fn var_set(&mut self, store: &mut StoreMut<'_>, key: i64, value: i64)
        requires
            old(self).is_open(),
        ensures
            old(self).seen().assigns(
                *old(store),
                key,
                value,
                final(self).seen().vars,
                *final(store),
            ),
            final(self).seen() == (HostView {
                vars: final(self).seen().vars,
                ..old(self).seen()
            }),
            final(self).is_open(),
    ;

    /// Makes an HTTP request.
    fn http_request(&mut self, store: &mut StoreMut<'_>, url: i64, body: i64) -> (result: i64)
        requires
            old(self).is_open(),
        ensures
            old(self).seen().requests(
                *old(store),
                url,
                body,
                result,
                final(self).seen().last,
                *final(store),
            ),
            final(self).seen() == (HostView {
                last: final(self).seen().last,
                ..old(self).seen()
            }),
            final(self).is_open(),
    ;

    /// The status code of the last HTTP request, or 0.
    fn http_status_code(&self) -> (result: i32)
        ensures
            result == match self.seen().last {
                Some(answer) => answer.status as i32,
                None => 0,
            },
    ;

    /// Hands the headers of the last HTTP response out.
    fn http_headers(&self, store: &mut StoreMut<'_>) -> (result: i64)
        requires
            self.is_open(),
        ensures
            self.seen().hands_headers_out(*old(store), result, *final(store)),
    ;
}

/// What the functions of the host work on for a plugin that has made no HTTP request yet.
pub open spec fn host_view<
    ID,
    L: Fn(&ID, HostEvent),
    S: Fn(Vec<u8>, Vec<u8>) -> Result<HttpAnswer, ()>,
>(
    kernel: &Kernel,
    metadata: PluginMetadata<ID>,
    emit: L,
    send: S,
) -> HostView {
    HostView {
        kernel: *kernel,
        config: host::config_bytes(metadata.config@),
        vars: metadata.vars@,
        last: None,
        sink: host::sink_of(emit, metadata.id),
        replies: host::answers_of(send),
    }
}

/// What the host keeps for a plugin.
struct HostState<ID, L, S> {
    kernel: Kernel,
    metadata: PluginMetadata<ID>,
    last: Option<HttpAnswer>,
    emit: L,
    send: S,
}

impl<ID, L: Fn(&ID, HostEvent), S> HostState<ID, L, S> {
    /// Hands events on, one after the other.
    fn tell(&self, mut events: Vec<HostEvent>)
        requires
            host::is_open(self.emit),
        ensures
            host::all_handed_on(
                host::sink_of(self.emit, self.metadata.id),
                host::told(events@),
            ),
    {
        let ghost all = events@;
        let ghost sink = host::sink_of(self.emit, self.metadata.id);
        let count = events.len();
        let mut i: usize = 0;
        while i < count
            invariant
                i <= count,
                count == all.len(),
                events@ == all.skip(i as int),
                host::is_open(self.emit),
                sink == host::sink_of(self.emit, self.metadata.id),
                forall|j: int| 0 <= j < i ==> sink(#[trigger] host::told(all)[j]),
            decreases count - i,
        {
            let event = events.remove(0);
            assert(event == all[i as int]);
            (self.emit)(&self.metadata.id, event);
            assert(sink(host::told(all)[i as int]));
            assert(events@ =~= all.skip(i + 1));
            i = i + 1;
        }
    }
}

impl<
    ID: Send + 'static,
    L: Fn(&ID, HostEvent) + Send + 'static,
    S: Fn(Vec<u8>, Vec<u8>) -> Result<HttpAnswer, ()> + Send + 'static,
> GuestHost for HostState<ID, L, S> {
    closed spec fn seen(&self) -> HostView {
        HostView {
            last: host::last_answer(self.last),
            ..host_view(&self.kernel, self.metadata, self.emit, self.send)
        }
    }

    closed spec fn is_open(&self) -> bool {
        host::is_open(self.emit) && host::is_sender(self.send)
    }

    fn log(&self, store: &mut StoreMut<'_>, level: LogLevel, text: i64) {
        let events = self.kernel.log(store, level, text);
        let ghost told = host::told(events@);
        self.tell(events);
        assert(self.seen().kernel.logs(*old(store), level, text, told, *store));
    }

    fn config_get(&self, store: &mut StoreMut<'_>, key: i64) -> (result: i64) {
        let (place, events) = self.kernel.config_get(store, &self.metadata, key);
        let ghost told = host::told(events@);
        self.tell(events);
        assert(self.seen().kernel.looks_up(
            *old(store),
            self.seen().config,
            host::no_config(),
            key,
            place,
            told,
            *store,
        ));
        place
    }

    fn var_get(&self, store: &mut StoreMut<'_>, key: i64) -> (result: i64) {
        let (place, events) = self.kernel.var_get(store, &self.metadata, key);
        let ghost told = host::told(events@);
        self.tell(events);
        assert(self.seen().kernel.looks_up(
            *old(store),
            self.seen().vars,
            host::no_var(),
            key,
            place,
            told,
            *store,
        ));
        place
    }

    fn var_set(&mut self, store: &mut StoreMut<'_>, key: i64, value: i64) {
        let events = self.kernel.var_set(store, &mut self.metadata, key, value);
        self.tell(events);
    }

    fn http_request(&mut self, store: &mut StoreMut<'_>, url: i64, body: i64) -> (result: i64) {
        let (place, events) = self.kernel.http_request(
            store,
            &mut self.last,
            url,
            body,
            &self.send,
        );
        self.tell(events);
        place
    }

    fn http_status_code(&self) -> (result: i32) {
        self.kernel.http_status_code(&self.last)
    }

    fn http_headers(&self, store: &mut StoreMut<'_>) -> (result: i64) {
        let (place, events) = self.kernel.http_headers(store, &self.last);
        let ghost told = host::told(events@);
        self.tell(events);
        assert(self.seen().kernel.hands_headers_out(
            *old(store),
            self.seen().last,
            place,
            told,
            *store,
        ));
        place
    }
}

/// What functions of the host share when they are made.
pub uninterp spec fn env_start(env: FunctionEnv<Box<dyn GuestHost>>) -> Box<dyn GuestHost>;

/// The store that functions of the host share something in.
pub uninterp spec fn env_store(env: FunctionEnv<Box<dyn GuestHost>>) -> StoreId;

/// What a function of the host shares with others.
pub uninterp spec fn function_env(external: Extern) -> FunctionEnv<Box<dyn GuestHost>>;

/// Puts what functions of the host share into a store.
///
/// Calls `FunctionEnv::new`, which keeps the value in the store, for all functions that are made
/// with the result.
#[verifier::external_body]
fn new_env(store: &mut StoreMut<'_>, host: Box<dyn GuestHost>) -> (result: FunctionEnv<
    Box<dyn GuestHost>,
>)
    requires
        host.is_open(),
    ensures
        env_start(result) == host,
        env_store(result) == engine::store_id(*old(store)),
        engine::extends(*old(store), *final(store)),
{
    FunctionEnv::new(store, host)
}

/// A function for guest code that says which levels are logged.
///
/// Calls `Function::new_typed`: the new function belongs to the store, is of the type of
/// [`get_log_level`], and calls it.
#[verifier::external_body]
fn register_get_log_level(store: &mut StoreMut<'_>) -> (result: Extern)
    ensures
        host_function(result) == HostFunction::GetLogLevel,
        is_registered(*final(store), result, HostFunction::GetLogLevel),
        engine::extends(*old(store), *final(store)),
{
    Extern::Function(Function::new_typed(store, get_log_level))
}

/// A function for guest code that logs at a level.
///
/// Calls `Function::new_typed_with_env`: the new function belongs to the store, is of the type of
/// the closure, and calls [`GuestHost::log`] on what `env` holds.
#[verifier::external_body]
fn register_log(
    store: &mut StoreMut<'_>,
    env: &FunctionEnv<Box<dyn GuestHost>>,
    level: LogLevel,
) -> (result: Extern)
    requires
        env_store(*env) == engine::store_id(*old(store)),
    ensures
        host_function(result) == HostFunction::Log(level),
        function_env(result) == *env,
        is_registered(*final(store), result, HostFunction::Log(level)),
        engine::extends(*old(store), *final(store)),
{
    Extern::Function(Function::new_typed_with_env(
        store,
        env,
        move |mut env: FunctionEnvMut<'_, Box<dyn GuestHost>>, text: i64| {
            let (host, mut store) = env.data_and_store_mut();
            host.log(&mut store, level, text)
        },
    ))
}

/// A function for guest code that looks a configuration value up.
///
/// Calls `Function::new_typed_with_env`: the new function belongs to the store, is of the type of
/// the closure, and calls [`GuestHost::config_get`] on what `env` holds.
#[verifier::external_body]
fn register_config_get(
    store: &mut StoreMut<'_>,
    env: &FunctionEnv<Box<dyn GuestHost>>,
) -> (result: Extern)
    requires
        env_store(*env) == engine::store_id(*old(store)),
    ensures
        host_function(result) == HostFunction::ConfigGet,
        function_env(result) == *env,
        is_registered(*final(store), result, HostFunction::ConfigGet),
        engine::extends(*old(store), *final(store)),
{
    Extern::Function(Function::new_typed_with_env(
        store,
        env,
        |mut env: FunctionEnvMut<'_, Box<dyn GuestHost>>, key: i64| {
            let (host, mut store) = env.data_and_store_mut();
            host.config_get(&mut store, key)
        },
    ))
}

/// A function for guest code that looks a variable up.
///
/// Calls `Function::new_typed_with_env`: the new function belongs to the store, is of the type of
/// the closure, and calls [`GuestHost::var_get`] on what `env` holds.
#[verifier::external_body]
fn register_var_get(
    store: &mut StoreMut<'_>,
    env: &FunctionEnv<Box<dyn GuestHost>>,
) -> (result: Extern)
    requires
        env_store(*env) == engine::store_id(*old(store)),
    ensures
        host_function(result) == HostFunction::VarGet,
        function_env(result) == *env,
        is_registered(*final(store), result, HostFunction::VarGet),
        engine::extends(*old(store), *final(store)),
{
    Extern::Function(Function::new_typed_with_env(
        store,
        env,
        |mut env: FunctionEnvMut<'_, Box<dyn GuestHost>>, key: i64| {
            let (host, mut store) = env.data_and_store_mut();
            host.var_get(&mut store, key)
        },
    ))
}

/// A function for guest code that sets a variable.
///
/// Calls `Function::new_typed_with_env`: the new function belongs to the store, is of the type of
/// the closure, and calls [`GuestHost::var_set`] on what `env` holds.
#[verifier::external_body]
fn register_var_set(
    store: &mut StoreMut<'_>,
    env: &FunctionEnv<Box<dyn GuestHost>>,
) -> (result: Extern)
    requires
        env_store(*env) == engine::store_id(*old(store)),
    ensures
        host_function(result) == HostFunction::VarSet,
        function_env(result) == *env,
        is_registered(*final(store), result, HostFunction::VarSet),
        engine::extends(*old(store), *final(store)),
{
    Extern::Function(Function::new_typed_with_env(
        store,
        env,
        |mut env: FunctionEnvMut<'_, Box<dyn GuestHost>>, key: i64, value: i64| {
            let (host, mut store) = env.data_and_store_mut();
            host.var_set(&mut store, key, value)
        },
    ))
}

/// A function for guest code that makes an HTTP request.
///
/// Calls `Function::new_typed_with_env`: the new function belongs to the store, is of the type of
/// the closure, and calls [`GuestHost::http_request`] on what `env` holds.
#[verifier::external_body]
fn register_http_request(
    store: &mut StoreMut<'_>,
    env: &FunctionEnv<Box<dyn GuestHost>>,
) -> (result: Extern)
    requires
        env_store(*env) == engine::store_id(*old(store)),
    ensures
        host_function(result) == HostFunction::HttpRequest,
        function_env(result) == *env,
        is_registered(*final(store), result, HostFunction::HttpRequest),
        engine::extends(*old(store), *final(store)),
{
    Extern::Function(Function::new_typed_with_env(
        store,
        env,
        |mut env: FunctionEnvMut<'_, Box<dyn GuestHost>>, url: i64, body: i64| {
            let (host, mut store) = env.data_and_store_mut();
            host.http_request(&mut store, url, body)
        },
    ))
}

/// A function for guest code that asks for the status of an HTTP request.
///
/// Calls `Function::new_typed_with_env`: the new function belongs to the store, is of the type of
/// the closure, and calls [`GuestHost::http_status_code`] on what `env` holds.
#[verifier::external_body]
fn register_http_status_code(
    store: &mut StoreMut<'_>,
    env: &FunctionEnv<Box<dyn GuestHost>>,
) -> (result: Extern)
    requires
        env_store(*env) == engine::store_id(*old(store)),
    ensures
        host_function(result) == HostFunction::HttpStatusCode,
        function_env(result) == *env,
        is_registered(*final(store), result, HostFunction::HttpStatusCode),
        engine::extends(*old(store), *final(store)),
{
    Extern::Function(Function::new_typed_with_env(
        store,
        env,
        |env: FunctionEnvMut<'_, Box<dyn GuestHost>>| {
            env.data().http_status_code()
        },
    ))
}

/// A function for guest code that asks for the headers of an HTTP response.
///
/// Calls `Function::new_typed_with_env`: the new function belongs to the store, is of the type of
/// the closure, and calls [`GuestHost::http_headers`] on what `env` holds.
#[verifier::external_body]
fn register_http_headers(
    store: &mut StoreMut<'_>,
    env: &FunctionEnv<Box<dyn GuestHost>>,
) -> (result: Extern)
    requires
        env_store(*env) == engine::store_id(*old(store)),
    ensures
        host_function(result) == HostFunction::HttpHeaders,
        function_env(result) == *env,
        is_registered(*final(store), result, HostFunction::HttpHeaders),
        engine::extends(*old(store), *final(store)),
{
    Extern::Function(Function::new_typed_with_env(
        store,
        env,
        |mut env: FunctionEnvMut<'_, Box<dyn GuestHost>>| {
            let (host, mut store) = env.data_and_store_mut();
            host.http_headers(&mut store)
        },
    ))
}

/// Whether an extern is a function of the host that shares something with others. One that says
/// which levels are logged shares nothing.
pub open spec fn is_function_of(
    store: StoreMut<'_>,
    env: FunctionEnv<Box<dyn GuestHost>>,
    external: Extern,
    function: HostFunction,
) -> bool {
    &&& host_function(external) == function
    &&& function != HostFunction::GetLogLevel ==> function_env(external) == env
    &&& is_registered(store, external, function)
}

/// Whether a map holds what plugins are offered under a name: first what the kernel exports, then
/// what the host adds, and nothing else.
pub open spec fn is_offered(
    store: StoreMut<'_>,
    kernel: Instance,
    env: FunctionEnv<Box<dyn GuestHost>>,
    offered: Map<Seq<char>, Extern>,
    name: Seq<char>,
) -> bool {
    if engine::instance_exports(kernel).contains_key(name) {
        &&& offered.contains_key(name)
        &&& offered[name] == engine::instance_exports(kernel)[name]
        &&& engine::extern_store(offered[name]) == engine::store_id(store)
    } else {
        match function_named(name) {
            Some(function) => {
                &&& offered.contains_key(name)
                &&& is_function_of(store, env, offered[name], function)
            },
            None => !offered.contains_key(name),
        }
    }
}

/// Whether a map holds what plugins are offered, with functions that work on `view` at first.
pub open spec fn are_offered(
    store: StoreMut<'_>,
    view: HostView,
    offered: Map<Seq<char>, Extern>,
) -> bool {
    exists|env: FunctionEnv<Box<dyn GuestHost>>| #[trigger]
        starts_with(env, view) && forall|name: Seq<char>| #[trigger]
            is_offered(store, view.kernel.instance(), env, offered, name)
}

/// Whether functions of the host that share something work on `view` at first.
pub open spec fn starts_with(env: FunctionEnv<Box<dyn GuestHost>>, view: HostView) -> bool {
    env_start(env).seen() == view.shared()
}

/// Whether a map holds the functions of the host, and nothing else.
spec fn holds_functions(
    store: StoreMut<'_>,
    env: FunctionEnv<Box<dyn GuestHost>>,
    offered: Map<Seq<char>, Extern>,
) -> bool {
    forall|name: Seq<char>|
        match #[trigger] function_named(name) {
            Some(function) => {
                &&& offered.contains_key(name)
                &&& is_function_of(store, env, offered[name], function)
            },
            None => !offered.contains_key(name),
        }
}

/// The functions of the host, by their names.
fn host_functions(store: &mut StoreMut<'_>, env: &FunctionEnv<Box<dyn GuestHost>>) -> (result:
    NameMap<Extern>)
    requires
        env_store(*env) == engine::store_id(*old(store)),
    ensures
        engine::extends(*old(store), *final(store)),
        holds_functions(*final(store), *env, result@),
{
    let log_warn = register_log(store, env, LogLevel::Warn);
    let log_info = register_log(store, env, LogLevel::Info);
    let log_debug = register_log(store, env, LogLevel::Debug);
    let log_error = register_log(store, env, LogLevel::Error);
    let log_trace = register_log(store, env, LogLevel::Trace);
    let get_log_level = register_get_log_level(store);
    let config_get = register_config_get(store, env);
    let var_get = register_var_get(store, env);
    let var_set = register_var_set(store, env);
    let http_request = register_http_request(store, env);
    let http_status_code = register_http_status_code(store, env);
    let http_headers = register_http_headers(store, env);
    let mut offered: NameMap<Extern> = NameMap::new();
    offered.insert("log_warn".to_owned(), log_warn);
    offered.insert("log_info".to_owned(), log_info);
    offered.insert("log_debug".to_owned(), log_debug);
    offered.insert("log_error".to_owned(), log_error);
    offered.insert("log_trace".to_owned(), log_trace);
    offered.insert("get_log_level".to_owned(), get_log_level);
    offered.insert("config_get".to_owned(), config_get);
    offered.insert("var_get".to_owned(), var_get);
    offered.insert("var_set".to_owned(), var_set);
    offered.insert("http_request".to_owned(), http_request);
    offered.insert("http_status_code".to_owned(), http_status_code);
    offered.insert("http_headers".to_owned(), http_headers);
    proof {
        reveal_strlit("log_warn");
        reveal_strlit("log_info");
        reveal_strlit("log_debug");
        reveal_strlit("log_error");
        reveal_strlit("log_trace");
        reveal_strlit("get_log_level");
        reveal_strlit("config_get");
        reveal_strlit("var_get");
        reveal_strlit("var_set");
        reveal_strlit("http_request");
        reveal_strlit("http_status_code");
        reveal_strlit("http_headers");
        assert("log_warn"@.len() == 8);
        assert("log_info"@.len() == 8);
        assert("log_debug"@.len() == 9);
        assert("log_error"@.len() == 9);
        assert("log_trace"@.len() == 9);
        assert("get_log_level"@.len() == 13);
        assert("config_get"@.len() == 10);
        assert("var_get"@.len() == 7);
        assert("var_set"@.len() == 7);
        assert("http_request"@.len() == 12);
        assert("http_status_code"@.len() == 16);
        assert("http_headers"@.len() == 12);
        assert("log_warn"@[4] != "log_info"@[4]);
        assert("log_debug"@[4] != "log_error"@[4]);
        assert("log_debug"@[4] != "log_trace"@[4]);
        assert("log_error"@[4] != "log_trace"@[4]);
        assert("var_get"@[4] != "var_set"@[4]);
        assert("http_request"@[5] != "http_headers"@[5]);
    }
    offered
}

/// What plugins are offered in the namespace of the kernel: what the kernel exports, and the
/// functions of the host.
pub fn host_env<
    ID: Send + 'static,
    L: Fn(&ID, HostEvent) + Send + 'static,
    S: Fn(Vec<u8>, Vec<u8>) -> Result<HttpAnswer, ()> + Send + 'static,
>(
    store: &mut StoreMut<'_>,
    kernel: &Kernel,
    metadata: PluginMetadata<ID>,
    emit: L,
    send: S,
) -> (result: Result<NameMap<Extern>, KernelError>)
    requires
        kernel.runs_in(*old(store)),
        host::is_open(emit),
        host::is_sender(send),
    ensures
        engine::extends(*old(store), *final(store)),
        match engine::memory_export(kernel.instance(), "memory"@) {
            Ok(_) => result matches Ok(offered) && are_offered(
                *final(store),
                host_view(kernel, metadata, emit, send),
                offered@,
            ),
            Err(problem) => {
                &&& result matches Err(err) && err@ == KernelErrorView::Export(problem)
                &&& *final(store) == *old(store)
            },
        },
{
    if let Err(err) = kernel.memory() {
        return Err(err);
    }
    let ghost view = host_view(kernel, metadata, emit, send);
    let state = HostState { kernel: kernel.duplicate(), metadata, last: None, emit, send };
    let env = new_env(store, Box::new(state));
    assert(env_start(env).seen() =~= view.shared());
    assert(starts_with(env, view));
    let mut offered = host_functions(store, &env);
    let ghost functions = offered@;
    let exports = kernel.exports();
    let count = exports.len();
    for i in 0..count
        invariant
            count == exports@.len(),
            forall|j: int|
                0 <= j < i ==> {
                    &&& offered@.contains_key(#[trigger] exports@[j].0@)
                    &&& offered@[exports@[j].0@] == engine::instance_exports(
                        kernel.instance(),
                    )[exports@[j].0@]
                },
            forall|j: int|
                0 <= j < exports@.len() ==> {
                    &&& engine::instance_exports(kernel.instance()).contains_key(
                        #[trigger] exports@[j].0@,
                    )
                    &&& engine::instance_exports(kernel.instance())[exports@[j].0@]
                        == exports@[j].1
                },
            forall|name: Seq<char>|
                !engine::instance_exports(kernel.instance()).contains_key(name) ==> {
                    &&& functions.contains_key(name) == #[trigger] offered@.contains_key(name)
                    &&& functions.contains_key(name) ==> functions[name] == offered@[name]
                },
    {
        let ghost before = offered@;
        offered.insert(exports[i].0.clone(), copy_extern(&exports[i].1));
        proof {
            let added = exports@[i as int].0@;
            assert(engine::instance_exports(kernel.instance()).contains_key(added));
            assert(offered@ == before.insert(added, exports@[i as int].1));
            assert forall|name: Seq<char>|
                !engine::instance_exports(kernel.instance()).contains_key(name) implies {
                &&& functions.contains_key(name) == #[trigger] offered@.contains_key(name)
                &&& functions.contains_key(name) ==> functions[name] == offered@[name]
            } by {
                assert(before.contains_key(name) == offered@.contains_key(name));
            }
        }
    }
    proof {
        assert forall|name: Seq<char>| #[trigger]
            is_offered(*store, kernel.instance(), env, offered@, name) by {
            assert(function_named(name) is Some || function_named(name) is None);
            if engine::instance_exports(kernel.instance()).contains_key(name) {
                let i = choose|i: int|
                    0 <= i < exports@.len() && #[trigger] exports@[i].0@ == name;
                assert(engine::extern_store(exports@[i].1) == engine::store_id(*store));
            } else {
                assert(offered@.contains_key(name) == functions.contains_key(name));
            }
        }
    }
    Ok(offered)
}

} // verus!
