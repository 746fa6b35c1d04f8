//! What the host offers to guest code besides the kernel: log messages, configuration, variables and
//! HTTP.
use crate::errors::{self, KernelError, KernelErrorView};
use crate::kernel::{self, Kernel, MemoryHandle};
use crate::levels::LogLevel;
use crate::names::NameMap;
use crate::vars::{InMemoryVars, PluginVars};
use vstd::prelude::*;
use vstd::slice::*;
use vstd::string::*;
use vstd::utf8::*;
use wasmer::StoreMut;

verus! {

/// What tells one plugin from another in log messages.
pub trait PluginIdentifier: Send + Sync + 'static {

}

impl<T: Send + Sync + 'static> PluginIdentifier for T {

}

/// What the host knows of a plugin.
#[derive(Debug)]
pub struct PluginMetadata<ID> {
    pub id: ID,
    pub config: NameMap<String>,
    pub vars: InMemoryVars,
}

/// Something that the embedding program is told of.
#[derive(Debug)]
pub enum HostEvent {
    /// A message of guest code.
    Message(LogLevel, String),
    /// Guest code named a place where there is no block.
    HandleNotFound(i64),
    /// A block could not be read, or not be made.
    MemoryAccess(KernelError),
    /// A block could not be given back.
    NotFreed(KernelError),
    /// Guest code asked for a configuration value that is not there.
    ConfigNotFound(String),
    /// Guest code asked for a variable that is not there.
    VarNotFound(String),
    /// A request that guest code asked for got no answer.
    RequestFailed,
}

/// A [`HostEvent`] up to the identity of the strings in it.
pub enum HostEventView {
    Message(LogLevel, Seq<char>),
    HandleNotFound(i64),
    MemoryAccess(KernelErrorView),
    NotFreed(KernelErrorView),
    ConfigNotFound(Seq<char>),
    VarNotFound(Seq<char>),
    RequestFailed,
}

impl View for HostEvent {
    type V = HostEventView;

    open spec fn view(&self) -> HostEventView {
        match self {
            HostEvent::Message(level, text) => HostEventView::Message(*level, text@),
            HostEvent::HandleNotFound(offset) => HostEventView::HandleNotFound(*offset),
            HostEvent::MemoryAccess(err) => HostEventView::MemoryAccess(err@),
            HostEvent::NotFreed(err) => HostEventView::NotFreed(err@),
            HostEvent::ConfigNotFound(key) => HostEventView::ConfigNotFound(key@),
            HostEvent::VarNotFound(key) => HostEventView::VarNotFound(key@),
            HostEvent::RequestFailed => HostEventView::RequestFailed,
        }
    }
}

/// The level that an event is logged at.
pub open spec fn event_level(event: HostEventView) -> LogLevel {
    match event {
        HostEventView::Message(level, _) => level,
        HostEventView::HandleNotFound(_) => LogLevel::Warn,
        HostEventView::MemoryAccess(_) => LogLevel::Error,
        HostEventView::NotFreed(_) => LogLevel::Error,
        HostEventView::ConfigNotFound(_) => LogLevel::Warn,
        HostEventView::VarNotFound(_) => LogLevel::Warn,
        HostEventView::RequestFailed => LogLevel::Error,
    }
}

impl HostEvent {
    /// The level that the event is logged at.
    pub fn level(&self) -> (result: LogLevel)
        ensures
            result == event_level(self@),
    {
        match self {
            HostEvent::Message(level, _) => *level,
            HostEvent::HandleNotFound(_) => LogLevel::Warn,
            HostEvent::MemoryAccess(_) => LogLevel::Error,
            HostEvent::NotFreed(_) => LogLevel::Error,
            HostEvent::ConfigNotFound(_) => LogLevel::Warn,
            HostEvent::VarNotFound(_) => LogLevel::Warn,
            HostEvent::RequestFailed => LogLevel::Error,
        }
    }
}

/// What is told of, in its order.
pub type Told = Seq<HostEventView>;

/// Events as plain values.
pub open spec fn told(events: Seq<HostEvent>) -> Told {
    events.map_values(|event: HostEvent| event@)
}

/// Nothing to tell of.
pub open spec fn nothing() -> Told {
    Seq::empty()
}

/// One thing to tell of, and then others.
pub open spec fn first(event: HostEventView, rest: Told) -> Told {
    seq![event] + rest
}

/// One thing to tell of.
pub open spec fn only(event: HostEventView) -> Told {
    seq![event]
}

/// The answer to an HTTP request: its status, its headers as the embedding program encodes them, and
/// its body.
#[derive(Debug)]
pub struct HttpAnswer {
    pub status: u16,
    pub headers: Vec<u8>,
    pub body: Vec<u8>,
}

/// An [`HttpAnswer`] as plain values.
pub struct AnswerView {
    pub status: u16,
    pub headers: Seq<u8>,
    pub body: Seq<u8>,
}

impl View for HttpAnswer {
    type V = AnswerView;

    open spec fn view(&self) -> AnswerView {
        AnswerView { status: self.status, headers: self.headers@, body: self.body@ }
    }
}

/// An answer as plain values, if there is one.
pub open spec fn last_answer(last: Option<HttpAnswer>) -> Option<AnswerView> {
    match last {
        Some(answer) => Some(answer@),
        None => None,
    }
}

/// What came back of a request, as plain values.
pub open spec fn reply(answer: Result<HttpAnswer, ()>) -> Result<AnswerView, ()> {
    match answer {
        Ok(answer) => Ok(answer@),
        Err(_) => Err(()),
    }
}

/// What a guest function gets as the place of a block: nowhere where it could not be made.
pub open spec fn place_of(kept: Result<MemoryHandle, KernelErrorView>) -> i64 {
    match kept {
        Ok(handle) => handle.offset as i64,
        Err(_) => 0,
    }
}

/// Whether a sink takes every event.
pub open spec fn is_open<ID, L: Fn(&ID, HostEvent)>(emit: L) -> bool {
    forall|id: &ID, event: HostEvent| #[trigger] call_requires(emit, (id, event))
}

/// Whether an event has been handed to a sink.
pub open spec fn hands_on<ID, L: Fn(&ID, HostEvent)>(
    emit: L,
    id: &ID,
    event: HostEventView,
) -> bool {
    exists|sent: HostEvent| sent@ == event && #[trigger] call_ensures(emit, (id, sent), ())
}

/// Where a sink hands events of a plugin on to.
pub open spec fn sink_of<ID, L: Fn(&ID, HostEvent)>(emit: L, id: ID) -> spec_fn(
    HostEventView,
) -> bool {
    |event: HostEventView| hands_on(emit, &id, event)
}

/// Whether all events have been handed on.
pub open spec fn all_handed_on(sink: spec_fn(HostEventView) -> bool, events: Told) -> bool {
    forall|i: int| 0 <= i < events.len() ==> sink(#[trigger] events[i])
}

/// Whether every request can be sent.
pub open spec fn is_sender<S: Fn(Vec<u8>, Vec<u8>) -> Result<HttpAnswer, ()>>(send: S) -> bool {
    forall|request: Vec<u8>, body: Vec<u8>| #[trigger] call_requires(send, (request, body))
}

/// Whether sending a request with a body may give an answer.
pub open spec fn may_answer<S: Fn(Vec<u8>, Vec<u8>) -> Result<HttpAnswer, ()>>(
    send: S,
    request: (Seq<u8>, Seq<u8>),
    answer: Result<AnswerView, ()>,
) -> bool {
    exists|asked: Vec<u8>, body: Vec<u8>, got: Result<HttpAnswer, ()>|
        asked@ == request.0 && body@ == request.1 && reply(got) == answer
            && #[trigger] call_ensures(send, (asked, body), got)
}

/// What answers a sender may give.
pub open spec fn answers_of<S: Fn(Vec<u8>, Vec<u8>) -> Result<HttpAnswer, ()>>(send: S) -> spec_fn(
    (Seq<u8>, Seq<u8>),
    Result<AnswerView, ()>,
) -> bool {
    |request: (Seq<u8>, Seq<u8>), answer: Result<AnswerView, ()>| may_answer(send, request, answer)
}

/// The values of a configuration as bytes.
pub open spec fn config_bytes(config: Map<Seq<char>, String>) -> Map<Seq<char>, Seq<u8>> {
    config.map_values(|value: String| encode_utf8(value@))
}

/// What is told of a configuration value that is not there.
pub open spec fn no_config() -> spec_fn(Seq<char>) -> HostEventView {
    |key: Seq<char>| HostEventView::ConfigNotFound(key)
}

/// What is told of a variable that is not there.
pub open spec fn no_var() -> spec_fn(Seq<char>) -> HostEventView {
    |key: Seq<char>| HostEventView::VarNotFound(key)
}

impl Kernel {
    /// What giving a block back does, whether or not that succeeds.
    pub open spec fn releases(
        self,
        before: StoreMut<'_>,
        handle: MemoryHandle,
        after: StoreMut<'_>,
    ) -> bool {
        exists|outcome: Result<(), KernelErrorView>| #[trigger]
            self.frees(before, handle, outcome, after)
    }

    /// What giving a block back does, and what is told of it.
    pub open spec fn gives_back(
        self,
        before: StoreMut<'_>,
        handle: MemoryHandle,
        events: Told,
        after: StoreMut<'_>,
    ) -> bool {
        exists|outcome: Result<(), KernelErrorView>| #[trigger]
            self.frees(before, handle, outcome, after) && events == match outcome {
                Ok(_) => nothing(),
                Err(err) => only(HostEventView::NotFreed(err)),
            }
    }

    /// What giving a block back that could not be read does.
    pub open spec fn gives_up(
        self,
        before: StoreMut<'_>,
        handle: MemoryHandle,
        err: KernelErrorView,
        events: Told,
        after: StoreMut<'_>,
    ) -> bool {
        exists|rest: Told| #[trigger]
            self.gives_back(before, handle, rest, after) && events == first(
                HostEventView::MemoryAccess(err),
                rest,
            )
    }

    /// What taking over the text in a block does: it is read, and then the block is given back,
    /// whether or not it held a text.
    pub open spec fn takes_text(
        self,
        before: StoreMut<'_>,
        offset: i64,
        text: Option<Seq<char>>,
        events: Told,
        after: StoreMut<'_>,
    ) -> bool {
        exists|found: Option<MemoryHandle>, between: StoreMut<'_>| #[trigger]
            self.finds(before, offset as u64, found, between) && match found {
                None => {
                    &&& text is None
                    &&& events == only(HostEventView::HandleNotFound(offset))
                    &&& after == between
                },
                Some(handle) => match self.text_at(between, handle) {
                    Ok(content) => text == Some(content) && self.gives_back(
                        between,
                        handle,
                        events,
                        after,
                    ),
                    Err(err) => text is None && self.gives_up(between, handle, err, events, after),
                },
            }
    }

    /// What taking over the bytes of a block does: they are read, and then the block is given back,
    /// whether or not they could be read.
    pub open spec fn takes_bytes(
        self,
        before: StoreMut<'_>,
        offset: i64,
        bytes: Option<Seq<u8>>,
        events: Told,
        after: StoreMut<'_>,
    ) -> bool {
        exists|found: Option<MemoryHandle>, between: StoreMut<'_>| #[trigger]
            self.finds(before, offset as u64, found, between) && match found {
                None => {
                    &&& bytes is None
                    &&& events == only(HostEventView::HandleNotFound(offset))
                    &&& after == between
                },
                Some(handle) => match self.bytes_at(between, handle) {
                    Ok(content) => bytes == Some(content) && self.gives_back(
                        between,
                        handle,
                        events,
                        after,
                    ),
                    Err(err) => bytes is None && self.gives_up(between, handle, err, events, after),
                },
            }
    }

    /// What putting bytes into a new block for guest code does.
    pub open spec fn hands_out(
        self,
        before: StoreMut<'_>,
        data: Seq<u8>,
        place: i64,
        events: Told,
        after: StoreMut<'_>,
    ) -> bool {
        exists|kept: Result<MemoryHandle, KernelErrorView>| #[trigger]
            self.keeps(before, Ok(data), kept, after) && place == place_of(kept) && events
                == match kept {
                Ok(_) => nothing(),
                Err(err) => only(HostEventView::MemoryAccess(err)),
            }
    }

    /// What answering a question of guest code does: where there is something to say, it is put into
    /// a new block.
    pub open spec fn answers(
        self,
        before: StoreMut<'_>,
        value: Option<Seq<u8>>,
        missing: HostEventView,
        place: i64,
        events: Told,
        after: StoreMut<'_>,
    ) -> bool {
        match value {
            None => place == 0 && events == only(missing) && after == before,
            Some(data) => self.hands_out(before, data, place, events, after),
        }
    }

    /// What [`Kernel::log`] does: the text is read, there is one message, and the block is given
    /// back. Where the block holds no text, that is told instead, and the block is kept.
    pub open spec fn logs(
        self,
        before: StoreMut<'_>,
        level: LogLevel,
        offset: i64,
        events: Told,
        after: StoreMut<'_>,
    ) -> bool {
        exists|found: Option<MemoryHandle>, between: StoreMut<'_>| #[trigger]
            self.finds(before, offset as u64, found, between) && match found {
                None => events == nothing() && after == between,
                Some(handle) => match self.text_at(between, handle) {
                    Err(err) => {
                        &&& events == only(HostEventView::MemoryAccess(err))
                        &&& after == between
                    },
                    Ok(content) => exists|rest: Told| #[trigger]
                        self.gives_back(between, handle, rest, after) && events == first(
                            HostEventView::Message(level, content),
                            rest,
                        ),
                },
            }
    }

    /// What [`Kernel::config_get`] and [`Kernel::var_get`] do: the key is taken over, and its value
    /// handed out.
    pub open spec fn looks_up(
        self,
        before: StoreMut<'_>,
        values: Map<Seq<char>, Seq<u8>>,
        missing: spec_fn(Seq<char>) -> HostEventView,
        key: i64,
        place: i64,
        events: Told,
        after: StoreMut<'_>,
    ) -> bool {
        exists|text: Option<Seq<char>>, taking: Told, between: StoreMut<'_>| #[trigger]
            self.takes_text(before, key, text, taking, between) && match text {
                None => place == 0 && events == taking && after == between,
                Some(name) => exists|rest: Told| #[trigger]
                    self.answers(between, values.get(name), missing(name), place, rest, after)
                        && events == taking + rest,
            }
    }

    /// What [`Kernel::var_set`] does. Both blocks have to be there, and the key has to be a text. Else
    /// nothing is set, and the blocks that are there are given back.
    pub open spec fn assigns(
        self,
        before: StoreMut<'_>,
        old_vars: Map<Seq<char>, Seq<u8>>,
        key: i64,
        value: i64,
        new_vars: Map<Seq<char>, Seq<u8>>,
        events: Told,
        after: StoreMut<'_>,
    ) -> bool {
        exists|found: Option<MemoryHandle>, between: StoreMut<'_>| #[trigger]
            self.finds(before, key as u64, found, between) && match found {
                None => new_vars == old_vars && exists|rest: Told| #[trigger]
                    self.discards(between, value, rest, after) && events == first(
                        HostEventView::HandleNotFound(key),
                        rest,
                    ),
                Some(handle) => self.assigns_to(
                    between,
                    old_vars,
                    handle,
                    value,
                    new_vars,
                    events,
                    after,
                ),
            }
    }

    /// What giving the block at an offset back does, if there is one.
    pub open spec fn discards(
        self,
        before: StoreMut<'_>,
        offset: i64,
        events: Told,
        after: StoreMut<'_>,
    ) -> bool {
        exists|found: Option<MemoryHandle>, between: StoreMut<'_>| #[trigger]
            self.finds(before, offset as u64, found, between) && match found {
                None => {
                    &&& events == only(HostEventView::HandleNotFound(offset))
                    &&& after == between
                },
                Some(handle) => self.gives_back(between, handle, events, after),
            }
    }

    /// What [`Kernel::var_set`] does once the block of the key is found.
    pub open spec fn assigns_to(
        self,
        before: StoreMut<'_>,
        old_vars: Map<Seq<char>, Seq<u8>>,
        key: MemoryHandle,
        value: i64,
        new_vars: Map<Seq<char>, Seq<u8>>,
        events: Told,
        after: StoreMut<'_>,
    ) -> bool {
        exists|found: Option<MemoryHandle>, between: StoreMut<'_>| #[trigger]
            self.finds(before, value as u64, found, between) && match found {
                None => new_vars == old_vars && exists|rest: Told| #[trigger]
                    self.gives_back(between, key, rest, after) && events == first(
                        HostEventView::HandleNotFound(value),
                        rest,
                    ),
                Some(_) => match self.text_at(between, key) {
                    Err(err) => new_vars == old_vars && self.drops_both(
                        between,
                        key,
                        err,
                        value,
                        events,
                        after,
                    ),
                    Ok(name) => self.assigns_name(
                        between,
                        old_vars,
                        key,
                        name,
                        value,
                        new_vars,
                        events,
                        after,
                    ),
                },
            }
    }

    /// What [`Kernel::var_set`] does where the block of the key cannot be read. The block of the value
    /// is looked for again once that of the key is given back, as both may be the same.
    pub open spec fn drops_both(
        self,
        before: StoreMut<'_>,
        key: MemoryHandle,
        err: KernelErrorView,
        value: i64,
        events: Told,
        after: StoreMut<'_>,
    ) -> bool {
        exists|dropping: Told, between: StoreMut<'_>| #[trigger]
            self.gives_up(before, key, err, dropping, between) && exists|rest: Told| #[trigger]
                self.discards(between, value, rest, after) && events == dropping + rest
    }

    /// What [`Kernel::var_set`] does once the text of the key is read.
    pub open spec fn assigns_name(
        self,
        before: StoreMut<'_>,
        old_vars: Map<Seq<char>, Seq<u8>>,
        key: MemoryHandle,
        name: Seq<char>,
        value: i64,
        new_vars: Map<Seq<char>, Seq<u8>>,
        events: Told,
        after: StoreMut<'_>,
    ) -> bool {
        exists|giving: Told, between: StoreMut<'_>| #[trigger]
            self.gives_back(before, key, giving, between) && exists|rest: Told| #[trigger]
                self.assigns_value(between, old_vars, name, value, new_vars, rest, after) && events
                    == giving + rest
    }

    /// What [`Kernel::var_set`] does once the key is known: a value at offset 0 removes the key; any
    /// other is read and set, and its block given back, whether or not it could be read.
    pub open spec fn assigns_value(
        self,
        before: StoreMut<'_>,
        old_vars: Map<Seq<char>, Seq<u8>>,
        name: Seq<char>,
        value: i64,
        new_vars: Map<Seq<char>, Seq<u8>>,
        events: Told,
        after: StoreMut<'_>,
    ) -> bool {
        if value == 0 {
            new_vars == old_vars.remove(name) && events == nothing() && after == before
        } else {
            exists|bytes: Option<Seq<u8>>| #[trigger]
                self.takes_bytes(before, value, bytes, events, after) && new_vars == match bytes {
                    None => old_vars,
                    Some(bytes) => old_vars.insert(name, bytes),
                }
        }
    }

    /// What taking over a request and its body does. A body at offset 0 is no block, and empty; one in
    /// the block of the request is there already.
    pub open spec fn takes_request(
        self,
        before: StoreMut<'_>,
        url: i64,
        body: i64,
        taken: Option<(Seq<u8>, Seq<u8>)>,
        events: Told,
        after: StoreMut<'_>,
    ) -> bool {
        exists|request: Option<Seq<u8>>, taking: Told, between: StoreMut<'_>| #[trigger]
            self.takes_bytes(before, url, request, taking, between) && if body == 0 {
                &&& taken == with_body(request, Some(Seq::empty()))
                &&& events == taking
                &&& after == between
            } else if body == url {
                taken == with_body(request, request) && events == taking && after == between
            } else {
                self.takes_body(between, request, taking, body, taken, events, after)
            }
    }

    /// What taking over the body of a request does once the request is taken over.
    pub open spec fn takes_body(
        self,
        before: StoreMut<'_>,
        request: Option<Seq<u8>>,
        taking: Told,
        body: i64,
        taken: Option<(Seq<u8>, Seq<u8>)>,
        events: Told,
        after: StoreMut<'_>,
    ) -> bool {
        exists|content: Option<Seq<u8>>, rest: Told| #[trigger]
            self.takes_bytes(before, body, content, rest, after) && taken == with_body(
                request,
                content,
            ) && events == taking + rest
    }

    /// What handing the answer of a request out does: its body is put into a new block, and the answer
    /// is kept. Where there is none, none is kept either.
    pub open spec fn hands_answer_out(
        self,
        before: StoreMut<'_>,
        answer: Result<AnswerView, ()>,
        place: i64,
        new_last: Option<AnswerView>,
        events: Told,
        after: StoreMut<'_>,
    ) -> bool {
        match answer {
            Err(_) => {
                &&& place == 0
                &&& new_last is None
                &&& events == only(HostEventView::RequestFailed)
                &&& after == before
            },
            Ok(answer) => new_last == Some(answer) && self.hands_out(
                before,
                answer.body,
                place,
                events,
                after,
            ),
        }
    }

    /// What [`Kernel::http_request`] does: the request and its body are taken over and sent, and the
    /// answer is handed out. Where one of the two could not be read, nothing is sent.
    pub open spec fn requests(
        self,
        before: StoreMut<'_>,
        old_last: Option<AnswerView>,
        url: i64,
        body: i64,
        replies: spec_fn((Seq<u8>, Seq<u8>), Result<AnswerView, ()>) -> bool,
        place: i64,
        new_last: Option<AnswerView>,
        events: Told,
        after: StoreMut<'_>,
    ) -> bool {
        exists|taken: Option<(Seq<u8>, Seq<u8>)>, taking: Told, between: StoreMut<'_>| #[trigger]
            self.takes_request(before, url, body, taken, taking, between) && match taken {
                None => {
                    &&& place == 0
                    &&& new_last == old_last
                    &&& events == taking
                    &&& after == between
                },
                Some(request) => self.sends(
                    between,
                    request,
                    taking,
                    replies,
                    place,
                    new_last,
                    events,
                    after,
                ),
            }
    }

    /// What [`Kernel::http_request`] does once there is something to send.
    pub open spec fn sends(
        self,
        before: StoreMut<'_>,
        request: (Seq<u8>, Seq<u8>),
        taking: Told,
        replies: spec_fn((Seq<u8>, Seq<u8>), Result<AnswerView, ()>) -> bool,
        place: i64,
        new_last: Option<AnswerView>,
        events: Told,
        after: StoreMut<'_>,
    ) -> bool {
        exists|answer: Result<AnswerView, ()>, rest: Told| #[trigger]
            self.hands_answer_out(before, answer, place, new_last, rest, after) && replies(
                request,
                answer,
            ) && events == taking + rest
    }

    /// What [`Kernel::http_headers`] does: the headers of the last answer are put into a new block.
    pub open spec fn hands_headers_out(
        self,
        before: StoreMut<'_>,
        last: Option<AnswerView>,
        place: i64,
        events: Told,
        after: StoreMut<'_>,
    ) -> bool {
        match last {
            None => place == 0 && events == nothing() && after == before,
            Some(answer) => self.hands_out(before, answer.headers, place, events, after),
        }
    }

    /// What giving two blocks back does, if they are there. The second one is looked for again once the
    /// first one is given back, as both may be the same. Offset 0, which is no block, may be left
    /// alone.
    pub open spec fn gives_both_back(
        self,
        before: StoreMut<'_>,
        key: i64,
        value: i64,
        after: StoreMut<'_>,
    ) -> bool {
        exists|found: Option<MemoryHandle>, between: StoreMut<'_>| #[trigger]
            self.finds(before, key as u64, found, between) && match found {
                None => exists|events: Told| #[trigger] self.discards(between, value, events, after),
                Some(handle) => self.gives_other_back(between, handle, value, after),
            }
    }

    /// What giving a block back, and another one if it is there, does.
    pub open spec fn gives_other_back(
        self,
        before: StoreMut<'_>,
        key: MemoryHandle,
        value: i64,
        after: StoreMut<'_>,
    ) -> bool {
        exists|found: Option<MemoryHandle>, between: StoreMut<'_>| #[trigger]
            self.finds(before, value as u64, found, between) && match found {
                None => self.releases(between, key, after),
                Some(_) => exists|freed: StoreMut<'_>| #[trigger]
                    self.releases(between, key, freed) && self.is_left(freed, value, after),
            }
    }

    /// Whether the block at an offset has been given back if it is there, or the offset is 0, which is
    /// no block, and nothing has been done.
    pub open spec fn is_left(
        self,
        before: StoreMut<'_>,
        value: i64,
        after: StoreMut<'_>,
    ) -> bool {
        ||| value == 0 && after == before
        ||| exists|events: Told| #[trigger] self.discards(before, value, events, after)
    }

    /// What giving the blocks of an HTTP request and its body back does, if they are there.
    pub open spec fn gives_request_back(
        self,
        before: StoreMut<'_>,
        url: i64,
        body: i64,
        after: StoreMut<'_>,
    ) -> bool {
        exists|events: Told, between: StoreMut<'_>| #[trigger]
            self.discards(before, url, events, between) && self.gives_body_back(
                between,
                url,
                body,
                after,
            )
    }

    /// What giving the block of the body of an HTTP request back does, where it is another one than
    /// that of the request.
    pub open spec fn gives_body_back(
        self,
        before: StoreMut<'_>,
        url: i64,
        body: i64,
        after: StoreMut<'_>,
    ) -> bool {
        if body == 0 || body == url {
            after == before
        } else {
            exists|events: Told| #[trigger] self.discards(before, body, events, after)
        }
    }

    /// Whether the block at an offset is found, and holds a text.
    pub open spec fn has_key(self, before: StoreMut<'_>, offset: i64, text: Seq<char>) -> bool {
        exists|handle: MemoryHandle, between: StoreMut<'_>| #[trigger]
            self.finds(before, offset as u64, Some(handle), between) && self.text_at(
                between,
                handle,
            ) == Ok::<Seq<char>, KernelErrorView>(text)
    }

    /// Whether the blocks at two offsets are found, and the first one then holds a text.
    pub open spec fn has_text(
        self,
        before: StoreMut<'_>,
        key: i64,
        value: i64,
        text: Seq<char>,
    ) -> bool {
        exists|
            handle: MemoryHandle,
            between: StoreMut<'_>,
            other: MemoryHandle,
            after: StoreMut<'_>,
        |
            #![trigger self.finds(before, key as u64, Some(handle), between), self.finds(between, value as u64, Some(other), after)]
            {
                &&& self.finds(before, key as u64, Some(handle), between)
                &&& self.finds(between, value as u64, Some(other), after)
                &&& self.text_at(after, handle) == Ok::<Seq<char>, KernelErrorView>(text)
            }
    }

    /// Gives a block back, whether or not that succeeds.
    pub(crate) fn release(&self, store: &mut StoreMut<'_>, handle: MemoryHandle)
        ensures
            self.releases(*old(store), handle, *final(store)),
    {
        let _ = self.memory_free(store, handle);
    }

    /// Gives a block back, and tells where that fails.
    fn give_back(&self, store: &mut StoreMut<'_>, handle: MemoryHandle) -> (result: Vec<HostEvent>)
        ensures
            self.gives_back(*old(store), handle, told(result@), *final(store)),
    {
        match self.memory_free(store, handle) {
            Ok(_) => none(),
            Err(err) => one(HostEvent::NotFreed(err)),
        }
    }

    /// Gives a block back that could not be read.
    fn give_up(&self, store: &mut StoreMut<'_>, handle: MemoryHandle, err: KernelError) -> (result:
        Vec<HostEvent>)
        ensures
            self.gives_up(*old(store), handle, err@, told(result@), *final(store)),
    {
        let rest = self.give_back(store, handle);
        joined(one(HostEvent::MemoryAccess(err)), rest)
    }

    /// Takes over the text in a block.
    fn take_text(&self, store: &mut StoreMut<'_>, offset: i64) -> (result: (
        Option<String>,
        Vec<HostEvent>,
    ))
        ensures
            self.takes_text(
                *old(store),
                offset,
                match result.0 {
                    Some(text) => Some(text@),
                    None => None,
                },
                told(result.1@),
                *final(store),
            ),
    {
        let handle = match self.memory_handle(store, offset as u64) {
            Some(handle) => handle,
            None => {
                return (None, one(HostEvent::HandleNotFound(offset)));
            },
        };
        match self.memory_string(store, handle) {
            Ok(text) => {
                let events = self.give_back(store, handle);
                (Some(text), events)
            },
            Err(err) => {
                let events = self.give_up(store, handle, err);
                (None, events)
            },
        }
    }

    /// Takes over the bytes of a block.
    fn take_bytes(&self, store: &mut StoreMut<'_>, offset: i64) -> (result: (
        Option<Vec<u8>>,
        Vec<HostEvent>,
    ))
        ensures
            self.takes_bytes(
                *old(store),
                offset,
                content_of(result.0),
                told(result.1@),
                *final(store),
            ),
    {
        let handle = match self.memory_handle(store, offset as u64) {
            Some(handle) => handle,
            None => {
                return (None, one(HostEvent::HandleNotFound(offset)));
            },
        };
        match self.memory_bytes(store, handle) {
            Ok(bytes) => {
                let events = self.give_back(store, handle);
                (Some(bytes), events)
            },
            Err(err) => {
                let events = self.give_up(store, handle, err);
                (None, events)
            },
        }
    }

    /// Puts bytes into a new block, and says where it is.
    fn hand_out(&self, store: &mut StoreMut<'_>, data: Vec<u8>) -> (result: (i64, Vec<HostEvent>))
        ensures
            self.hands_out(*old(store), data@, result.0, told(result.1@), *final(store)),
    {
        let ghost bytes = data@;
        let kept = self.memory_new(store, Ok(data));
        assert(self.keeps(*old(store), Ok(bytes), errors::kernel_result(kept), *store));
        match kept {
            Ok(handle) => (handle.offset as i64, none()),
            Err(err) => (0, one(HostEvent::MemoryAccess(err))),
        }
    }

    /// Takes over a log message of guest code. The result is what the embedding program is to be told
    /// of.
    pub fn log(&self, store: &mut StoreMut<'_>, level: LogLevel, text: i64) -> (result: Vec<HostEvent>)
        ensures
            self.logs(*old(store), level, text, told(result@), *final(store)),
    {
        let handle = match self.memory_handle(store, text as u64) {
            Some(handle) => handle,
            None => {
                return none();
            },
        };
        match self.memory_string(store, handle) {
            Ok(string) => {
                let rest = self.give_back(store, handle);
                joined(one(HostEvent::Message(level, string)), rest)
            },
            Err(err) => one(HostEvent::MemoryAccess(err)),
        }
    }

    /// Get a configuration value
    ///
    /// The block of the key is taken over. The result is where the value is, or 0, and what the
    /// embedding program is to be told of.
    pub fn config_get<ID>(
        &self,
        store: &mut StoreMut<'_>,
        metadata: &PluginMetadata<ID>,
        key: i64,
    ) -> (result: (i64, Vec<HostEvent>))
        ensures
            self.looks_up(
                *old(store),
                config_bytes(metadata.config@),
                no_config(),
                key,
                result.0,
                told(result.1@),
                *final(store),
            ),
    {
        let (text, taking) = self.take_text(store, key);
        let name = match text {
            Some(name) => name,
            None => {
                return (0, taking);
            },
        };
        let ghost between = *store;
        let ghost value = config_bytes(metadata.config@).get(name@);
        let ghost missing = no_config();
        let ghost event = missing(name@);
        let (place, rest) = match metadata.config.get(name.as_str()) {
            Some(value) => self.hand_out(store, slice_to_vec(value.as_str().as_bytes())),
            None => (0, one(HostEvent::ConfigNotFound(name))),
        };
        assert(self.answers(between, value, event, place, told(rest@), *store));
        (place, joined(taking, rest))
    }

    /// Get a variable
    ///
    /// The block of the key is taken over. The result is where the value is, or 0, and what the
    /// embedding program is to be told of; the block is the caller's to give back.
    pub fn var_get<ID>(
        &self,
        store: &mut StoreMut<'_>,
        metadata: &PluginMetadata<ID>,
        key: i64,
    ) -> (result: (i64, Vec<HostEvent>))
        ensures
            self.looks_up(
                *old(store),
                metadata.vars@,
                no_var(),
                key,
                result.0,
                told(result.1@),
                *final(store),
            ),
    {
        let (text, taking) = self.take_text(store, key);
        let name = match text {
            Some(name) => name,
            None => {
                return (0, taking);
            },
        };
        let ghost between = *store;
        let ghost value = metadata.vars@.get(name@);
        let ghost missing = no_var();
        let ghost event = missing(name@);
        let (place, rest) = match metadata.vars.get_var(name.as_str()) {
            Some(value) => self.hand_out(store, value),
            None => (0, one(HostEvent::VarNotFound(name))),
        };
        assert(self.answers(between, value, event, place, told(rest@), *store));
        (place, joined(taking, rest))
    }

    /// Set a variable, if the value offset is 0 then the provided key will be removed
    ///
    /// The blocks of the key and the value are taken over. The result is what the embedding program is
    /// to be told of.
    pub fn var_set<ID>(
        &self,
        store: &mut StoreMut<'_>,
        metadata: &mut PluginMetadata<ID>,
        key: i64,
        value: i64,
    ) -> (result: Vec<HostEvent>)
        ensures
            self.assigns(
                *old(store),
                old(metadata).vars@,
                key,
                value,
                final(metadata).vars@,
                told(result@),
                *final(store),
            ),
            final(metadata).id == old(metadata).id,
            final(metadata).config == old(metadata).config,
    {
        let key_handle = match self.memory_handle(store, key as u64) {
            Some(handle) => handle,
            None => {
                let rest = self.discard(store, value);
                return joined(one(HostEvent::HandleNotFound(key)), rest);
            },
        };
        match self.memory_handle(store, value as u64) {
            Some(_) => {},
            None => {
                let rest = self.give_back(store, key_handle);
                return joined(one(HostEvent::HandleNotFound(value)), rest);
            },
        }
        let name = match self.memory_string(store, key_handle) {
            Ok(text) => text,
            Err(err) => {
                let dropping = self.give_up(store, key_handle, err);
                let rest = self.discard(store, value);
                return joined(dropping, rest);
            },
        };
        let giving = self.give_back(store, key_handle);
        let rest = self.assign_value(store, &mut metadata.vars, name, value);
        joined(giving, rest)
    }

    /// Gives the block at an offset back, if there is one.
    fn discard(&self, store: &mut StoreMut<'_>, offset: i64) -> (result: Vec<HostEvent>)
        ensures
            self.discards(*old(store), offset, told(result@), *final(store)),
    {
        match self.memory_handle(store, offset as u64) {
            Some(handle) => self.give_back(store, handle),
            None => one(HostEvent::HandleNotFound(offset)),
        }
    }

    /// Sets or removes a variable.
    fn assign_value(
        &self,
        store: &mut StoreMut<'_>,
        vars: &mut InMemoryVars,
        name: String,
        value: i64,
    ) -> (result: Vec<HostEvent>)
        ensures
            self.assigns_value(
                *old(store),
                old(vars)@,
                name@,
                value,
                final(vars)@,
                told(result@),
                *final(store),
            ),
    {
        if value == 0 {
            vars.remove_var(name.as_str());
            return none();
        }
        let (bytes, events) = self.take_bytes(store, value);
        assert(self.takes_bytes(*old(store), value, content_of(bytes), told(events@), *store));
        match bytes {
            Some(bytes) => {
                vars.set_var(name, bytes);
            },
            None => {},
        }
        events
    }

    /// Takes over an HTTP request and its body. The result is what is to be sent, unless one of the two
    /// could not be read, and what the embedding program is to be told of.
    pub fn take_request(&self, store: &mut StoreMut<'_>, url: i64, body: i64) -> (result: (
        Option<(Vec<u8>, Vec<u8>)>,
        Vec<HostEvent>,
    ))
        ensures
            self.takes_request(
                *old(store),
                url,
                body,
                request_of(result.0),
                told(result.1@),
                *final(store),
            ),
    {
        let (request, taking) = self.take_bytes(store, url);
        assert(self.takes_bytes(*old(store), url, content_of(request), told(taking@), *store));
        if body == 0 {
            let taken = match request {
                Some(request) => Some((request, Vec::new())),
                None => None,
            };
            return (taken, taking);
        }
        if body == url {
            let taken = match request {
                Some(request) => {
                    let copy = slice_to_vec(request.as_slice());
                    Some((request, copy))
                },
                None => None,
            };
            return (taken, taking);
        }
        let ghost between = *store;
        let (content, rest) = self.take_bytes(store, body);
        assert(self.takes_bytes(between, body, content_of(content), told(rest@), *store));
        let ghost read = with_body(content_of(request), content_of(content));
        let taken = match (request, content) {
            (Some(request), Some(content)) => Some((request, content)),
            _ => None,
        };
        assert(request_of(taken) == read);
        (taken, joined(taking, rest))
    }

    /// Hands the answer of an HTTP request out, and keeps it. The result is where its body is, or 0, and
    /// what the embedding program is to be told of.
    pub fn hand_answer_out(
        &self,
        store: &mut StoreMut<'_>,
        last: &mut Option<HttpAnswer>,
        answer: Result<HttpAnswer, ()>,
    ) -> (result: (i64, Vec<HostEvent>))
        ensures
            self.hands_answer_out(
                *old(store),
                reply(answer),
                result.0,
                last_answer(*final(last)),
                told(result.1@),
                *final(store),
            ),
    {
        match answer {
            Ok(answer) => {
                let result = self.hand_out(store, slice_to_vec(answer.body.as_slice()));
                *last = Some(answer);
                result
            },
            Err(_) => {
                *last = None;
                (0, one(HostEvent::RequestFailed))
            },
        }
    }

    /// Make an HTTP request
    ///
    /// The blocks of the request and its body, which may be at offset 0, are taken over, and `send` is
    /// called on them. The result is where the body of the answer is, or 0, and what the embedding
    /// program is to be told of; the block is the caller's to give back. The answer is kept as the last
    /// one.
    pub fn http_request<S: Fn(Vec<u8>, Vec<u8>) -> Result<HttpAnswer, ()>>(
        &self,
        store: &mut StoreMut<'_>,
        last: &mut Option<HttpAnswer>,
        url: i64,
        body: i64,
        send: &S,
    ) -> (result: (i64, Vec<HostEvent>))
        requires
            is_sender(*send),
        ensures
            self.requests(
                *old(store),
                last_answer(*old(last)),
                url,
                body,
                answers_of(*send),
                result.0,
                last_answer(*final(last)),
                told(result.1@),
                *final(store),
            ),
    {
        let (taken, taking) = self.take_request(store, url, body);
        let ghost between = *store;
        let (request, content) = match taken {
            Some(taken) => taken,
            None => {
                return (0, taking);
            },
        };
        let ghost asked = (request@, content@);
        let answer = send(request, content);
        assert(may_answer(*send, asked, reply(answer)));
        let ghost replies = answers_of(*send);
        assert(replies(asked, reply(answer)));
        let (place, rest) = self.hand_answer_out(store, last, answer);
        let ghost end = told(taking@) + told(rest@);
        assert(self.sends(
            between,
            asked,
            told(taking@),
            replies,
            place,
            last_answer(*last),
            end,
            *store,
        ));
        (place, joined(taking, rest))
    }

    /// Get the status code of the last HTTP request
    ///
    /// It is 0 where there has been no answer.
    pub fn http_status_code(&self, last: &Option<HttpAnswer>) -> (result: i32)
        ensures
            result == match last_answer(*last) {
                Some(answer) => answer.status as i32,
                None => 0,
            },
    {
        match last {
            Some(answer) => answer.status as i32,
            None => 0,
        }
    }

    /// Get the HTTP response headers from the last HTTP request
    ///
    /// The result is where they are, or 0, and what the embedding program is to be told of; the block
    /// is the caller's to give back.
    pub fn http_headers(&self, store: &mut StoreMut<'_>, last: &Option<HttpAnswer>) -> (result: (
        i64,
        Vec<HostEvent>,
    ))
        ensures
            self.hands_headers_out(
                *old(store),
                last_answer(*last),
                result.0,
                told(result.1@),
                *final(store),
            ),
    {
        match last {
            Some(answer) => self.hand_out(store, slice_to_vec(answer.headers.as_slice())),
            None => (0, none()),
        }
    }
}

/// Bytes as plain values, if there are any.
pub open spec fn content_of(bytes: Option<Vec<u8>>) -> Option<Seq<u8>> {
    match bytes {
        Some(bytes) => Some(bytes@),
        None => None,
    }
}

/// A request and its body as plain values, if they are there.
pub open spec fn request_of(taken: Option<(Vec<u8>, Vec<u8>)>) -> Option<(Seq<u8>, Seq<u8>)> {
    match taken {
        Some((request, body)) => Some((request@, body@)),
        None => None,
    }
}

/// A request with its body, if both are there.
pub open spec fn with_body(request: Option<Seq<u8>>, body: Option<Seq<u8>>) -> Option<
    (Seq<u8>, Seq<u8>),
> {
    match (request, body) {
        (Some(request), Some(body)) => Some((request, body)),
        _ => None,
    }
}

/// No events.
fn none() -> (result: Vec<HostEvent>)
    ensures
        told(result@) == nothing(),
{
    let result: Vec<HostEvent> = Vec::new();
    assert(told(result@) =~= nothing());
    result
}

/// One event.
fn one(event: HostEvent) -> (result: Vec<HostEvent>)
    ensures
        told(result@) == only(event@),
{
    let mut result: Vec<HostEvent> = Vec::new();
    result.push(event);
    assert(told(result@) =~= only(event@));
    result
}

/// Events, and then others.
fn joined(mut events: Vec<HostEvent>, mut rest: Vec<HostEvent>) -> (result: Vec<HostEvent>)
    ensures
        told(result@) == told(events@) + told(rest@),
{
    let ghost expected = told(events@) + told(rest@);
    events.append(&mut rest);
    assert(told(events@) =~= expected);
    events
}

/// What has been handed out is read back from where guest code is told that it is.
proof fn handed_out_is_read_back(
    kernel: Kernel,
    before: StoreMut<'_>,
    data: Seq<u8>,
    place: i64,
    events: Told,
    after: StoreMut<'_>,
) -> (handle: MemoryHandle)
    requires
        data.len() <= u64::MAX,
        kernel.hands_out(before, data, place, events, after),
        place != 0,
    ensures
        handle.offset as i64 == place,
        handle.length == data.len(),
        kernel.bytes_at(after, handle) == Ok::<Seq<u8>, KernelErrorView>(data),
        events == nothing(),
{
    let kept = choose|kept: Result<MemoryHandle, KernelErrorView>| #[trigger]
        kernel.keeps(before, Ok(data), kept, after) && place == place_of(kept) && events
            == match kept {
            Ok(_) => nothing(),
            Err(err) => only(HostEventView::MemoryAccess(err)),
        };
    let handle = kept->Ok_0;
    kernel::kept_bytes_are_read_back(kernel, before, data, handle, after);
    handle
}

/// What guest code gets for a key, unless it is null, is the place of a block that holds the value of
/// the key whose text was at the place that it gave. So it is for the configuration and for variables.
pub proof fn looked_up_value_is_handed_out(
    kernel: Kernel,
    before: StoreMut<'_>,
    values: Map<Seq<char>, Seq<u8>>,
    missing: spec_fn(Seq<char>) -> HostEventView,
    key: i64,
    place: i64,
    events: Told,
    after: StoreMut<'_>,
)
    requires
        forall|name: Seq<char>| #[trigger]
            values.contains_key(name) ==> values[name].len() <= u64::MAX,
        kernel.looks_up(before, values, missing, key, place, events, after),
        place != 0,
    ensures
        exists|name: Seq<char>, handle: MemoryHandle|
            #![trigger values.contains_key(name), kernel.bytes_at(after, handle)]
            {
                &&& kernel.has_key(before, key, name)
                &&& values.contains_key(name)
                &&& handle.offset as i64 == place
                &&& handle.length == values[name].len()
                &&& kernel.bytes_at(after, handle) == Ok::<Seq<u8>, KernelErrorView>(values[name])
            },
{
    let (text, taking, between) = choose|
        text: Option<Seq<char>>,
        taking: Told,
        between: StoreMut<'_>,
    | #[trigger]
        kernel.takes_text(before, key, text, taking, between) && match text {
            None => place == 0 && events == taking && after == between,
            Some(name) => exists|rest: Told| #[trigger]
                kernel.answers(between, values.get(name), missing(name), place, rest, after)
                    && events == taking + rest,
        };
    let name = text->0;
    let rest = choose|rest: Told| #[trigger]
        kernel.answers(between, values.get(name), missing(name), place, rest, after) && events
            == taking + rest;
    assert(values.contains_key(name));
    let handle = handed_out_is_read_back(kernel, between, values[name], place, rest, after);
    assert(kernel.has_key(before, key, name));
    assert(kernel.bytes_at(after, handle) == Ok::<Seq<u8>, KernelErrorView>(values[name]));
}

/// A log call tells of exactly one message, at its level and with the text of its block, besides what
/// went wrong with the block: where there is no block, of nothing; where the block holds no text, of
/// that alone; and where the block cannot be given back, of that after the message.
pub proof fn one_message_is_logged(
    kernel: Kernel,
    before: StoreMut<'_>,
    level: LogLevel,
    offset: i64,
    events: Told,
    after: StoreMut<'_>,
)
    requires
        kernel.logs(before, level, offset, events, after),
    ensures
        forall|i: int|
            0 < i < events.len() ==> !(#[trigger] events[i] is Message) && events[0] is Message,
        events.len() > 0 && events[0] is Message ==> exists|text: Seq<char>|
            {
                &&& #[trigger] kernel.has_key(before, offset, text)
                &&& events[0] == HostEventView::Message(level, text)
            },
        events.len() <= 2,
{
    let (found, between) = choose|found: Option<MemoryHandle>, between: StoreMut<'_>| #[trigger]
        kernel.finds(before, offset as u64, found, between) && match found {
            None => events == nothing() && after == between,
            Some(handle) => match kernel.text_at(between, handle) {
                Err(err) => {
                    &&& events == only(HostEventView::MemoryAccess(err))
                    &&& after == between
                },
                Ok(content) => exists|rest: Told| #[trigger]
                    kernel.gives_back(between, handle, rest, after) && events == first(
                        HostEventView::Message(level, content),
                        rest,
                    ),
            },
        };
    if let Some(handle) = found {
        if let Ok(content) = kernel.text_at(between, handle) {
            assert(kernel.has_key(before, offset, content));
            assert(events[0] == HostEventView::Message(level, content));
        }
    }
}

/// Setting a variable changes no other variable, and its value becomes the bytes of some block, or
/// it is removed.
pub proof fn one_variable_is_assigned(
    kernel: Kernel,
    before: StoreMut<'_>,
    old_vars: Map<Seq<char>, Seq<u8>>,
    key: i64,
    value: i64,
    new_vars: Map<Seq<char>, Seq<u8>>,
    events: Told,
    after: StoreMut<'_>,
)
    requires
        kernel.assigns(before, old_vars, key, value, new_vars, events, after),
    ensures
        new_vars == old_vars || exists|name: Seq<char>|
            #![trigger old_vars.remove(name)]
            {
                &&& kernel.has_text(before, key, value, name)
                &&& value == 0 ==> new_vars == old_vars.remove(name)
                &&& value != 0 ==> new_vars.contains_key(name) && new_vars.remove(name)
                    == old_vars.remove(name)
            },
{
    let (found, between) = choose|found: Option<MemoryHandle>, between: StoreMut<'_>| #[trigger]
        kernel.finds(before, key as u64, found, between) && match found {
            None => new_vars == old_vars,
            Some(handle) => kernel.assigns_to(
                between,
                old_vars,
                handle,
                value,
                new_vars,
                events,
                after,
            ),
        };
    if let Some(handle) = found {
        let (other, later) = choose|other: Option<MemoryHandle>, later: StoreMut<'_>| #[trigger]
            kernel.finds(between, value as u64, other, later) && match other {
                None => new_vars == old_vars,
                Some(_) => match kernel.text_at(later, handle) {
                    Err(_) => new_vars == old_vars,
                    Ok(name) => kernel.assigns_name(
                        later,
                        old_vars,
                        handle,
                        name,
                        value,
                        new_vars,
                        events,
                        after,
                    ),
                },
            };
        if let Some(other) = other {
            if let Ok(name) = kernel.text_at(later, handle) {
                assert(kernel.has_text(before, key, value, name));
                if new_vars != old_vars && value != 0 {
                    assert(new_vars.contains_key(name));
                    assert(new_vars.remove(name) =~= old_vars.remove(name));
                }
                assert(old_vars.remove(name) == old_vars.remove(name));
            }
        }
    }
}

/// A variable whose value is at offset 0 is never set, only removed.
pub proof fn null_values_are_never_set(
    kernel: Kernel,
    before: StoreMut<'_>,
    old_vars: Map<Seq<char>, Seq<u8>>,
    key: i64,
    new_vars: Map<Seq<char>, Seq<u8>>,
    events: Told,
    after: StoreMut<'_>,
)
    requires
        kernel.assigns(before, old_vars, key, 0, new_vars, events, after),
    ensures
        new_vars.submap_of(old_vars),
{
    one_variable_is_assigned(kernel, before, old_vars, key, 0, new_vars, events, after);
}

/// The block of a key that is looked up is given back if it is there, whether or not it holds a text,
/// before there is an answer: guest code is not to do that.
pub proof fn taken_blocks_are_given_back(
    kernel: Kernel,
    before: StoreMut<'_>,
    values: Map<Seq<char>, Seq<u8>>,
    missing: spec_fn(Seq<char>) -> HostEventView,
    key: i64,
    place: i64,
    events: Told,
    after: StoreMut<'_>,
)
    requires
        kernel.looks_up(before, values, missing, key, place, events, after),
    ensures
        exists|between: StoreMut<'_>, dropping: Told|
            {
                &&& #[trigger] kernel.discards(before, key, dropping, between)
                &&& place == 0 && after == between || exists|value: Seq<u8>, rest: Told| #[trigger]
                    kernel.hands_out(between, value, place, rest, after)
            },
{
    let (text, taking, between) = choose|
        text: Option<Seq<char>>,
        taking: Told,
        between: StoreMut<'_>,
    | #[trigger]
        kernel.takes_text(before, key, text, taking, between) && match text {
            None => place == 0 && events == taking && after == between,
            Some(name) => exists|rest: Told| #[trigger]
                kernel.answers(between, values.get(name), missing(name), place, rest, after)
                    && events == taking + rest,
        };
    let dropping = taken_text_is_given_back(kernel, before, key, text, taking, between);
    assert(kernel.discards(before, key, dropping, between));
    if let Some(name) = text {
        let rest = choose|rest: Told| #[trigger]
            kernel.answers(between, values.get(name), missing(name), place, rest, after)
                && events == taking + rest;
        if let Some(value) = values.get(name) {
            assert(kernel.hands_out(between, value, place, rest, after));
        }
    }
}

/// Taking over a text gives its block back.
proof fn taken_text_is_given_back(
    kernel: Kernel,
    before: StoreMut<'_>,
    offset: i64,
    text: Option<Seq<char>>,
    events: Told,
    after: StoreMut<'_>,
) -> (dropping: Told)
    requires
        kernel.takes_text(before, offset, text, events, after),
    ensures
        kernel.discards(before, offset, dropping, after),
{
    let (found, between) = choose|found: Option<MemoryHandle>, between: StoreMut<'_>| #[trigger]
        kernel.finds(before, offset as u64, found, between) && match found {
            None => {
                &&& text is None
                &&& events == only(HostEventView::HandleNotFound(offset))
                &&& after == between
            },
            Some(handle) => match kernel.text_at(between, handle) {
                Ok(content) => text == Some(content) && kernel.gives_back(
                    between,
                    handle,
                    events,
                    after,
                ),
                Err(err) => text is None && kernel.gives_up(between, handle, err, events, after),
            },
        };
    let dropping = match found {
        None => events,
        Some(handle) => match kernel.text_at(between, handle) {
            Ok(_) => events,
            Err(_) => events.skip(1),
        },
    };
    if let Some(handle) = found {
        if let Err(err) = kernel.text_at(between, handle) {
            dropped_block_is_given_back(kernel, between, handle, err, events, after);
        }
    }
    assert(kernel.finds(before, offset as u64, found, between));
    dropping
}

/// Taking over bytes gives their block back.
proof fn taken_bytes_are_given_back(
    kernel: Kernel,
    before: StoreMut<'_>,
    offset: i64,
    bytes: Option<Seq<u8>>,
    events: Told,
    after: StoreMut<'_>,
) -> (dropping: Told)
    requires
        kernel.takes_bytes(before, offset, bytes, events, after),
    ensures
        kernel.discards(before, offset, dropping, after),
{
    let (found, between) = choose|found: Option<MemoryHandle>, between: StoreMut<'_>| #[trigger]
        kernel.finds(before, offset as u64, found, between) && match found {
            None => {
                &&& bytes is None
                &&& events == only(HostEventView::HandleNotFound(offset))
                &&& after == between
            },
            Some(handle) => match kernel.bytes_at(between, handle) {
                Ok(content) => bytes == Some(content) && kernel.gives_back(
                    between,
                    handle,
                    events,
                    after,
                ),
                Err(err) => bytes is None && kernel.gives_up(between, handle, err, events, after),
            },
        };
    let dropping = match found {
        None => events,
        Some(handle) => match kernel.bytes_at(between, handle) {
            Ok(_) => events,
            Err(_) => events.skip(1),
        },
    };
    if let Some(handle) = found {
        if let Err(err) = kernel.bytes_at(between, handle) {
            dropped_block_is_given_back(kernel, between, handle, err, events, after);
        }
    }
    assert(kernel.finds(before, offset as u64, found, between));
    dropping
}

/// A block that could not be read is given back.
proof fn dropped_block_is_given_back(
    kernel: Kernel,
    before: StoreMut<'_>,
    handle: MemoryHandle,
    err: KernelErrorView,
    events: Told,
    after: StoreMut<'_>,
)
    requires
        kernel.gives_up(before, handle, err, events, after),
    ensures
        kernel.gives_back(before, handle, events.skip(1), after),
        kernel.releases(before, handle, after),
{
    let rest = choose|rest: Told| #[trigger]
        kernel.gives_back(before, handle, rest, after) && events == first(
            HostEventView::MemoryAccess(err),
            rest,
        );
    assert(events.skip(1) =~= rest);
}

/// When a variable is set, the blocks of its name and its value are given back if they are there,
/// whether or not they could be read: guest code is not to do that. Only a value at offset 0, which
/// is no block, is left alone once the variable is removed.
pub proof fn assigned_blocks_are_given_back(
    kernel: Kernel,
    before: StoreMut<'_>,
    old_vars: Map<Seq<char>, Seq<u8>>,
    key: i64,
    value: i64,
    new_vars: Map<Seq<char>, Seq<u8>>,
    events: Told,
    after: StoreMut<'_>,
)
    requires
        kernel.assigns(before, old_vars, key, value, new_vars, events, after),
    ensures
        kernel.gives_both_back(before, key, value, after),
{
    let (found, between) = choose|found: Option<MemoryHandle>, between: StoreMut<'_>| #[trigger]
        kernel.finds(before, key as u64, found, between) && match found {
            None => new_vars == old_vars && exists|rest: Told| #[trigger]
                kernel.discards(between, value, rest, after) && events == first(
                    HostEventView::HandleNotFound(key),
                    rest,
                ),
            Some(handle) => kernel.assigns_to(
                between,
                old_vars,
                handle,
                value,
                new_vars,
                events,
                after,
            ),
        };
    if let Some(handle) = found {
        let (other, later) = choose|other: Option<MemoryHandle>, later: StoreMut<'_>| #[trigger]
            kernel.finds(between, value as u64, other, later) && match other {
                None => new_vars == old_vars && exists|rest: Told| #[trigger]
                    kernel.gives_back(later, handle, rest, after) && events == first(
                        HostEventView::HandleNotFound(value),
                        rest,
                    ),
                Some(_) => match kernel.text_at(later, handle) {
                    Err(err) => new_vars == old_vars && kernel.drops_both(
                        later,
                        handle,
                        err,
                        value,
                        events,
                        after,
                    ),
                    Ok(name) => kernel.assigns_name(
                        later,
                        old_vars,
                        handle,
                        name,
                        value,
                        new_vars,
                        events,
                        after,
                    ),
                },
            };
        if other is Some {
            match kernel.text_at(later, handle) {
                Ok(name) => {
                    let (giving, freed) = choose|giving: Told, freed: StoreMut<'_>| #[trigger]
                        kernel.gives_back(later, handle, giving, freed) && exists|rest: Told|
                         #[trigger]
                            kernel.assigns_value(
                                freed,
                                old_vars,
                                name,
                                value,
                                new_vars,
                                rest,
                                after,
                            ) && events == giving + rest;
                    let rest = choose|rest: Told| #[trigger]
                        kernel.assigns_value(freed, old_vars, name, value, new_vars, rest, after)
                            && events == giving + rest;
                    if value != 0 {
                        let bytes = choose|bytes: Option<Seq<u8>>| #[trigger]
                            kernel.takes_bytes(freed, value, bytes, rest, after) && new_vars
                                == match bytes {
                                None => old_vars,
                                Some(bytes) => old_vars.insert(name, bytes),
                            };
                        let dropping = taken_bytes_are_given_back(
                            kernel,
                            freed,
                            value,
                            bytes,
                            rest,
                            after,
                        );
                    }
                    assert(kernel.is_left(freed, value, after));
                    assert(kernel.releases(later, handle, freed));
                },
                Err(err) => {
                    let (dropping, freed) = choose|dropping: Told, freed: StoreMut<'_>| #[trigger]
                        kernel.gives_up(later, handle, err, dropping, freed) && exists|rest: Told|
                         #[trigger]
                            kernel.discards(freed, value, rest, after) && events == dropping
                                + rest;
                    dropped_block_is_given_back(kernel, later, handle, err, dropping, freed);
                    assert(kernel.is_left(freed, value, after));
                },
            }
        }
        assert(kernel.gives_other_back(between, handle, value, after));
    }
}

/// The blocks of an HTTP request and of its body are given back once if they are there, whether or not
/// they could be read and before anything is sent: guest code is not to do that. A body at offset 0 is
/// no block.
pub proof fn requested_blocks_are_given_back(
    kernel: Kernel,
    before: StoreMut<'_>,
    old_last: Option<AnswerView>,
    url: i64,
    body: i64,
    replies: spec_fn((Seq<u8>, Seq<u8>), Result<AnswerView, ()>) -> bool,
    place: i64,
    new_last: Option<AnswerView>,
    events: Told,
    after: StoreMut<'_>,
)
    requires
        kernel.requests(before, old_last, url, body, replies, place, new_last, events, after),
    ensures
        exists|later: StoreMut<'_>|
            {
                &&& #[trigger] kernel.gives_request_back(before, url, body, later)
                &&& place == 0 && after == later || exists|data: Seq<u8>, rest: Told| #[trigger]
                    kernel.hands_out(later, data, place, rest, after)
            },
{
    let (taken, taking, later) = choose|
        taken: Option<(Seq<u8>, Seq<u8>)>,
        taking: Told,
        later: StoreMut<'_>,
    | #[trigger]
        kernel.takes_request(before, url, body, taken, taking, later) && match taken {
            None => {
                &&& place == 0
                &&& new_last == old_last
                &&& events == taking
                &&& after == later
            },
            Some(request) => kernel.sends(
                later,
                request,
                taking,
                replies,
                place,
                new_last,
                events,
                after,
            ),
        };
    let (request, fetching, between) = choose|
        request: Option<Seq<u8>>,
        fetching: Told,
        between: StoreMut<'_>,
    | #[trigger]
        kernel.takes_bytes(before, url, request, fetching, between) && if body == 0 {
            &&& taken == with_body(request, Some(Seq::empty()))
            &&& taking == fetching
            &&& later == between
        } else if body == url {
            taken == with_body(request, request) && taking == fetching && later == between
        } else {
            kernel.takes_body(between, request, fetching, body, taken, taking, later)
        };
    let first = taken_bytes_are_given_back(kernel, before, url, request, fetching, between);
    if body != 0 && body != url {
        let (content, rest) = choose|content: Option<Seq<u8>>, rest: Told| #[trigger]
            kernel.takes_bytes(between, body, content, rest, later) && taken == with_body(
                request,
                content,
            ) && taking == fetching + rest;
        let second = taken_bytes_are_given_back(kernel, between, body, content, rest, later);
        assert(kernel.discards(between, body, second, later));
    }
    if let Some(request) = taken {
        let (answer, rest) = choose|answer: Result<AnswerView, ()>, rest: Told| #[trigger]
            kernel.hands_answer_out(later, answer, place, new_last, rest, after) && replies(
                request,
                answer,
            ) && events == taking + rest;
        if let Ok(answer) = answer {
            assert(kernel.hands_out(later, answer.body, place, rest, after));
        }
    }
    assert(kernel.discards(before, url, first, between));
    assert(kernel.gives_body_back(between, url, body, later));
    assert(kernel.gives_request_back(before, url, body, later));
}

/// What guest code gets for an HTTP request, unless it is null, is the place of a block that holds the
/// body of an answer to just that request, and that answer is the last one from then on.
pub proof fn answers_are_handed_out(
    kernel: Kernel,
    before: StoreMut<'_>,
    old_last: Option<AnswerView>,
    url: i64,
    body: i64,
    replies: spec_fn((Seq<u8>, Seq<u8>), Result<AnswerView, ()>) -> bool,
    place: i64,
    new_last: Option<AnswerView>,
    events: Told,
    after: StoreMut<'_>,
)
    requires
        forall|request: (Seq<u8>, Seq<u8>), answer: Result<AnswerView, ()>| #[trigger]
            replies(request, answer) && answer is Ok ==> answer->Ok_0.body.len() <= u64::MAX,
        kernel.requests(before, old_last, url, body, replies, place, new_last, events, after),
        place != 0,
    ensures
        new_last matches Some(answer) && exists|
            request: (Seq<u8>, Seq<u8>),
            taking: Told,
            between: StoreMut<'_>,
            handle: MemoryHandle,
        |
            #![trigger kernel.takes_request(before, url, body, Some(request), taking, between), kernel.bytes_at(after, handle)]
            {
                &&& kernel.takes_request(before, url, body, Some(request), taking, between)
                &&& replies(request, Ok(answer))
                &&& handle.offset as i64 == place
                &&& handle.length == answer.body.len()
                &&& kernel.bytes_at(after, handle) == Ok::<Seq<u8>, KernelErrorView>(answer.body)
            },
{
    let (taken, taking, between) = choose|
        taken: Option<(Seq<u8>, Seq<u8>)>,
        taking: Told,
        between: StoreMut<'_>,
    | #[trigger]
        kernel.takes_request(before, url, body, taken, taking, between) && match taken {
            None => {
                &&& place == 0
                &&& new_last == old_last
                &&& events == taking
                &&& after == between
            },
            Some(request) => kernel.sends(
                between,
                request,
                taking,
                replies,
                place,
                new_last,
                events,
                after,
            ),
        };
    let request = taken->0;
    let (answer, rest) = choose|answer: Result<AnswerView, ()>, rest: Told| #[trigger]
        kernel.hands_answer_out(between, answer, place, new_last, rest, after) && replies(
            request,
            answer,
        ) && events == taking + rest;
    let got = answer->Ok_0;
    assert(answer == Ok::<AnswerView, ()>(got));
    assert(replies(request, Ok(got)));
    let handle = handed_out_is_read_back(kernel, between, got.body, place, rest, after);
    assert(kernel.takes_request(before, url, body, Some(request), taking, between));
    assert(kernel.bytes_at(after, handle) == Ok::<Seq<u8>, KernelErrorView>(got.body));
}

/// What guest code gets for the headers of the last answer, unless it is null, is the place of a block
/// that holds them.
pub proof fn headers_are_handed_out(
    kernel: Kernel,
    before: StoreMut<'_>,
    last: Option<AnswerView>,
    place: i64,
    events: Told,
    after: StoreMut<'_>,
)
    requires
        last matches Some(answer) ==> answer.headers.len() <= u64::MAX,
        kernel.hands_headers_out(before, last, place, events, after),
        place != 0,
    ensures
        last matches Some(answer) && exists|handle: MemoryHandle|
            {
                &&& handle.offset as i64 == place
                &&& handle.length == answer.headers.len()
                &&& #[trigger] kernel.bytes_at(after, handle) == Ok::<Seq<u8>, KernelErrorView>(
                    answer.headers,
                )
            },
{
    let handle = handed_out_is_read_back(kernel, before, last->0.headers, place, events, after);
    assert(kernel.bytes_at(after, handle) is Ok);
}

} // verus!
