//! What the questions and requests of guest code to the host come down to.
use super::memory;
use crate::errors::KernelErrorView;
use crate::host::{self, AnswerView, HostEventView, Told};
use crate::kernel::{Kernel, MemoryHandle};
use crate::levels::LogLevel;
use vstd::prelude::*;
use vstd::utf8::*;
use wasmer::StoreMut;

verus! {

/// Whether the kernel was told, once, of a block to be given back. Where that failed, it is told.
pub open spec fn was_given_back(
    kernel: Kernel,
    before: StoreMut<'_>,
    handle: MemoryHandle,
    events: Told,
    after: StoreMut<'_>,
) -> bool {
    ||| events == Seq::<HostEventView>::empty() && exists|values: Seq<int>| #[trigger]
        memory::returned(
            before,
            kernel.instance(),
            "free"@,
            memory::number(handle.offset as i64),
            values,
            after,
        )
    ||| exists|err: KernelErrorView| #[trigger]
        memory::unanswered(
            kernel,
            before,
            "free"@,
            memory::number(handle.offset as i64),
            Seq::empty(),
            err,
            after,
        ) && events == seq![HostEventView::NotFreed(err)]
}

/// Whether the text in the block at an offset was read, and then the block given back.
pub open spec fn was_read_as_text(
    kernel: Kernel,
    before: StoreMut<'_>,
    offset: i64,
    text: Seq<char>,
    events: Told,
    after: StoreMut<'_>,
) -> bool {
    exists|handle: MemoryHandle, between: StoreMut<'_>|
        {
            &&& #[trigger] kernel.finds(before, offset as u64, Some(handle), between)
            &&& kernel.text_at(between, handle) == Ok::<Seq<char>, KernelErrorView>(text)
            &&& was_given_back(kernel, between, handle, events, after)
        }
}

/// Whether the bytes of the block at an offset were read, all of them, and then the block given back.
pub open spec fn was_read(
    kernel: Kernel,
    before: StoreMut<'_>,
    offset: i64,
    bytes: Seq<u8>,
    events: Told,
    after: StoreMut<'_>,
) -> bool {
    exists|handle: MemoryHandle, between: StoreMut<'_>|
        {
            &&& #[trigger] kernel.finds(before, offset as u64, Some(handle), between)
            &&& kernel.bytes_at(between, handle) == Ok::<Seq<u8>, KernelErrorView>(bytes)
            &&& was_given_back(kernel, between, handle, events, after)
        }
}

/// Whether a block was given back that could not be read, and that was told first.
pub open spec fn was_given_up(
    kernel: Kernel,
    before: StoreMut<'_>,
    handle: MemoryHandle,
    err: KernelErrorView,
    events: Told,
    after: StoreMut<'_>,
) -> bool {
    &&& events.len() > 0
    &&& events[0] == HostEventView::MemoryAccess(err)
    &&& was_given_back(kernel, before, handle, events.skip(1), after)
}

/// Whether there is no block at an offset, and that was told.
pub open spec fn was_missing(
    kernel: Kernel,
    before: StoreMut<'_>,
    offset: i64,
    events: Told,
    after: StoreMut<'_>,
) -> bool {
    &&& kernel.finds(before, offset as u64, None, after)
    &&& events == seq![HostEventView::HandleNotFound(offset)]
}

/// Whether the block at an offset holds no text, and so was given back.
pub open spec fn was_no_text(
    kernel: Kernel,
    before: StoreMut<'_>,
    offset: i64,
    events: Told,
    after: StoreMut<'_>,
) -> bool {
    exists|handle: MemoryHandle, between: StoreMut<'_>|
        {
            &&& #[trigger] kernel.finds(before, offset as u64, Some(handle), between)
            &&& kernel.text_at(between, handle) matches Err(err) && was_given_up(
                kernel,
                between,
                handle,
                err,
                events,
                after,
            )
        }
}

/// Whether the block at an offset could not be read, and so was given back.
pub open spec fn was_unreadable(
    kernel: Kernel,
    before: StoreMut<'_>,
    offset: i64,
    events: Told,
    after: StoreMut<'_>,
) -> bool {
    exists|handle: MemoryHandle, between: StoreMut<'_>|
        {
            &&& #[trigger] kernel.finds(before, offset as u64, Some(handle), between)
            &&& kernel.bytes_at(between, handle) matches Err(err) && was_given_up(
                kernel,
                between,
                handle,
                err,
                events,
                after,
            )
        }
}

/// Giving a block back tells the kernel its offset, once; only a failure is told.
pub proof fn returned_blocks_are_given_back(
    kernel: Kernel,
    before: StoreMut<'_>,
    handle: MemoryHandle,
    events: Told,
    after: StoreMut<'_>,
)
    requires
        kernel.gives_back(before, handle, events, after),
    ensures
        was_given_back(kernel, before, handle, events, after),
{
    let outcome = choose|outcome: Result<(), KernelErrorView>| #[trigger]
        kernel.frees(before, handle, outcome, after) && events == match outcome {
            Ok(_) => host::nothing(),
            Err(err) => host::only(HostEventView::NotFreed(err)),
        };
    memory::blocks_are_freed_by_their_offset(kernel, before, handle, outcome, after);
}

/// Giving up a block that could not be read tells so, and gives the block back.
pub proof fn blocks_are_given_up(
    kernel: Kernel,
    before: StoreMut<'_>,
    handle: MemoryHandle,
    err: KernelErrorView,
    events: Told,
    after: StoreMut<'_>,
)
    requires
        kernel.gives_up(before, handle, err, events, after),
    ensures
        was_given_up(kernel, before, handle, err, events, after),
{
    let rest = choose|rest: Told| #[trigger]
        kernel.gives_back(before, handle, rest, after) && events == host::first(
            HostEventView::MemoryAccess(err),
            rest,
        );
    returned_blocks_are_given_back(kernel, before, handle, rest, after);
    assert(events.skip(1) =~= rest);
}

/// A text that is taken over is the whole text of the block at that offset, and the block is given back.
/// There is none only where there is no block, or no text in it.
pub proof fn taken_texts_are_whole(
    kernel: Kernel,
    before: StoreMut<'_>,
    offset: i64,
    text: Option<Seq<char>>,
    events: Told,
    after: StoreMut<'_>,
)
    requires
        kernel.takes_text(before, offset, text, events, after),
    ensures
        match text {
            Some(content) => was_read_as_text(kernel, before, offset, content, events, after),
            None => was_missing(kernel, before, offset, events, after) || was_no_text(
                kernel,
                before,
                offset,
                events,
                after,
            ),
        },
{
    let (found, between) = choose|found: Option<MemoryHandle>, between: StoreMut<'_>| #[trigger]
        kernel.finds(before, offset as u64, found, between) && match found {
            None => {
                &&& text is None
                &&& events == host::only(HostEventView::HandleNotFound(offset))
                &&& after == between
            },
            Some(handle) => match kernel.text_at(between, handle) {
                Ok(content) => text == Some(content) && kernel.gives_back(
                    between,
                    handle,
                    events,
                    after,
                ),
                Err(err) => text is None && kernel.gives_up(between, handle, err, events, after),
            },
        };
    match found {
        None => {
            assert(kernel.finds(before, offset as u64, None, after));
        },
        Some(handle) => {
            assert(kernel.finds(before, offset as u64, Some(handle), between));
            match kernel.text_at(between, handle) {
                Ok(content) => {
                    returned_blocks_are_given_back(kernel, between, handle, events, after);
                },
                Err(err) => {
                    blocks_are_given_up(kernel, between, handle, err, events, after);
                    assert(was_no_text(kernel, before, offset, events, after));
                },
            }
        },
    }
}

/// Bytes that are taken over are all the bytes of the block at that offset, and the block is given back.
/// There are none only where there is no block, or where it cannot be read.
pub proof fn taken_bytes_are_whole(
    kernel: Kernel,
    before: StoreMut<'_>,
    offset: i64,
    bytes: Option<Seq<u8>>,
    events: Told,
    after: StoreMut<'_>,
)
    requires
        kernel.takes_bytes(before, offset, bytes, events, after),
    ensures
        was_taken(kernel, before, offset, bytes, events, after),
{
    let (found, between) = choose|found: Option<MemoryHandle>, between: StoreMut<'_>| #[trigger]
        kernel.finds(before, offset as u64, found, between) && match found {
            None => {
                &&& bytes is None
                &&& events == host::only(HostEventView::HandleNotFound(offset))
                &&& after == between
            },
            Some(handle) => match kernel.bytes_at(between, handle) {
                Ok(content) => bytes == Some(content) && kernel.gives_back(
                    between,
                    handle,
                    events,
                    after,
                ),
                Err(err) => bytes is None && kernel.gives_up(between, handle, err, events, after),
            },
        };
    match found {
        None => {
            assert(kernel.finds(before, offset as u64, None, after));
        },
        Some(handle) => {
            assert(kernel.finds(before, offset as u64, Some(handle), between));
            match kernel.bytes_at(between, handle) {
                Ok(content) => {
                    returned_blocks_are_given_back(kernel, between, handle, events, after);
                },
                Err(err) => {
                    blocks_are_given_up(kernel, between, handle, err, events, after);
                    assert(was_unreadable(kernel, before, offset, events, after));
                },
            }
        },
    }
}

/// Whether the bytes of a block were taken over, or why not.
pub open spec fn was_taken(
    kernel: Kernel,
    before: StoreMut<'_>,
    offset: i64,
    bytes: Option<Seq<u8>>,
    events: Told,
    after: StoreMut<'_>,
) -> bool {
    match bytes {
        Some(content) => was_read(kernel, before, offset, content, events, after),
        None => was_missing(kernel, before, offset, events, after) || was_unreadable(
            kernel,
            before,
            offset,
            events,
            after,
        ),
    }
}

/// Whether bytes were handed out: they lie in memory, whole, at the place that is given. Where they could
/// not be put there, the place is 0, and that is told.
pub open spec fn was_handed_out(
    kernel: Kernel,
    before: StoreMut<'_>,
    data: Seq<u8>,
    place: i64,
    events: Told,
    after: StoreMut<'_>,
) -> bool {
    ||| events == Seq::<HostEventView>::empty() && exists|handle: MemoryHandle| #[trigger]
        memory::is_put_in(kernel, before, data, handle, after) && place == handle.offset as i64
    ||| place == 0 && exists|err: KernelErrorView| #[trigger]
        memory::is_not_kept(kernel, before, Ok(data), err, after) && events == seq![
            HostEventView::MemoryAccess(err),
        ]
}

/// Bytes are handed out whole.
pub proof fn data_is_handed_out_whole(
    kernel: Kernel,
    before: StoreMut<'_>,
    data: Seq<u8>,
    place: i64,
    events: Told,
    after: StoreMut<'_>,
)
    requires
        data.len() <= u64::MAX,
        kernel.hands_out(before, data, place, events, after),
    ensures
        was_handed_out(kernel, before, data, place, events, after),
{
    let kept = choose|kept: Result<MemoryHandle, KernelErrorView>| #[trigger]
        kernel.keeps(before, Ok(data), kept, after) && place == host::place_of(kept) && events
            == match kept {
            Ok(_) => host::nothing(),
            Err(err) => host::only(HostEventView::MemoryAccess(err)),
        };
    memory::values_are_kept_whole(kernel, before, Ok(data), kept, after);
}

/// Whether the value of a name was looked up. The name is the text in the block at `key`, which is given
/// back; the value is handed out whole. Where there is no name nothing is looked up, and where there is
/// no value that is told.
pub open spec fn was_looked_up(
    kernel: Kernel,
    before: StoreMut<'_>,
    value: spec_fn(Seq<char>) -> Option<Seq<u8>>,
    missing: spec_fn(Seq<char>) -> HostEventView,
    key: i64,
    place: i64,
    events: Told,
    after: StoreMut<'_>,
) -> bool {
    ||| place == 0 && was_missing(kernel, before, key, events, after)
    ||| place == 0 && was_no_text(kernel, before, key, events, after)
    ||| exists|name: Seq<char>, taking: Told, between: StoreMut<'_>|
        #[trigger] was_read_as_text(kernel, before, key, name, taking, between)
            && events.len() >= taking.len() && events.take(taking.len() as int) == taking
            && match value(name) {
            Some(data) => was_handed_out(
                kernel,
                between,
                data,
                place,
                events.skip(taking.len() as int),
                after,
            ),
            None => place == 0 && events.skip(taking.len() as int) == seq![missing(name)] && after
                == between,
        }
}

/// Values are looked up by the whole name, and handed out whole.
pub(crate) proof fn values_are_looked_up(
    kernel: Kernel,
    before: StoreMut<'_>,
    values: Map<Seq<char>, Seq<u8>>,
    missing: spec_fn(Seq<char>) -> HostEventView,
    key: i64,
    place: i64,
    events: Told,
    after: StoreMut<'_>,
)
    requires
        forall|name: Seq<char>|
            values.contains_key(name) ==> (#[trigger] values[name]).len() <= u64::MAX,
        kernel.looks_up(before, values, missing, key, place, events, after),
    ensures
        was_looked_up(
            kernel,
            before,
            |name: Seq<char>|
                if values.contains_key(name) {
                    Some(values[name])
                } else {
                    None
                },
            missing,
            key,
            place,
            events,
            after,
        ),
{
    let (text, taking, between) = choose|
        text: Option<Seq<char>>,
        taking: Told,
        between: StoreMut<'_>,
    | #[trigger]
        kernel.takes_text(before, key, text, taking, between) && match text {
            None => place == 0 && events == taking && after == between,
            Some(name) => exists|rest: Told| #[trigger]
                kernel.answers(between, values.get(name), missing(name), place, rest, after)
                    && events == taking + rest,
        };
    taken_texts_are_whole(kernel, before, key, text, taking, between);
    if let Some(name) = text {
        let rest = choose|rest: Told| #[trigger]
            kernel.answers(between, values.get(name), missing(name), place, rest, after) && events
                == taking + rest;
        assert(events.take(taking.len() as int) =~= taking);
        assert(events.skip(taking.len() as int) =~= rest);
        if values.contains_key(name) {
            data_is_handed_out_whole(kernel, between, values[name], place, rest, after);
        }
        assert(was_read_as_text(kernel, before, key, name, taking, between));
    }
}

/// A configuration value is handed out whole: the block holds the encoding of all of its text.
pub proof fn config_values_are_handed_out_whole(
    kernel: Kernel,
    before: StoreMut<'_>,
    config: Map<Seq<char>, String>,
    key: i64,
    place: i64,
    events: Told,
    after: StoreMut<'_>,
)
    requires
        forall|name: Seq<char>|
            config.contains_key(name) ==> encode_utf8((#[trigger] config[name])@).len()
                <= u64::MAX,
        kernel.looks_up(
            before,
            host::config_bytes(config),
            host::no_config(),
            key,
            place,
            events,
            after,
        ),
    ensures
        was_looked_up(
            kernel,
            before,
            |name: Seq<char>|
                if config.contains_key(name) {
                    Some(encode_utf8(config[name]@))
                } else {
                    None
                },
            |name: Seq<char>| HostEventView::ConfigNotFound(name),
            key,
            place,
            events,
            after,
        ),
{
    let values = host::config_bytes(config);
    assert forall|name: Seq<char>| values.contains_key(name) implies (#[trigger] values[name]).len()
        <= u64::MAX by {
        assert(config.contains_key(name));
        assert(values[name] == encode_utf8(config[name]@));
    }
    values_are_looked_up(kernel, before, values, host::no_config(), key, place, events, after);
    let given = |name: Seq<char>|
        if values.contains_key(name) {
            Some(values[name])
        } else {
            None
        };
    let wanted = |name: Seq<char>|
        if config.contains_key(name) {
            Some(encode_utf8(config[name]@))
        } else {
            None
        };
    assert(given =~= wanted);
    assert(host::no_config() =~= (|name: Seq<char>| HostEventView::ConfigNotFound(name)));
}

/// What guest code gets for the name of a configuration value, unless it is 0, is the place of a block whose
/// text is that value.
pub proof fn config_values_are_read_as_they_are(
    kernel: Kernel,
    before: StoreMut<'_>,
    config: Map<Seq<char>, String>,
    key: i64,
    place: i64,
    events: Told,
    after: StoreMut<'_>,
)
    requires
        forall|name: Seq<char>|
            config.contains_key(name) ==> encode_utf8((#[trigger] config[name])@).len()
                <= u64::MAX,
        kernel.looks_up(
            before,
            host::config_bytes(config),
            host::no_config(),
            key,
            place,
            events,
            after,
        ),
        place != 0,
    ensures
        exists|
            name: Seq<char>,
            taking: Told,
            between: StoreMut<'_>,
            handle: MemoryHandle,
        |
            {
                &&& #[trigger] was_read_as_text(kernel, before, key, name, taking, between)
                &&& config.contains_key(name)
                &&& handle.offset == place as u64
                &&& #[trigger] kernel.text_at(after, handle) == Ok::<Seq<char>, KernelErrorView>(
                    config[name]@,
                )
            },
{
    let value = |name: Seq<char>|
        if config.contains_key(name) {
            Some(encode_utf8(config[name]@))
        } else {
            None
        };
    let missing = |name: Seq<char>| HostEventView::ConfigNotFound(name);
    config_values_are_handed_out_whole(kernel, before, config, key, place, events, after);
    let (name, taking, between) = choose|name: Seq<char>, taking: Told, between: StoreMut<'_>|
        #[trigger] was_read_as_text(kernel, before, key, name, taking, between) && events.len()
            >= taking.len() && events.take(taking.len() as int) == taking && match value(name) {
            Some(data) => was_handed_out(
                kernel,
                between,
                data,
                place,
                events.skip(taking.len() as int),
                after,
            ),
            None => place == 0 && events.skip(taking.len() as int) == seq![missing(name)] && after
                == between,
        };
    let data = encode_utf8(config[name]@);
    assert(value(name) == Some(data));
    let handle = choose|handle: MemoryHandle| #[trigger]
        memory::is_put_in(kernel, between, data, handle, after) && place == handle.offset as i64;
    memory::data_that_is_put_in_is_there(kernel, between, data, handle, after);
    assert(kernel.bytes_at(after, handle) == Ok::<Seq<u8>, KernelErrorView>(data));
    encode_utf8_decode_utf8(config[name]@);
    encode_utf8_valid_utf8(config[name]@);
    assert(kernel.text_at(after, handle) == Ok::<Seq<char>, KernelErrorView>(config[name]@));
    let offset = handle.offset;
    assert(offset as i64 as u64 == offset) by (bit_vector);
}

/// A variable is handed out whole: the block holds all of its bytes.
pub proof fn variables_are_handed_out_whole(
    kernel: Kernel,
    before: StoreMut<'_>,
    vars: Map<Seq<char>, Seq<u8>>,
    key: i64,
    place: i64,
    events: Told,
    after: StoreMut<'_>,
)
    requires
        forall|name: Seq<char>|
            vars.contains_key(name) ==> (#[trigger] vars[name]).len() <= u64::MAX,
        kernel.looks_up(before, vars, host::no_var(), key, place, events, after),
    ensures
        was_looked_up(
            kernel,
            before,
            |name: Seq<char>|
                if vars.contains_key(name) {
                    Some(vars[name])
                } else {
                    None
                },
            |name: Seq<char>| HostEventView::VarNotFound(name),
            key,
            place,
            events,
            after,
        ),
{
    values_are_looked_up(kernel, before, vars, host::no_var(), key, place, events, after);
    assert(host::no_var() =~= (|name: Seq<char>| HostEventView::VarNotFound(name)));
}

/// Whether a message was logged: one message of that level with the whole text in the block, which is
/// given back. Where there is no block nothing is told; where it holds no text, that is told.
pub open spec fn was_logged(
    kernel: Kernel,
    before: StoreMut<'_>,
    level: LogLevel,
    offset: i64,
    events: Told,
    after: StoreMut<'_>,
) -> bool {
    ||| kernel.finds(before, offset as u64, None, after) && events
        == Seq::<HostEventView>::empty()
    ||| exists|handle: MemoryHandle| #[trigger]
        kernel.finds(before, offset as u64, Some(handle), after) && (kernel.text_at(
            after,
            handle,
        ) matches Err(err) && events == seq![HostEventView::MemoryAccess(err)])
    ||| exists|handle: MemoryHandle, between: StoreMut<'_>|
        {
            &&& #[trigger] kernel.finds(before, offset as u64, Some(handle), between)
            &&& kernel.text_at(between, handle) matches Ok(text) && events.len() > 0 && events[0]
                == HostEventView::Message(level, text)
            &&& was_given_back(kernel, between, handle, events.skip(1), after)
        }
}

/// A message is logged whole and once, at the level that it was given.
pub proof fn messages_are_logged_whole(
    kernel: Kernel,
    before: StoreMut<'_>,
    level: LogLevel,
    offset: i64,
    events: Told,
    after: StoreMut<'_>,
)
    requires
        kernel.logs(before, level, offset, events, after),
    ensures
        was_logged(kernel, before, level, offset, events, after),
{
    let (found, between) = choose|found: Option<MemoryHandle>, between: StoreMut<'_>| #[trigger]
        kernel.finds(before, offset as u64, found, between) && match found {
            None => events == host::nothing() && after == between,
            Some(handle) => match kernel.text_at(between, handle) {
                Err(err) => {
                    &&& events == host::only(HostEventView::MemoryAccess(err))
                    &&& after == between
                },
                Ok(content) => exists|rest: Told| #[trigger]
                    kernel.gives_back(between, handle, rest, after) && events == host::first(
                        HostEventView::Message(level, content),
                        rest,
                    ),
            },
        };
    match found {
        None => {
            assert(kernel.finds(before, offset as u64, None, after));
        },
        Some(handle) => {
            assert(kernel.finds(before, offset as u64, Some(handle), between));
            if let Ok(content) = kernel.text_at(between, handle) {
                let rest = choose|rest: Told| #[trigger]
                    kernel.gives_back(between, handle, rest, after) && events == host::first(
                        HostEventView::Message(level, content),
                        rest,
                    );
                returned_blocks_are_given_back(kernel, between, handle, rest, after);
                assert(events.skip(1) =~= rest);
            }
        },
    }
}

/// Whether the block at an offset was given back, or there is none.
pub open spec fn was_discarded(
    kernel: Kernel,
    before: StoreMut<'_>,
    offset: i64,
    events: Told,
    after: StoreMut<'_>,
) -> bool {
    ||| was_missing(kernel, before, offset, events, after)
    ||| exists|handle: MemoryHandle, between: StoreMut<'_>|
        #[trigger] kernel.finds(before, offset as u64, Some(handle), between) && was_given_back(
            kernel,
            between,
            handle,
            events,
            after,
        )
}

/// A block that is discarded is given back.
pub proof fn discarded_blocks_are_given_back(
    kernel: Kernel,
    before: StoreMut<'_>,
    offset: i64,
    events: Told,
    after: StoreMut<'_>,
)
    requires
        kernel.discards(before, offset, events, after),
    ensures
        was_discarded(kernel, before, offset, events, after),
{
    let (found, between) = choose|found: Option<MemoryHandle>, between: StoreMut<'_>| #[trigger]
        kernel.finds(before, offset as u64, found, between) && match found {
            None => {
                &&& events == host::only(HostEventView::HandleNotFound(offset))
                &&& after == between
            },
            Some(handle) => kernel.gives_back(between, handle, events, after),
        };
    match found {
        None => {
            assert(kernel.finds(before, offset as u64, None, after));
        },
        Some(handle) => {
            assert(kernel.finds(before, offset as u64, Some(handle), between));
            returned_blocks_are_given_back(kernel, between, handle, events, after);
        },
    }
}

/// Whether there are blocks both at `key` and at `value`.
pub open spec fn are_there(
    kernel: Kernel,
    before: StoreMut<'_>,
    key: i64,
    value: i64,
    handle: MemoryHandle,
    after: StoreMut<'_>,
) -> bool {
    exists|between: StoreMut<'_>, other: MemoryHandle|
        #[trigger] kernel.finds(before, key as u64, Some(handle), between)
            && #[trigger] kernel.finds(between, value as u64, Some(other), after)
}

/// Whether there are blocks both at `key` and at `value`, and the first one holds a name and was given
/// back.
pub open spec fn was_named(
    kernel: Kernel,
    before: StoreMut<'_>,
    key: i64,
    value: i64,
    name: Seq<char>,
    events: Told,
    after: StoreMut<'_>,
) -> bool {
    exists|handle: MemoryHandle, between: StoreMut<'_>|
        {
            &&& #[trigger] are_there(kernel, before, key, value, handle, between)
            &&& kernel.text_at(between, handle) == Ok::<Seq<char>, KernelErrorView>(name)
            &&& was_given_back(kernel, between, handle, events, after)
        }
}

/// Whether a variable was named but there is no block for its value.
pub open spec fn is_without_value(
    kernel: Kernel,
    before: StoreMut<'_>,
    key: i64,
    value: i64,
    events: Told,
    after: StoreMut<'_>,
) -> bool {
    exists|handle: MemoryHandle, between: StoreMut<'_>, ready: StoreMut<'_>|
        {
            &&& #[trigger] kernel.finds(before, key as u64, Some(handle), between)
            &&& #[trigger] kernel.finds(between, value as u64, None, ready)
            &&& events.len() > 0
            &&& events[0] == HostEventView::HandleNotFound(value)
            &&& was_given_back(kernel, ready, handle, events.skip(1), after)
        }
}

/// Whether there is no block for the name of a variable.
pub open spec fn is_without_name(
    kernel: Kernel,
    before: StoreMut<'_>,
    key: i64,
    value: i64,
    events: Told,
    after: StoreMut<'_>,
) -> bool {
    exists|between: StoreMut<'_>|
        {
            &&& #[trigger] kernel.finds(before, key as u64, None, between)
            &&& events.len() > 0
            &&& events[0] == HostEventView::HandleNotFound(key)
            &&& was_discarded(kernel, between, value, events.skip(1), after)
        }
}

/// Whether the name of a variable is no text, and both blocks were given back.
pub open spec fn was_misnamed(
    kernel: Kernel,
    before: StoreMut<'_>,
    key: i64,
    value: i64,
    events: Told,
    after: StoreMut<'_>,
) -> bool {
    exists|handle: MemoryHandle, ready: StoreMut<'_>|
        #[trigger] are_there(kernel, before, key, value, handle, ready) && (kernel.text_at(
            ready,
            handle,
        ) matches Err(err) && were_given_up(kernel, ready, handle, err, value, events, after))
}

/// Whether two blocks were given back, the first one being unreadable.
pub open spec fn were_given_up(
    kernel: Kernel,
    before: StoreMut<'_>,
    handle: MemoryHandle,
    err: KernelErrorView,
    value: i64,
    events: Told,
    after: StoreMut<'_>,
) -> bool {
    exists|dropping: Told, between: StoreMut<'_>|
        {
            &&& #[trigger] was_given_up(kernel, before, handle, err, dropping, between)
            &&& events.len() >= dropping.len()
            &&& events.take(dropping.len() as int) == dropping
            &&& was_discarded(kernel, between, value, events.skip(dropping.len() as int), after)
        }
}

/// Whether a variable was set to all the bytes of the block at `value`, or removed where `value` is 0. The
/// name is the text in the block at `key`. Both blocks are given back, the one of the value even where it
/// could not be read, and then nothing is set.
pub open spec fn was_set(
    kernel: Kernel,
    before: StoreMut<'_>,
    old_vars: Map<Seq<char>, Seq<u8>>,
    key: i64,
    value: i64,
    name: Seq<char>,
    data: Option<Seq<u8>>,
    new_vars: Map<Seq<char>, Seq<u8>>,
    events: Told,
    after: StoreMut<'_>,
) -> bool {
    exists|giving: Told, between: StoreMut<'_>|
        {
            &&& #[trigger] was_named(kernel, before, key, value, name, giving, between)
            &&& events.len() >= giving.len()
            &&& events.take(giving.len() as int) == giving
            &&& if value == 0 {
                &&& data is None
                &&& new_vars == old_vars.remove(name)
                &&& events == giving
                &&& after == between
            } else {
                &&& was_taken(
                    kernel,
                    between,
                    value,
                    data,
                    events.skip(giving.len() as int),
                    after,
                )
                &&& data matches Some(bytes) ==> new_vars == old_vars.insert(name, bytes)
                &&& data is None ==> new_vars == old_vars
            }
        }
}

/// Whether there was nothing to set, and why.
pub open spec fn was_not_set(
    kernel: Kernel,
    before: StoreMut<'_>,
    key: i64,
    value: i64,
    events: Told,
    after: StoreMut<'_>,
) -> bool {
    ||| is_without_name(kernel, before, key, value, events, after)
    ||| is_without_value(kernel, before, key, value, events, after)
    ||| was_misnamed(kernel, before, key, value, events, after)
}

/// A variable is set to the whole value: all the bytes of the block at `value`, however long the variable
/// was before. A value at offset 0 removes it. No other variable changes. Nothing is set only where there
/// is no name or no value.
pub proof fn variables_are_set_whole(
    kernel: Kernel,
    before: StoreMut<'_>,
    old_vars: Map<Seq<char>, Seq<u8>>,
    key: i64,
    value: i64,
    new_vars: Map<Seq<char>, Seq<u8>>,
    events: Told,
    after: StoreMut<'_>,
)
    requires
        kernel.assigns(before, old_vars, key, value, new_vars, events, after),
    ensures
        was_assigned(kernel, before, old_vars, key, value, new_vars, events, after),
{
    let (found, between) = choose|found: Option<MemoryHandle>, between: StoreMut<'_>| #[trigger]
        kernel.finds(before, key as u64, found, between) && match found {
            None => new_vars == old_vars && exists|rest: Told| #[trigger]
                kernel.discards(between, value, rest, after) && events == host::first(
                    HostEventView::HandleNotFound(key),
                    rest,
                ),
            Some(handle) => kernel.assigns_to(
                between,
                old_vars,
                handle,
                value,
                new_vars,
                events,
                after,
            ),
        };
    match found {
        None => {
            let rest = choose|rest: Told| #[trigger]
                kernel.discards(between, value, rest, after) && events == host::first(
                    HostEventView::HandleNotFound(key),
                    rest,
                );
            discarded_blocks_are_given_back(kernel, between, value, rest, after);
            assert(events.skip(1) =~= rest);
            assert(kernel.finds(before, key as u64, None, between));
            assert(is_without_name(kernel, before, key, value, events, after));
        },
        Some(handle) => {
            named_variables_are_set_whole(
                kernel,
                before,
                old_vars,
                key,
                value,
                handle,
                between,
                new_vars,
                events,
                after,
            );
        },
    }
}

proof fn named_variables_are_set_whole(
    kernel: Kernel,
    before: StoreMut<'_>,
    old_vars: Map<Seq<char>, Seq<u8>>,
    key: i64,
    value: i64,
    handle: MemoryHandle,
    between: StoreMut<'_>,
    new_vars: Map<Seq<char>, Seq<u8>>,
    events: Told,
    after: StoreMut<'_>,
)
    requires
        kernel.finds(before, key as u64, Some(handle), between),
        kernel.assigns_to(between, old_vars, handle, value, new_vars, events, after),
    ensures
        was_assigned(kernel, before, old_vars, key, value, new_vars, events, after),
{
    let (other, ready) = choose|other: Option<MemoryHandle>, ready: StoreMut<'_>| #[trigger]
        kernel.finds(between, value as u64, other, ready) && match other {
            None => new_vars == old_vars && exists|rest: Told| #[trigger]
                kernel.gives_back(ready, handle, rest, after) && events == host::first(
                    HostEventView::HandleNotFound(value),
                    rest,
                ),
            Some(_) => match kernel.text_at(ready, handle) {
                Err(err) => new_vars == old_vars && kernel.drops_both(
                    ready,
                    handle,
                    err,
                    value,
                    events,
                    after,
                ),
                Ok(name) => kernel.assigns_name(
                    ready,
                    old_vars,
                    handle,
                    name,
                    value,
                    new_vars,
                    events,
                    after,
                ),
            },
        };
    match other {
        None => {
            let rest = choose|rest: Told| #[trigger]
                kernel.gives_back(ready, handle, rest, after) && events == host::first(
                    HostEventView::HandleNotFound(value),
                    rest,
                );
            returned_blocks_are_given_back(kernel, ready, handle, rest, after);
            assert(events.skip(1) =~= rest);
            assert(kernel.finds(between, value as u64, None, ready));
            assert(is_without_value(kernel, before, key, value, events, after));
        },
        Some(block) => {
            assert(kernel.finds(between, value as u64, Some(block), ready));
            assert(are_there(kernel, before, key, value, handle, ready));
            match kernel.text_at(ready, handle) {
                Err(err) => {
                    let (dropping, freed) = choose|dropping: Told, freed: StoreMut<'_>| #[trigger]
                        kernel.gives_up(ready, handle, err, dropping, freed) && exists|rest: Told|
                         #[trigger]
                            kernel.discards(freed, value, rest, after) && events == dropping + rest;
                    let rest = choose|rest: Told| #[trigger]
                        kernel.discards(freed, value, rest, after) && events == dropping + rest;
                    blocks_are_given_up(kernel, ready, handle, err, dropping, freed);
                    discarded_blocks_are_given_back(kernel, freed, value, rest, after);
                    assert(events.take(dropping.len() as int) =~= dropping);
                    assert(events.skip(dropping.len() as int) =~= rest);
                    assert(was_given_up(kernel, ready, handle, err, dropping, freed));
                    assert(were_given_up(kernel, ready, handle, err, value, events, after));
                    assert(was_misnamed(kernel, before, key, value, events, after));
                },
                Ok(name) => {
                    let (giving, freed) = choose|giving: Told, freed: StoreMut<'_>| #[trigger]
                        kernel.gives_back(ready, handle, giving, freed) && exists|rest: Told|
                         #[trigger]
                            kernel.assigns_value(
                                freed,
                                old_vars,
                                name,
                                value,
                                new_vars,
                                rest,
                                after,
                            ) && events == giving + rest;
                    let rest = choose|rest: Told| #[trigger]
                        kernel.assigns_value(freed, old_vars, name, value, new_vars, rest, after)
                            && events == giving + rest;
                    returned_blocks_are_given_back(kernel, ready, handle, giving, freed);
                    assert(was_named(kernel, before, key, value, name, giving, freed));
                    assert(events.take(giving.len() as int) =~= giving);
                    assert(events.skip(giving.len() as int) =~= rest);
                    let data = if value == 0 {
                        None
                    } else {
                        choose|data: Option<Seq<u8>>| #[trigger]
                            kernel.takes_bytes(freed, value, data, rest, after) && new_vars
                                == match data {
                                None => old_vars,
                                Some(bytes) => old_vars.insert(name, bytes),
                            }
                    };
                    if value != 0 {
                        taken_bytes_are_whole(kernel, freed, value, data, rest, after);
                    } else {
                        assert(events =~= giving);
                    }
                    assert(was_set(
                        kernel,
                        before,
                        old_vars,
                        key,
                        value,
                        name,
                        data,
                        new_vars,
                        events,
                        after,
                    ));
                },
            }
        },
    }
}

/// Whether a variable was set or removed, or there was nothing to set.
pub open spec fn was_assigned(
    kernel: Kernel,
    before: StoreMut<'_>,
    old_vars: Map<Seq<char>, Seq<u8>>,
    key: i64,
    value: i64,
    new_vars: Map<Seq<char>, Seq<u8>>,
    events: Told,
    after: StoreMut<'_>,
) -> bool {
    ||| new_vars == old_vars && was_not_set(kernel, before, key, value, events, after)
    ||| exists|name: Seq<char>, data: Option<Seq<u8>>| #[trigger]
        was_set(kernel, before, old_vars, key, value, name, data, new_vars, events, after)
}

/// What was set is what is looked up later: after a variable is set, looking its name up hands out all the
/// bytes that were in the block, whatever the variable held before; after it is removed, there is none.
/// Looking another name up gives what it gave before.
pub proof fn variables_are_read_back_whole(
    kernel: Kernel,
    before: StoreMut<'_>,
    old_vars: Map<Seq<char>, Seq<u8>>,
    key: i64,
    value: i64,
    new_vars: Map<Seq<char>, Seq<u8>>,
    events: Told,
    between: StoreMut<'_>,
    later: StoreMut<'_>,
    asked: i64,
    place: i64,
    heard: Told,
    after: StoreMut<'_>,
)
    requires
        forall|name: Seq<char>|
            new_vars.contains_key(name) ==> (#[trigger] new_vars[name]).len() <= u64::MAX,
        kernel.assigns(before, old_vars, key, value, new_vars, events, between),
        kernel.looks_up(later, new_vars, host::no_var(), asked, place, heard, after),
    ensures
        (new_vars == old_vars && was_not_set(kernel, before, key, value, events, between)) || exists|
            name: Seq<char>,
            data: Option<Seq<u8>>,
        |
            {
                &&& #[trigger] was_set(
                    kernel,
                    before,
                    old_vars,
                    key,
                    value,
                    name,
                    data,
                    new_vars,
                    events,
                    between,
                )
                &&& data is Some || value == 0 ==> was_looked_up(
                    kernel,
                    later,
                    |wanted: Seq<char>|
                        if wanted == name {
                            data
                        } else if old_vars.contains_key(wanted) {
                            Some(old_vars[wanted])
                        } else {
                            None
                        },
                    |wanted: Seq<char>| HostEventView::VarNotFound(wanted),
                    asked,
                    place,
                    heard,
                    after,
                )
            },
{
    variables_are_set_whole(kernel, before, old_vars, key, value, new_vars, events, between);
    variables_are_handed_out_whole(kernel, later, new_vars, asked, place, heard, after);
    if !(new_vars == old_vars && was_not_set(kernel, before, key, value, events, between)) {
        let (name, data) = choose|name: Seq<char>, data: Option<Seq<u8>>| #[trigger]
            was_set(
                kernel,
                before,
                old_vars,
                key,
                value,
                name,
                data,
                new_vars,
                events,
                between,
            );
        if data is Some || value == 0 {
            let given = |wanted: Seq<char>|
                if new_vars.contains_key(wanted) {
                    Some(new_vars[wanted])
                } else {
                    None
                };
            let expected = |wanted: Seq<char>|
                if wanted == name {
                    data
                } else if old_vars.contains_key(wanted) {
                    Some(old_vars[wanted])
                } else {
                    None
                };
            assert(given =~= expected);
        }
    }
}

/// Whether a request and its body were taken over, or why not. A body at offset 0 is empty, and one in the
/// block of the request is the request.
pub open spec fn request_was_taken(
    kernel: Kernel,
    before: StoreMut<'_>,
    url: i64,
    body: i64,
    request: Option<Seq<u8>>,
    content: Option<Seq<u8>>,
    events: Told,
    after: StoreMut<'_>,
) -> bool {
    if body == 0 {
        was_taken(kernel, before, url, request, events, after) && content == Some(
            Seq::<u8>::empty(),
        )
    } else if body == url {
        was_taken(kernel, before, url, request, events, after) && content == request
    } else {
        exists|taking: Told, between: StoreMut<'_>|
            {
                &&& #[trigger] was_taken(kernel, before, url, request, taking, between)
                &&& events.len() >= taking.len()
                &&& events.take(taking.len() as int) == taking
                &&& was_taken(
                    kernel,
                    between,
                    body,
                    content,
                    events.skip(taking.len() as int),
                    after,
                )
            }
    }
}

/// Whether a request and its body were taken over as they are, or why not.
pub open spec fn was_taken_over(
    kernel: Kernel,
    before: StoreMut<'_>,
    url: i64,
    body: i64,
    taken: Option<(Seq<u8>, Seq<u8>)>,
    events: Told,
    after: StoreMut<'_>,
) -> bool {
    exists|request: Option<Seq<u8>>, content: Option<Seq<u8>>|
        {
            &&& #[trigger] request_was_taken(
                kernel,
                before,
                url,
                body,
                request,
                content,
                events,
                after,
            )
            &&& request is Some && content is Some ==> taken == Some((request->0, content->0))
            &&& request is None || content is None ==> taken is None
        }
}

/// A request and its body are taken over whole.
pub proof fn requests_are_taken_whole(
    kernel: Kernel,
    before: StoreMut<'_>,
    url: i64,
    body: i64,
    taken: Option<(Seq<u8>, Seq<u8>)>,
    events: Told,
    after: StoreMut<'_>,
)
    requires
        kernel.takes_request(before, url, body, taken, events, after),
    ensures
        was_taken_over(kernel, before, url, body, taken, events, after),
{
    let (request, taking, between) = choose|
        request: Option<Seq<u8>>,
        taking: Told,
        between: StoreMut<'_>,
    | #[trigger]
        kernel.takes_bytes(before, url, request, taking, between) && if body == 0 {
            &&& taken == host::with_body(request, Some(Seq::empty()))
            &&& events == taking
            &&& after == between
        } else if body == url {
            taken == host::with_body(request, request) && events == taking && after == between
        } else {
            kernel.takes_body(between, request, taking, body, taken, events, after)
        };
    taken_bytes_are_whole(kernel, before, url, request, taking, between);
    let content = if body == 0 {
        Some(Seq::<u8>::empty())
    } else if body == url {
        request
    } else {
        let (content, rest) = choose|content: Option<Seq<u8>>, rest: Told| #[trigger]
            kernel.takes_bytes(between, body, content, rest, after) && taken == host::with_body(
                request,
                content,
            ) && events == taking + rest;
        taken_bytes_are_whole(kernel, between, body, content, rest, after);
        assert(events.take(taking.len() as int) =~= taking);
        assert(events.skip(taking.len() as int) =~= rest);
        content
    };
    assert(request_was_taken(kernel, before, url, body, request, content, events, after));
}

/// Whether the answer to a request was passed on: its body is handed out whole, and it is the last answer
/// from then on. Where there is none, that is told, and there is no last answer any more.
pub open spec fn was_answered(
    kernel: Kernel,
    before: StoreMut<'_>,
    answer: Result<AnswerView, ()>,
    place: i64,
    new_last: Option<AnswerView>,
    events: Told,
    after: StoreMut<'_>,
) -> bool {
    match answer {
        Ok(answer) => was_handed_out(kernel, before, answer.body, place, events, after)
            && new_last == Some(answer),
        Err(_) => {
            &&& place == 0
            &&& new_last is None
            &&& events == seq![HostEventView::RequestFailed]
            &&& after == before
        },
    }
}

/// The body of an answer is handed out whole.
pub proof fn answers_are_passed_on_whole(
    kernel: Kernel,
    before: StoreMut<'_>,
    answer: Result<AnswerView, ()>,
    place: i64,
    new_last: Option<AnswerView>,
    events: Told,
    after: StoreMut<'_>,
)
    requires
        answer matches Ok(answer) ==> answer.body.len() <= u64::MAX,
        kernel.hands_answer_out(before, answer, place, new_last, events, after),
    ensures
        was_answered(kernel, before, answer, place, new_last, events, after),
{
    if let Ok(answer) = answer {
        data_is_handed_out_whole(kernel, before, answer.body, place, events, after);
    }
}

/// Whether a request was sent and answered: what was sent are the whole request and the whole body.
pub open spec fn was_sent(
    kernel: Kernel,
    before: StoreMut<'_>,
    request: (Seq<u8>, Seq<u8>),
    replies: spec_fn((Seq<u8>, Seq<u8>), Result<AnswerView, ()>) -> bool,
    place: i64,
    new_last: Option<AnswerView>,
    events: Told,
    after: StoreMut<'_>,
) -> bool {
    exists|answer: Result<AnswerView, ()>|
        replies(request, answer) && #[trigger] was_answered(
            kernel,
            before,
            answer,
            place,
            new_last,
            events,
            after,
        )
}

/// Whether a request was taken over and sent, or there was nothing to send.
pub open spec fn was_requested(
    kernel: Kernel,
    before: StoreMut<'_>,
    old_last: Option<AnswerView>,
    url: i64,
    body: i64,
    replies: spec_fn((Seq<u8>, Seq<u8>), Result<AnswerView, ()>) -> bool,
    place: i64,
    new_last: Option<AnswerView>,
    events: Told,
    after: StoreMut<'_>,
) -> bool {
    exists|
        request: Option<Seq<u8>>,
        content: Option<Seq<u8>>,
        taking: Told,
        between: StoreMut<'_>,
    |
        {
            &&& #[trigger] request_was_taken(
                kernel,
                before,
                url,
                body,
                request,
                content,
                taking,
                between,
            )
            &&& events.len() >= taking.len()
            &&& events.take(taking.len() as int) == taking
            &&& request is Some && content is Some ==> was_sent(
                kernel,
                between,
                (request->0, content->0),
                replies,
                place,
                new_last,
                events.skip(taking.len() as int),
                after,
            )
            &&& request is None || content is None ==> {
                &&& place == 0
                &&& new_last == old_last
                &&& events == taking
                &&& after == between
            }
        }
}

/// A request is sent whole, with its whole body, and its answer passed on. Nothing is sent only where one
/// of the two could not be taken over, and then the last answer stays.
pub proof fn requests_are_sent_whole(
    kernel: Kernel,
    before: StoreMut<'_>,
    old_last: Option<AnswerView>,
    url: i64,
    body: i64,
    replies: spec_fn((Seq<u8>, Seq<u8>), Result<AnswerView, ()>) -> bool,
    place: i64,
    new_last: Option<AnswerView>,
    events: Told,
    after: StoreMut<'_>,
)
    requires
        forall|request: (Seq<u8>, Seq<u8>), answer: AnswerView| #[trigger]
            replies(request, Ok(answer)) ==> answer.body.len() <= u64::MAX,
        kernel.requests(
            before,
            old_last,
            url,
            body,
            replies,
            place,
            new_last,
            events,
            after,
        ),
    ensures
        was_requested(
            kernel,
            before,
            old_last,
            url,
            body,
            replies,
            place,
            new_last,
            events,
            after,
        ),
{
    let (taken, taking, between) = choose|
        taken: Option<(Seq<u8>, Seq<u8>)>,
        taking: Told,
        between: StoreMut<'_>,
    | #[trigger]
        kernel.takes_request(before, url, body, taken, taking, between) && match taken {
            None => {
                &&& place == 0
                &&& new_last == old_last
                &&& events == taking
                &&& after == between
            },
            Some(request) => kernel.sends(
                between,
                request,
                taking,
                replies,
                place,
                new_last,
                events,
                after,
            ),
        };
    requests_are_taken_whole(kernel, before, url, body, taken, taking, between);
    let (request, content) = choose|request: Option<Seq<u8>>, content: Option<Seq<u8>>|
        {
            &&& #[trigger] request_was_taken(
                kernel,
                before,
                url,
                body,
                request,
                content,
                taking,
                between,
            )
            &&& request is Some && content is Some ==> taken == Some((request->0, content->0))
            &&& request is None || content is None ==> taken is None
        };
    if let Some(asked) = taken {
        let (answer, rest) = choose|answer: Result<AnswerView, ()>, rest: Told| #[trigger]
            kernel.hands_answer_out(between, answer, place, new_last, rest, after) && replies(
                asked,
                answer,
            ) && events == taking + rest;
        assert(events.skip(taking.len() as int) =~= rest);
        if let Ok(got) = answer {
            assert(replies(asked, Ok(got)));
        }
        answers_are_passed_on_whole(kernel, between, answer, place, new_last, rest, after);
        assert(was_answered(kernel, between, answer, place, new_last, rest, after));
    }
    assert(events.take(taking.len() as int) =~= taking);
}

/// The headers of the last answer are handed out whole. Where there is no answer, nothing is done.
pub proof fn headers_are_handed_out_whole(
    kernel: Kernel,
    before: StoreMut<'_>,
    last: Option<AnswerView>,
    place: i64,
    events: Told,
    after: StoreMut<'_>,
)
    requires
        last matches Some(answer) ==> answer.headers.len() <= u64::MAX,
        kernel.hands_headers_out(before, last, place, events, after),
    ensures
        match last {
            Some(answer) => was_handed_out(kernel, before, answer.headers, place, events, after),
            None => place == 0 && events == Seq::<HostEventView>::empty() && after == before,
        },
{
    if let Some(answer) = last {
        data_is_handed_out_whole(kernel, before, answer.headers, place, events, after);
    }
}

} // verus!
