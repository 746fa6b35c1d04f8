//! What modules and plugins are had from.
use crate::errors::LoadProblem;
use crate::load::{PluginInput, WasmSource};
use crate::names;
use crate::wasm_input::{self, HttpRequest, Manifest, Wasm, WasmInput};
use std::borrow::Cow;
use std::path::PathBuf;
use vstd::prelude::*;
use vstd::std_specs::convert::FromSpec;
use vstd::utf8::*;

verus! {

/// A request is made by the method that it names, else by `GET`.
pub proof fn requests_have_a_method(req: HttpRequest)
    ensures
        req.method matches Some(method) ==> wasm_input::method_of(req) == method@,
        req.method is None ==> wasm_input::method_of(req) == "GET"@,
{
}

/// Whether the first headers in an order are all valid.
pub open spec fn are_valid(
    headers: Map<Seq<char>, String>,
    order: Seq<Seq<char>>,
    count: int,
) -> bool {
    forall|j: int|
        0 <= j < count ==> wasm_input::is_header_name(#[trigger] order[j])
            && wasm_input::is_header_value(headers[order[j]]@)
}

/// Nothing is wrong with headers just where all of them are valid. What is wrong is told of the first one
/// that is not, and of its name before its value.
pub proof fn the_first_bad_header_is_told(
    headers: Map<Seq<char>, String>,
    order: Seq<Seq<char>>,
    count: nat,
)
    requires
        count <= order.len(),
    ensures
        wasm_input::header_problem(headers, order, count) is None <==> are_valid(
            headers,
            order,
            count as int,
        ),
        wasm_input::header_problem(headers, order, count) matches Some(problem) ==> exists|i: int|
            {
                &&& 0 <= i < count
                &&& are_valid(headers, order, i)
                &&& !wasm_input::is_header_name(#[trigger] order[i]) ==> problem
                    == LoadProblem::InvalidHeaderName
                &&& wasm_input::is_header_name(order[i]) ==> problem
                    == LoadProblem::InvalidHeaderValue && !wasm_input::is_header_value(
                    headers[order[i]]@,
                )
            },
    decreases count,
{
    if count > 0 {
        the_first_bad_header_is_told(headers, order, (count - 1) as nat);
        let last = order[count - 1];
        if are_valid(headers, order, count - 1) {
            assert(are_valid(headers, order, count as int) <==> wasm_input::is_header_name(last)
                && wasm_input::is_header_value(headers[last]@));
        } else {
            let i = choose|i: int|
                {
                    &&& 0 <= i < count - 1
                    &&& are_valid(headers, order, i)
                    &&& !wasm_input::is_header_name(#[trigger] order[i])
                        ==> wasm_input::header_problem(headers, order, (count - 1) as nat) == Some(
                        LoadProblem::InvalidHeaderName,
                    )
                    &&& wasm_input::is_header_name(order[i]) ==> wasm_input::header_problem(
                        headers,
                        order,
                        (count - 1) as nat,
                    ) == Some(LoadProblem::InvalidHeaderValue) && !wasm_input::is_header_value(
                        headers[order[i]]@,
                    )
                };
            assert(order[i] == order[i]);
            assert(!are_valid(headers, order, count as int));
        }
    }
}

/// A request can be made just where its method is a token and every one of its headers has a valid name and a
/// valid value.
pub proof fn valid_requests_can_be_made(req: HttpRequest)
    requires
        names::in_order(req.headers.names()),
        req.headers.names().to_set() == req.headers@.dom(),
    ensures
        wasm_input::request_problem(req) is None <==> {
            &&& req.method matches Some(method) ==> wasm_input::is_token(method@)
            &&& forall|name: Seq<char>| #[trigger]
                req.headers@.contains_key(name) ==> wasm_input::is_header_name(name)
                    && wasm_input::is_header_value(req.headers@[name]@)
        },
        wasm_input::request_problem(req) == Some(LoadProblem::InvalidHttpMethod) <==> (
        req.method matches Some(method) && !wasm_input::is_token(method@)),
{
    let order = req.headers.names();
    the_first_bad_header_is_told(req.headers@, order, order.len());
    get_is_a_token();
    assert forall|i: int| 0 <= i < order.len() implies req.headers@.contains_key(
        #[trigger] order[i],
    ) by {
        assert(order.to_set().contains(order[i]));
    }
    assert forall|name: Seq<char>| #[trigger] req.headers@.contains_key(name) implies exists|i: int|
        0 <= i < order.len() && order[i] == name by {
        assert(order.to_set().contains(name));
        let i = order.index_of(name);
        assert(order[i] == name);
    }
    if are_valid(req.headers@, order, order.len() as int) {
        assert forall|name: Seq<char>| #[trigger] req.headers@.contains_key(
            name,
        ) implies wasm_input::is_header_name(name) && wasm_input::is_header_value(
            req.headers@[name]@,
        ) by {
            let i = choose|i: int| 0 <= i < order.len() && order[i] == name;
            assert(order[i] == name);
        }
    } else {
        let i = choose|i: int|
            0 <= i < order.len() && !(wasm_input::is_header_name(#[trigger] order[i])
                && wasm_input::is_header_value(req.headers@[order[i]]@));
        assert(req.headers@.contains_key(order[i]));
    }
}

proof fn get_is_a_token()
    ensures
        wasm_input::is_token("GET"@),
{
    reveal_strlit("GET");
    assert("GET"@.len() == 3);
    assert forall|i: int| 0 <= i < "GET"@.len() implies wasm_input::is_token_char(
        #[trigger] "GET"@[i],
    ) by {
        assert(i == 0 || i == 1 || i == 2);
    }
}

/// What is said of a module besides its bytes is what its description says, wherever the bytes are had from.
pub proof fn descriptions_are_kept(wasm: Wasm)
    ensures
        match wasm {
            Wasm::File { path: _, meta } => wasm.metadata() == meta,
            Wasm::Data { data: _, meta } => wasm.metadata() == meta,
            Wasm::Url { req: _, meta } => wasm.metadata() == meta,
        },
{
}

/// The bytes of a module that an input holds.
pub open spec fn given_bytes(data: Cow<'_, [u8]>) -> Seq<u8> {
    match data {
        Cow::Borrowed(data) => data@,
        Cow::Owned(data) => data@,
    }
}

/// The manifest that an input holds.
pub open spec fn given_manifest(manifest: Cow<'_, Manifest>) -> Manifest {
    match manifest {
        Cow::Borrowed(manifest) => *manifest,
        Cow::Owned(manifest) => manifest,
    }
}

/// A plugin is loaded from all the bytes of its module, or from all the modules of its manifest, in their
/// order, and the whole configuration.
pub proof fn inputs_are_loaded_whole(
    input: WasmInput<'_>,
    fetched: Seq<WasmSource>,
    loadable: PluginInput,
)
    requires
        wasm_input::is_loadable(input, fetched, loadable),
    ensures
        match (input, loadable) {
            (WasmInput::Data(data), PluginInput::Data(kept)) => kept@ == given_bytes(data),
            (
                WasmInput::Manifest(manifest),
                PluginInput::Manifest { wasm, config },
            ) => wasm@ == fetched && config@ == given_manifest(manifest).config@,
            _ => false,
        },
{
}

/// What becomes an input is held by it whole.
pub proof fn inputs_hold_what_they_are_made_of(
    manifest: Manifest,
    borrowed: &Manifest,
    bytes: &[u8],
    data: Vec<u8>,
)
    ensures
        <WasmInput<'_> as FromSpec<Manifest>>::from_spec(manifest) matches WasmInput::Manifest(held)
            && given_manifest(held) == manifest,
        <WasmInput<'_> as FromSpec<&Manifest>>::from_spec(borrowed) matches WasmInput::Manifest(
            held,
        ) && given_manifest(held) == *borrowed,
        <WasmInput<'_> as FromSpec<&[u8]>>::from_spec(bytes) matches WasmInput::Data(held)
            && given_bytes(held) == bytes@,
        <WasmInput<'_> as FromSpec<Vec<u8>>>::from_spec(data) matches WasmInput::Data(held)
            && given_bytes(held) == data@,
{
}

/// A file as an input is a manifest of one module, which is in that file, bears no other name than its own, and
/// has no configuration.
pub proof fn files_are_manifests_of_one_module(input: WasmInput<'_>, path: PathBuf)
    requires
        wasm_input::is_file(input, path),
    ensures
        match input {
            WasmInput::Manifest(manifest) => {
                &&& given_manifest(manifest).wasm@.len() == 1
                &&& given_manifest(manifest).wasm@[0] matches Wasm::File { path: kept, meta } && kept
                    == path && meta.name is None && meta.hash is None
                &&& forall|name: Seq<char>| !(
                #[trigger] given_manifest(manifest).config@.contains_key(name))
            },
            WasmInput::Data(_) => false,
        },
{
}

/// Bytes and texts that become an input are held by it whole, a text by its encoding.
pub proof fn borrowed_data_is_held_whole<'a>(
    data: &'a Vec<u8>,
    text: &'a str,
    of_data: WasmInput<'a>,
    of_text: WasmInput<'a>,
)
    requires
        call_ensures(<WasmInput<'a> as From<&'a Vec<u8>>>::from, (data,), of_data),
        call_ensures(<WasmInput<'a> as From<&'a str>>::from, (text,), of_text),
    ensures
        of_data matches WasmInput::Data(held) && given_bytes(held) == data@,
        of_text matches WasmInput::Data(held) && given_bytes(held) == encode_utf8(text@),
{
}

/// An input that is a file holds just that file.
pub proof fn file_inputs_hold_the_file(path: PathBuf, input: WasmInput<'_>)
    requires
        call_ensures(WasmInput::<'_>::file, (path,), input),
    ensures
        match input {
            WasmInput::Manifest(manifest) => {
                &&& given_manifest(manifest).wasm@.len() == 1
                &&& given_manifest(manifest).wasm@[0] matches Wasm::File { path: kept, meta } && kept
                    == path && meta.name is None && meta.hash is None
                &&& forall|name: Seq<char>| !(
                #[trigger] given_manifest(manifest).config@.contains_key(name))
            },
            WasmInput::Data(_) => false,
        },
{
}

} // verus!
