//! That what contracts say of results and events is said of all of them, and of what they are.
use crate::engine::{self, ExportError, ExportErrorView, ImportSpec};
use crate::errors::{
    self, ContextGoneError, ConvertError, ConvertErrorView, KernelError, KernelErrorView,
    LinkProblem, LoadProblem, PluginInstantiationError, PluginLoadError, PluginRunError,
    RunProblem,
};
use crate::function::{self, FetchInError, FetchProblem};
use crate::host::{self, HostEvent, HostEventView, HttpAnswer};
use crate::kernel;
use crate::link;
use crate::load;
use crate::plugin;
use vstd::prelude::*;
use vstd::std_specs::convert::FromSpec;

verus! {

/// The failure of an operation of a kernel is seen as what it is.
pub proof fn kernel_errors_are_seen(err: KernelError)
    ensures
        match err {
            KernelError::OutOfMemory => err@ == KernelErrorView::OutOfMemory,
            KernelError::MemoryAccess(inner) => err@ == KernelErrorView::MemoryAccess(inner),
            KernelError::Runtime(inner) => err@ == KernelErrorView::Runtime(inner),
            KernelError::Extism(inner) => err@ == KernelErrorView::Extism(inner),
            KernelError::ContextGone => err@ == KernelErrorView::ContextGone,
            KernelError::FromUtf8Error(inner) => err@ == KernelErrorView::FromUtf8Error(
                errors::refused_bytes(inner),
            ),
            KernelError::Export(ExportError::IncompatibleType) => err@ == KernelErrorView::Export(
                ExportErrorView::IncompatibleType,
            ),
            KernelError::Export(ExportError::Missing(name)) => err@ == KernelErrorView::Export(
                ExportErrorView::Missing(name@),
            ),
        },
        errors::kernel_result(Err::<(), KernelError>(err)) == Err::<(), KernelErrorView>(err@),
{
}

/// The failure of a conversion is seen as what it is.
pub proof fn convert_errors_are_seen(err: ConvertError)
    ensures
        match err {
            ConvertError::Kernel(inner) => err@ == ConvertErrorView::Kernel(inner@),
            ConvertError::Convert(inner) => err@ == ConvertErrorView::Convert(inner),
        },
{
}

/// The failure of linking is seen as what it is.
pub proof fn link_errors_are_seen(err: PluginInstantiationError)
    ensures
        match err {
            PluginInstantiationError::Wasmer(inner) => err@ == LinkProblem::Wasmer(inner),
            PluginInstantiationError::NonFunctionKernelAccess => err@
                == LinkProblem::NonFunctionKernelAccess,
            PluginInstantiationError::Export(ExportError::IncompatibleType) => err@
                == LinkProblem::Export(ExportErrorView::IncompatibleType),
            PluginInstantiationError::Export(ExportError::Missing(name)) => err@
                == LinkProblem::Export(ExportErrorView::Missing(name@)),
            PluginInstantiationError::MissingExport(module, name) => err@
                == LinkProblem::MissingExport(module@, name@),
            PluginInstantiationError::CyclicDependency => err@ == LinkProblem::CyclicDependency,
            PluginInstantiationError::IncompatibleType(module, name) => err@
                == LinkProblem::IncompatibleType(module@, name@),
            PluginInstantiationError::Memory(inner) => err@ == LinkProblem::Memory(inner),
        },
        errors::link_result(Err::<(), PluginInstantiationError>(err)) == Err::<(), LinkProblem>(
            err@,
        ),
{
}

/// The failure of loading is seen as what it is.
pub proof fn load_errors_are_seen(err: PluginLoadError)
    ensures
        match err {
            PluginLoadError::InvalidHeaderName => err@ == LoadProblem::InvalidHeaderName,
            PluginLoadError::InvalidHeaderValue => err@ == LoadProblem::InvalidHeaderValue,
            PluginLoadError::InvalidHttpMethod => err@ == LoadProblem::InvalidHttpMethod,
            PluginLoadError::CompileError(inner) => err@ == LoadProblem::CompileError(inner),
            PluginLoadError::Instantiation(inner) => err@ == LoadProblem::Instantiation(inner@),
            PluginLoadError::NotSupportedOnWeb => err@ == LoadProblem::NotSupportedOnWeb,
        },
{
}

/// The failure of a call is seen as what it is.
pub proof fn run_errors_are_seen(err: PluginRunError)
    ensures
        match err {
            PluginRunError::ContextGone => err@ == RunProblem::ContextGone,
            PluginRunError::Context(inner) => err@ == RunProblem::Context(inner@),
            PluginRunError::NoMainModule => err@ == RunProblem::NoMainModule,
            PluginRunError::Export(ExportError::IncompatibleType) => err@ == RunProblem::Export(
                ExportErrorView::IncompatibleType,
            ),
            PluginRunError::Export(ExportError::Missing(name)) => err@ == RunProblem::Export(
                ExportErrorView::Missing(name@),
            ),
            PluginRunError::Runtime(inner) => err@ == RunProblem::Runtime(inner),
            PluginRunError::OutputHandleNotFound => err@ == RunProblem::OutputHandleNotFound,
            PluginRunError::Failed(code) => err@ == RunProblem::Failed(code),
            PluginRunError::Extism(inner) => err@ == RunProblem::Extism(inner@),
        },
        plugin::run_result(Err::<(), PluginRunError>(err)) == Err::<(), RunProblem>(err@),
        plugin::run_result(Ok::<(), PluginRunError>(())) == Ok::<(), RunProblem>(()),
{
}

/// That a context is gone stays that when it becomes another error.
pub proof fn gone_contexts_stay_gone(err: ContextGoneError)
    ensures
        <KernelError as FromSpec<ContextGoneError>>::from_spec(err) == KernelError::ContextGone,
        <PluginRunError as FromSpec<ContextGoneError>>::from_spec(err)
            == PluginRunError::ContextGone,
{
}

/// Why an input could not be had is seen as what it is.
pub proof fn fetch_errors_are_seen(err: FetchInError)
    ensures
        match err {
            FetchInError::HandleNotFound(input) => err@ == FetchProblem::HandleNotFound(input),
            FetchInError::Access(inner) => err@ == FetchProblem::Access(inner@),
            FetchInError::Runtime(inner) => err@ == FetchProblem::Runtime(inner@),
        },
{
}

/// Events are seen as what they are, each of them once and in their order.
pub proof fn events_are_seen(events: Seq<HostEvent>)
    ensures
        host::told(events).len() == events.len(),
        forall|i: int|
            0 <= i < events.len() ==> match #[trigger] events[i] {
                HostEvent::Message(level, text) => host::told(events)[i] == HostEventView::Message(
                    level,
                    text@,
                ),
                HostEvent::HandleNotFound(offset) => host::told(events)[i]
                    == HostEventView::HandleNotFound(offset),
                HostEvent::MemoryAccess(err) => host::told(events)[i]
                    == HostEventView::MemoryAccess(err@),
                HostEvent::NotFreed(err) => host::told(events)[i] == HostEventView::NotFreed(err@),
                HostEvent::ConfigNotFound(key) => host::told(events)[i]
                    == HostEventView::ConfigNotFound(key@),
                HostEvent::VarNotFound(key) => host::told(events)[i] == HostEventView::VarNotFound(
                    key@,
                ),
                HostEvent::RequestFailed => host::told(events)[i] == HostEventView::RequestFailed,
            },
{
}

/// The answer to a request is seen whole.
pub proof fn answers_are_seen(answer: HttpAnswer)
    ensures
        answer@.status == answer.status,
        answer@.headers == answer.headers@,
        answer@.body == answer.body@,
        host::last_answer(Some(answer)) == Some(answer@),
        host::last_answer(None) is None,
        host::reply(Ok(answer)) == Ok::<host::AnswerView, ()>(answer@),
        host::reply(Err(())) is Err,
{
}

/// Lists are seen whole, and in their order.
pub proof fn lists_are_seen(strings: Seq<String>, imports: Seq<ImportSpec>)
    ensures
        link::texts(strings).len() == strings.len(),
        forall|i: int|
            0 <= i < strings.len() ==> link::texts(strings)[i] == (#[trigger] strings[i])@,
        link::views(imports).len() == imports.len(),
        forall|i: int|
            0 <= i < imports.len() ==> {
                &&& link::views(imports)[i].module == (#[trigger] imports[i]).module@
                &&& link::views(imports)[i].name == imports[i].name@
                &&& link::views(imports)[i].shape == engine::extern_shape(imports[i].ty)
            },
{
}

/// Encoded values and names are seen whole.
pub proof fn bytes_and_names_are_seen(
    encoded: Result<Vec<u8>, extism_convert::Error>,
    name: Option<String>,
)
    ensures
        match encoded {
            Ok(data) => kernel::encoded_bytes(encoded) == Ok::<Seq<u8>, extism_convert::Error>(
                data@,
            ),
            Err(err) => kernel::encoded_bytes(encoded) == Err::<Seq<u8>, extism_convert::Error>(
                err,
            ),
        },
        match name {
            Some(text) => load::name_text(name) == Some(text@),
            None => load::name_text(name) is None,
        },
{
}

} // verus!
