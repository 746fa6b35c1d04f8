//! What can go wrong.
use crate::engine::{ExportError, ExportErrorView, MemoryAccessError};
use vstd::prelude::*;
use wasmer::{CompileError, InstantiationError, MemoryError, RuntimeError};

verus! {

/// Why a value could not be turned into bytes, or bytes into a value.
#[verifier::external_type_specification]
#[verifier::external_body]
pub struct ExConvertError(extism_convert::Error);

/// Why bytes are no text.
#[verifier::external_type_specification]
#[verifier::external_body]
pub struct ExFromUtf8Error(std::string::FromUtf8Error);

/// The bytes that are no text.
pub uninterp spec fn refused_bytes(err: std::string::FromUtf8Error) -> Seq<u8>;

/// Why something that belongs to a context cannot be used.
#[derive(Clone, Copy, PartialEq, Eq, Structural, Debug)]
pub enum ContextGoneError {
    /// The context at hand is not the one that it belongs to.
    ContextGone,
}

/// Why an operation of the kernel failed.
#[derive(Debug)]
pub enum KernelError {
    OutOfMemory,
    MemoryAccess(MemoryAccessError),
    Runtime(RuntimeError),
    Extism(extism_convert::Error),
    ContextGone,
    FromUtf8Error(std::string::FromUtf8Error),
    Export(ExportError),
}

/// A [`KernelError`] up to the identity of the strings in it.
pub enum KernelErrorView {
    OutOfMemory,
    MemoryAccess(MemoryAccessError),
    Runtime(RuntimeError),
    Extism(extism_convert::Error),
    ContextGone,
    FromUtf8Error(Seq<u8>),
    Export(ExportErrorView),
}

impl View for KernelError {
    type V = KernelErrorView;

    open spec fn view(&self) -> KernelErrorView {
        match self {
            KernelError::OutOfMemory => KernelErrorView::OutOfMemory,
            KernelError::MemoryAccess(err) => KernelErrorView::MemoryAccess(*err),
            KernelError::Runtime(err) => KernelErrorView::Runtime(*err),
            KernelError::Extism(err) => KernelErrorView::Extism(*err),
            KernelError::ContextGone => KernelErrorView::ContextGone,
            KernelError::FromUtf8Error(err) => KernelErrorView::FromUtf8Error(refused_bytes(*err)),
            KernelError::Export(err) => KernelErrorView::Export(err@),
        }
    }
}

impl From<ContextGoneError> for KernelError {
    fn from(err: ContextGoneError) -> (result: Self) {
        match err {
            ContextGoneError::ContextGone => KernelError::ContextGone,
        }
    }
}

impl vstd::std_specs::convert::FromSpecImpl<ContextGoneError> for KernelError {
    open spec fn obeys_from_spec() -> bool {
        true
    }

    open spec fn from_spec(err: ContextGoneError) -> Self {
        KernelError::ContextGone
    }
}

/// Why a value could not be had from the memory of a plugin.
#[derive(Debug)]
pub enum ConvertError {
    /// The bytes could not be read.
    Kernel(KernelError),
    /// The bytes do not stand for such a value.
    Convert(extism_convert::Error),
}

/// A [`ConvertError`] up to the identity of the strings in it.
pub enum ConvertErrorView {
    Kernel(KernelErrorView),
    Convert(extism_convert::Error),
}

impl View for ConvertError {
    type V = ConvertErrorView;

    open spec fn view(&self) -> ConvertErrorView {
        match self {
            ConvertError::Kernel(err) => ConvertErrorView::Kernel(err@),
            ConvertError::Convert(err) => ConvertErrorView::Convert(*err),
        }
    }
}

/// Why the modules of a plugin could not be linked and started.
#[derive(Debug)]
pub enum PluginInstantiationError {
    Wasmer(InstantiationError),
    /// Linked modules cannot access non-function exports of the kernel.
    NonFunctionKernelAccess,
    Export(ExportError),
    /// A dependency, and the export that it lacks.
    MissingExport(String, String),
    CyclicDependency,
    /// A namespace, and the extern in it whose type does not fit.
    IncompatibleType(String, String),
    Memory(MemoryError),
}

/// A [`PluginInstantiationError`] up to the identity of the strings in it.
pub enum LinkProblem {
    Wasmer(InstantiationError),
    NonFunctionKernelAccess,
    Export(ExportErrorView),
    MissingExport(Seq<char>, Seq<char>),
    CyclicDependency,
    IncompatibleType(Seq<char>, Seq<char>),
    Memory(MemoryError),
}

impl View for PluginInstantiationError {
    type V = LinkProblem;

    open spec fn view(&self) -> LinkProblem {
        match self {
            PluginInstantiationError::Wasmer(err) => LinkProblem::Wasmer(*err),
            PluginInstantiationError::NonFunctionKernelAccess => {
                LinkProblem::NonFunctionKernelAccess
            },
            PluginInstantiationError::Export(err) => LinkProblem::Export(err@),
            PluginInstantiationError::MissingExport(module, name) => LinkProblem::MissingExport(
                module@,
                name@,
            ),
            PluginInstantiationError::CyclicDependency => LinkProblem::CyclicDependency,
            PluginInstantiationError::IncompatibleType(module, name) => {
                LinkProblem::IncompatibleType(module@, name@)
            },
            PluginInstantiationError::Memory(err) => LinkProblem::Memory(*err),
        }
    }
}

/// Why a plugin could not be loaded.
#[derive(Debug)]
pub enum PluginLoadError {
    InvalidHeaderName,
    InvalidHeaderValue,
    InvalidHttpMethod,
    CompileError(CompileError),
    Instantiation(PluginInstantiationError),
    /// There are no files to read modules from.
    NotSupportedOnWeb,
}

/// A [`PluginLoadError`] up to the identity of the strings in it.
pub enum LoadProblem {
    InvalidHeaderName,
    InvalidHeaderValue,
    InvalidHttpMethod,
    CompileError(CompileError),
    Instantiation(LinkProblem),
    NotSupportedOnWeb,
}

impl View for PluginLoadError {
    type V = LoadProblem;

    open spec fn view(&self) -> LoadProblem {
        match self {
            PluginLoadError::InvalidHeaderName => LoadProblem::InvalidHeaderName,
            PluginLoadError::InvalidHeaderValue => LoadProblem::InvalidHeaderValue,
            PluginLoadError::InvalidHttpMethod => LoadProblem::InvalidHttpMethod,
            PluginLoadError::CompileError(err) => LoadProblem::CompileError(*err),
            PluginLoadError::Instantiation(err) => LoadProblem::Instantiation(err@),
            PluginLoadError::NotSupportedOnWeb => LoadProblem::NotSupportedOnWeb,
        }
    }
}

/// Why a function of a plugin could not be run.
#[derive(Debug)]
pub enum PluginRunError {
    ContextGone,
    Context(KernelError),
    NoMainModule,
    Export(ExportError),
    Runtime(RuntimeError),
    OutputHandleNotFound,
    /// The function returned, and reported a failure by this code.
    Failed(i32),
    Extism(ConvertError),
}

/// A [`PluginRunError`] up to the identity of the strings in it.
pub enum RunProblem {
    ContextGone,
    Context(KernelErrorView),
    NoMainModule,
    Export(ExportErrorView),
    Runtime(RuntimeError),
    OutputHandleNotFound,
    Failed(i32),
    Extism(ConvertErrorView),
}

impl View for PluginRunError {
    type V = RunProblem;

    open spec fn view(&self) -> RunProblem {
        match self {
            PluginRunError::ContextGone => RunProblem::ContextGone,
            PluginRunError::Context(err) => RunProblem::Context(err@),
            PluginRunError::NoMainModule => RunProblem::NoMainModule,
            PluginRunError::Export(err) => RunProblem::Export(err@),
            PluginRunError::Runtime(err) => RunProblem::Runtime(*err),
            PluginRunError::OutputHandleNotFound => RunProblem::OutputHandleNotFound,
            PluginRunError::Failed(code) => RunProblem::Failed(*code),
            PluginRunError::Extism(err) => RunProblem::Extism(err@),
        }
    }
}

impl From<ContextGoneError> for PluginRunError {
    fn from(err: ContextGoneError) -> (result: Self) {
        PluginRunError::ContextGone
    }
}

impl vstd::std_specs::convert::FromSpecImpl<ContextGoneError> for PluginRunError {
    open spec fn obeys_from_spec() -> bool {
        true
    }

    open spec fn from_spec(err: ContextGoneError) -> Self {
        PluginRunError::ContextGone
    }
}

/// A result with its error seen as plain values.
pub open spec fn kernel_result<T>(result: Result<T, KernelError>) -> Result<T, KernelErrorView> {
    match result {
        Ok(value) => Ok(value),
        Err(err) => Err(err@),
    }
}

/// A result with its error seen as plain values.
pub open spec fn link_result<T>(result: Result<T, PluginInstantiationError>) -> Result<
    T,
    LinkProblem,
> {
    match result {
        Ok(value) => Ok(value),
        Err(err) => Err(err@),
    }
}

} // verus!
