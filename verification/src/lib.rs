//! A runtime for plugins in WebAssembly.
//!
//! A [`Plugin`] is made of modules that are linked with one another, with a [`Kernel`] that manages
//! the memory shared with the host, and with functions of the host. What guest code does is not
//! known: contracts say which outcomes an operation may have, given what guest code may do.
use vstd::prelude::*;

pub mod context;
pub mod engine;
pub mod env;
pub mod errors;
pub mod function;
pub mod host;
pub mod kernel;
pub mod laws;
pub mod levels;
pub mod link;
pub mod load;
pub mod names;
pub mod plugin;
pub mod vars;
pub mod wasm_input;

pub use context::{compile_runtime, new_store, Context};
pub use errors::{
    ContextGoneError, ConvertError, KernelError, PluginInstantiationError, PluginLoadError,
    PluginRunError,
};
pub use function::{ExportDefinition, HostExport};
pub use host::{HostEvent, HttpAnswer, PluginIdentifier, PluginMetadata};
pub use kernel::{Kernel, MemoryHandle};
pub use levels::{log_level_to_int, LogLevel};
pub use plugin::{new_plugin_id, Plugin};
pub use vars::{InMemoryVars, PluginVars};
pub use wasm_input::WasmInput;

pub use extism_convert;
pub use extism_manifest;
pub use wasmer;

verus! {

/// The namespace in which modules find the kernel and the functions of the host.
pub const EXTISM_ENV_MODULE: &'static str = "extism:host/env";

/// The namespace of functions of the embedding program that name no other.
pub const EXTISM_USER_MODULE: &'static str = "extism:host/user";

} // verus!
