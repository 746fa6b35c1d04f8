# webxtism

A runtime for plugins in WebAssembly that use the plug-in development kits of
[extism](https://extism.org/). Modules run in `wasmer`.

A plugin is made of modules that are linked with one another, with a kernel of its own, which manages
the memory that host and plugin share, and with functions of the host: log messages, configuration,
variables and HTTP. The embedding program can add functions of its own.

## Layout

- `src/` is the library, verified with Verus.
  - `engine` is what the library knows of `wasmer`. Nothing is known of what guest code does:
    relations between states of a store say which outcomes a call may have.
  - `kernel` and `host` are the operations of the kernel, and what guest code can ask of the host.
  - `env` is the namespace of the kernel as plugins see it.
  - `link` starts modules in the order of their dependencies.
  - `function` makes functions of the embedding program available to guest code.
  - `load` and `plugin` put plugins together and call their functions.
  - `wasm_input` says where modules come from and how they are fetched.
  - `names`, `vars`, `levels`, `errors` and `context` are what the others need.
- `tests/` runs the library with small modules in the text format of WebAssembly.
- `app/` is the embedding side in ordinary Rust: files and HTTP, locks, log messages by `tracing`, and
  conversions of values by `extism-convert`. Guest code is handed what it asked for by the library;
  the embedding side is told of log messages and of what went wrong, and sends HTTP requests.

## What is stated

The contract of an operation relates the states of the store before and after it. For example, a block
that `Kernel::memory_new` made holds the bytes that it was made from; a module is started after the
modules that it imports from, and never when they wait for one another in a circle; and nothing that
has been started imports anything but functions from the kernel. Blocks that guest code hands to the
host for a key, a value or a request are given back, whether or not they can be read. Public proof
functions state what holds of several operations together.

A context needs a store that is steady: its tunables lay memories out as they announce, and announce
the same each time. `new_store` makes such a store; with tunables of its own, the embedding program
has to see to that, as `app/` does.
