//! Script discovery, sandboxed module resolution and the host-bridge protocol
//! of a scriptable text editor, with their contracts proved by Verus.
pub mod digest;
pub mod model;
pub mod text;
pub mod index;
pub mod paths;
pub mod resolver;
pub mod bridge;
pub mod queue;
pub mod engine;
pub mod settings;
pub mod commands;
pub mod windows;
