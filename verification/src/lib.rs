//! The compositor's own rules, verified: canvas geometry, the window model, focus
//! order, output layout, key bindings, input decisions, configuration checks and the
//! headless session.
pub mod backend;
pub mod canvas;
pub mod config;
pub mod draw;
pub mod hooks;
pub mod interactive;
pub mod ipc;
pub mod input;
pub mod number;
pub mod output;
pub mod paths;
pub mod probe;
pub mod render;
pub mod runtime;
pub mod session;
pub mod text;
pub mod tty;
pub mod window;
