//! Verified core of the Snowland desktop renderer: value serialization, IPC
//! buffering, module positioning and the helpers around them.

pub mod serialization;
pub mod display;
pub mod scene;
pub mod position;
pub mod text;
pub mod countdown;
pub mod ipc_buffer;
pub mod instances;
pub mod startup;
pub mod protocol;
pub mod controller;
pub mod api;
pub mod x11;
pub mod win32;
pub mod modules;
pub mod paint;
pub mod dart_structure;
pub mod unix_ipc;
pub mod call_handler;
