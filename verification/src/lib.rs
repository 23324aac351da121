use vstd::prelude::*;

pub mod audio;
pub mod discover;
pub mod engine;
pub mod engine_laws;
pub mod json;
pub mod registry;
pub mod rpc;
pub mod rpc_laws;
pub mod runner;
pub mod sse;
pub mod sse_laws;
pub mod text;
pub mod theme;
pub mod theme_editor;
pub mod theme_editor_laws;
pub mod theme_laws;
pub mod theme_template;
pub mod tray;
pub mod tray_laws;

verus! {

} // verus!
