//! Rendering core of a system-information fetch tool: colour palettes,
//! panel widgets, layout engines and the ANSI renderers.
use vstd::prelude::*;

pub mod ascii;
pub mod cli;
pub mod component;
pub mod compositor;
pub mod config;
pub mod dispatch;
pub mod editor;
pub mod eventbus;
pub mod info;
pub mod layout;
pub mod layout_engine;
pub mod mobile;
pub mod numfmt;
pub mod preview;
pub mod pattern;
pub mod probe;
pub mod render;
pub mod setup;
pub mod space;
pub mod strs;
pub mod text;
pub mod theme;
pub mod widget;
pub mod width;
pub mod wizard;

verus! {

} // verus!
