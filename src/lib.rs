//! A status line for a tiling window manager: a small widget algebra that
//! renders lemonbar markup, and the context that the bar's event loop keeps
//! up to date.

pub mod markup;
pub mod widget;
pub mod context;
pub mod bar;
pub mod sources;
pub mod laws;
