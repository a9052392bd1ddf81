//! The decisions of the LynxRDP desktop client, verified.
//!
//! Everything here is a function from plain values to plain values: window
//! systems, sockets, files and clocks live in the application around it.

#![allow(unused_imports)]

use vstd::prelude::*;

pub mod app;
pub mod askpass;
pub mod cli;
pub mod clipchange;
pub mod connection;
pub mod fileclip;
pub mod gui_paint;
pub mod icon;
pub mod imageclip;
pub mod keymap;
pub mod launch;
pub mod launcher;
pub mod outbound;
pub mod overlay;
pub mod profiles;
pub mod proto;
pub mod remote_sessions;
pub mod settings;
pub mod text;
pub mod theme;
pub mod time;
pub mod transfer_panel;
pub mod tunnel;

verus! {

/// The name of the desktop entry and of the window class. The two are equal so
/// that a desktop can match a running window to its launcher icon.
pub const APP_ID: &'static str = "lynxrdp";

/// Name reported to the server.
pub const CLIENT_NAME: &'static str = "LynxRDP client/0.1.0";

} // verus!
