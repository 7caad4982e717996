//! A tiling window manager for the X Window System, as a model.
//!
//! The manager keeps ten workspaces of tiled and floating windows, frames
//! each window of another program, follows the pointer with the focus and
//! tells other programs of its desktops. All of that is decided here, on plain
//! values: each operation changes the model and queues the requests that
//! bring the display server in line with it. The connection to the server
//! belongs to the caller, which sends the queued requests and reports the
//! server's events.

pub mod actions;
pub mod atoms;
pub mod client;
pub mod config;
pub mod context;
pub mod drawing;
pub mod events;
pub mod ewmh;
pub mod handles;
pub mod keyboard;
pub mod layout;
pub mod requests;
pub mod screen;
pub mod screen_view;
pub mod slab;
pub mod tiling;
pub mod wm;
