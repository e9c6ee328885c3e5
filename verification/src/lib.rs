//! Invalidation and dispatch core of a retained-mode, GPU-backed renderer.
//!
//! The crate decides what must be repainted and in which order across the
//! graph of render passes, names regions of the draw tree through `Area`
//! handles, keeps the per-pointer and keyboard-focus state, and delivers
//! events, signals and triggers to one application handler. Beside the core
//! stand the decisions of a few things built on it: a drop-down, the view of
//! a running build, the file tree of a project with its open documents, and
//! the opening of a web socket.
//!
//! Positions, times and scale factors are fixed-point integers (see `math`).

pub mod area;
pub mod cx;
pub mod debug_tree;
pub mod dispatch;
pub mod drop_down;
pub mod events;
pub mod file_client;
pub mod file_system;
pub mod file_tree;
pub mod invalidate;
pub mod math;
pub mod pass;
pub mod redraw;
pub mod repaint;
pub mod router;
pub mod run_view;
pub mod view;
pub mod web_socket;
pub mod window;
