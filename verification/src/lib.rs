//! Verified core of a full-screen, always-on-top overlay whose mouse
//! interaction mode (click-through vs. click-capturing) is toggled at runtime.
//!
//! The crate holds the platform-agnostic logic: the shared overlay state, the
//! click-through controller (a two-state machine that also decides which
//! native call, tray-label update and frontend notification an invocation
//! must perform), the gating decision of the cursor polling loop, the window
//! style-bit arithmetic of the native adapter, and the byte-level parsers for
//! the cursor-position and screen-dimension queries. The surrounding shell
//! owns the window handle, the tray menu and the threads, and carries out the
//! effect directives this crate computes.

pub mod controller;
pub mod errors;
pub mod parse;
pub mod permission;
pub mod platform;
pub mod polling;
pub mod state;
