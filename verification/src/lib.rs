//! Verified core of the uzumaki window-event layer: modifier and button
//! flags, hit testing, text selections, clipboard shortcuts, keyboard,
//! pointer and wheel decisions, the other window events, frame timings, the
//! per-window script-thread bookkeeping and how events reach the script.

pub mod flags;
pub mod selection;
pub mod events;
pub mod hitbox;
pub mod dom;
pub mod mouse;
pub mod keyboard;
pub mod clipboard;
pub mod perf;
pub mod window;
pub mod dispatch;
pub mod wheel;
pub mod window_events;
pub mod input_paint;

use vstd::prelude::*;

verus! {

/// Identifier of a node in a window's document.
pub type UzNodeId = usize;

/// Identifier of a window entry; it is also the `window_id` of every event.
pub type WindowEntryId = u32;

} // verus!
