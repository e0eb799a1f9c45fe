//! Decisions of the window-event loop outside the keyboard pipeline: which
//! resize, theme and IME events are reported, and which buttons are held.

use vstd::prelude::*;

use crate::dom::{same_but_tree, UiState};
use crate::flags::KeyModifiers;
use crate::hitbox::HitTestState;
use crate::window::{JsWindow, WindowPosition, WindowRecord};
use crate::events::{AppEvent, UzInputEvent, UzResizeEvent, UzThemeEvent, UzWindowEvent};
use crate::flags::MouseButtons;
use crate::mouse::{button_bit, is_text_input_at, PointerButton};

verus! {

/// The `resize` a window reports for its logical inner size.
pub open spec fn spec_resize_event(window_id: u32, logical_size: Option<(u32, u32)>) -> Option<AppEvent> {
    match logical_size {
        Some((w, h)) => if w > 0 && h > 0 {
            Some(AppEvent::Resize(UzResizeEvent { window_id, width: w, height: h }))
        } else {
            None
        },
        None => None,
    }
}

/// A `resize` event for a window whose logical inner size is known and not
/// empty in either direction; nothing otherwise.
pub fn resize_event(window_id: u32, logical_size: Option<(u32, u32)>) -> (r: Option<AppEvent>)
    ensures
        r == spec_resize_event(window_id, logical_size),
{
    match logical_size {
        Some((w, h)) => if w > 0 && h > 0 {
            Some(AppEvent::Resize(UzResizeEvent { window_id, width: w, height: h }))
        } else {
            None
        },
        None => None,
    }
}

pub open spec fn theme_name(dark: bool) -> Seq<char> {
    if dark {
        "dark"@
    } else {
        "light"@
    }
}

/// The `themechanged` event: the theme is named `dark` or `light`.
pub fn theme_event(window_id: u32, dark: bool) -> (r: AppEvent)
    ensures
        r matches AppEvent::ThemeChanged(e) && e.window_id == window_id && e.theme@ == theme_name(dark),
{
    let theme = if dark {
        "dark".to_owned()
    } else {
        "light".to_owned()
    };
    AppEvent::ThemeChanged(UzThemeEvent { window_id, theme })
}

/// The events of a window that just got its native window: the theme it
/// starts with (dark or light), when the system reports one, then `load`.
pub fn window_created_events(window_id: u32, dark_theme: Option<bool>) -> (r: Vec<AppEvent>)
    ensures
        r@.last() == AppEvent::WindowLoad(UzWindowEvent { window_id }),
        match dark_theme {
            Some(dark) => r@.len() == 2 && (r@[0] matches AppEvent::ThemeChanged(e) && e.window_id == window_id
                && e.theme@ == theme_name(dark)),
            None => r@.len() == 1,
        },
{
    let mut events: Vec<AppEvent> = Vec::new();
    if let Some(dark) = dark_theme {
        events.push(theme_event(window_id, dark));
    }
    events.push(AppEvent::WindowLoad(UzWindowEvent { window_id }));
    events
}

/// A window event other than key, pointer, wheel and input-method input,
/// with what the host measured for it.
#[derive(Clone, Copy, Debug)]
pub enum WindowInput {
    /// The window was resized; its logical inner size, when the native
    /// window exists.
    Resized { logical_size: Option<(u32, u32)> },
    ModifiersChanged(KeyModifiers),
    Focused(bool),
    Moved { x: i32, y: i32 },
    ThemeChanged { dark: bool },
    CursorLeft,
    CloseRequested,
}

/// What the host does after a window event: dispatch `events` in order,
/// then the listed follow-ups.
#[derive(Clone, Debug)]
pub struct WindowReaction {
    pub events: Vec<AppEvent>,
    pub needs_redraw: bool,
    /// Restart the caret blink timer (and show the caret).
    pub restart_blink: bool,
    /// Place the input method's window at the focused input's caret again.
    pub refresh_ime_area: bool,
    /// Show the default pointer.
    pub reset_cursor: bool,
    /// Drop the native window, stop the blink timer and ask the main thread
    /// to close the window.
    pub close_native_window: bool,
}

pub open spec fn reaction_is(
    r: WindowReaction,
    events: Seq<AppEvent>,
    needs_redraw: bool,
    restart_blink: bool,
    refresh_ime_area: bool,
    reset_cursor: bool,
    close_native_window: bool,
) -> bool {
    &&& r.events@ == events
    &&& r.needs_redraw == needs_redraw
    &&& r.restart_blink == restart_blink
    &&& r.refresh_ime_area == refresh_ime_area
    &&& r.reset_cursor == reset_cursor
    &&& r.close_native_window == close_native_window
}

fn reaction(
    events: Vec<AppEvent>,
    needs_redraw: bool,
    restart_blink: bool,
    refresh_ime_area: bool,
    reset_cursor: bool,
    close_native_window: bool,
) -> (r: WindowReaction)
    ensures
        reaction_is(r, events@, needs_redraw, restart_blink, refresh_ime_area, reset_cursor, close_native_window),
{
    WindowReaction { events, needs_redraw, restart_blink, refresh_ime_area, reset_cursor, close_native_window }
}

/// Handles a window event:
/// - a resize reports `resize` when the size is known and not empty;
/// - new modifiers are stored for the key handlers;
/// - focus is recorded for the window and its document; gaining it also
///   places the IME window; either way the caret blink restarts and the
///   window redraws;
/// - a move records the new position;
/// - a theme change is recorded and reported;
/// - when the pointer leaves, nothing is hovered any more, the default
///   pointer shows and the window redraws;
/// - a close request reports `close`, and the native window is dropped
///   while the window's document stays until the script side has let go.
pub fn handle_window_input(window: &mut JsWindow, window_id: u32, input: WindowInput) -> (r: WindowReaction)
    ensures
        final(window).dom.nodes@ == old(window).dom.nodes@,
        final(window).vars == old(window).vars,
        final(window).cursor_blink_generation == old(window).cursor_blink_generation,
        final(window).mouse_buttons == old(window).mouse_buttons,
        match input {
            WindowInput::Resized { logical_size } => {
                &&& same_window(*final(window), *old(window))
                &&& reaction_is(r, match spec_resize_event(window_id, logical_size) {
                    Some(e) => seq![e],
                    None => Seq::empty(),
                }, false, false, false, false, false)
            },
            WindowInput::ModifiersChanged(m) => {
                &&& final(window).modifiers == m
                &&& same_but_tree(final(window).dom, old(window).dom)
                &&& final(window).record == old(window).record
                &&& reaction_is(r, Seq::empty(), false, false, false, false, false)
            },
            WindowInput::Focused(f) => {
                &&& final(window).modifiers == old(window).modifiers
                &&& final(window).record == (WindowRecord { focused: f, ..old(window).record })
                &&& final(window).dom.window_focused == f
                &&& same_but_tree(final(window).dom, UiState { window_focused: f, ..old(window).dom })
                &&& reaction_is(r, Seq::empty(), true, true, f, false, false)
            },
            WindowInput::Moved { x, y } => {
                &&& final(window).modifiers == old(window).modifiers
                &&& same_but_tree(final(window).dom, old(window).dom)
                &&& final(window).record == (WindowRecord { outer_position: Some(WindowPosition { x, y }), ..old(window).record })
                &&& reaction_is(r, Seq::empty(), false, false, false, false, false)
            },
            WindowInput::ThemeChanged { dark } => {
                &&& final(window).modifiers == old(window).modifiers
                &&& same_but_tree(final(window).dom, old(window).dom)
                &&& final(window).record == (WindowRecord { dark_theme: Some(dark), ..old(window).record })
                &&& r.events@.len() == 1
                &&& (r.events@[0] matches AppEvent::ThemeChanged(e) && e.window_id == window_id && e.theme@ == theme_name(dark))
                &&& !r.needs_redraw && !r.restart_blink && !r.refresh_ime_area && !r.reset_cursor && !r.close_native_window
            },
            WindowInput::CursorLeft => {
                &&& final(window).modifiers == old(window).modifiers
                &&& final(window).record == old(window).record
                &&& final(window).dom.hit_state.hovered_nodes@.len() == 0
                &&& final(window).dom.hit_state.top_node is None
                &&& final(window).dom.hit_state.active_node is None
                &&& same_but_tree(
                    final(window).dom,
                    UiState { hit_state: final(window).dom.hit_state, ..old(window).dom },
                )
                &&& reaction_is(r, Seq::empty(), true, false, false, true, false)
            },
            WindowInput::CloseRequested => {
                &&& final(window).modifiers == old(window).modifiers
                &&& same_but_tree(final(window).dom, old(window).dom)
                &&& final(window).record == (WindowRecord { native_window: false, ..old(window).record })
                &&& reaction_is(
                    r,
                    seq![AppEvent::WindowClose(UzWindowEvent { window_id })],
                    false,
                    false,
                    false,
                    false,
                    true,
                )
            },
        },
{
    match input {
        WindowInput::Resized { logical_size } => {
            let mut events: Vec<AppEvent> = Vec::new();
            if let Some(e) = resize_event(window_id, logical_size) {
                events.push(e);
            }
            proof {
                assert(events@ =~= match spec_resize_event(window_id, logical_size) {
                    Some(e) => seq![e],
                    None => Seq::empty(),
                });
            }
            reaction(events, false, false, false, false, false)
        },
        WindowInput::ModifiersChanged(m) => {
            window.modifiers = m;
            reaction(Vec::new(), false, false, false, false, false)
        },
        WindowInput::Focused(f) => {
            window.record.focused = f;
            window.dom.window_focused = f;
            reaction(Vec::new(), true, true, f, false, false)
        },
        WindowInput::Moved { x, y } => {
            window.record.outer_position = Some(WindowPosition { x, y });
            reaction(Vec::new(), false, false, false, false, false)
        },
        WindowInput::ThemeChanged { dark } => {
            window.record.dark_theme = Some(dark);
            reaction(vec![theme_event(window_id, dark)], false, false, false, false, false)
        },
        WindowInput::CursorLeft => {
            window.dom.hit_state = HitTestState::new();
            reaction(Vec::new(), true, false, false, true, false)
        },
        WindowInput::CloseRequested => {
            window.record.native_window = false;
            let mut events: Vec<AppEvent> = Vec::new();
            events.push(AppEvent::WindowClose(UzWindowEvent { window_id }));
            proof {
                assert(events@ =~= seq![AppEvent::WindowClose(UzWindowEvent { window_id })]);
            }
            reaction(events, false, false, false, false, true)
        },
    }
}

/// The window's document, modifiers and record are all unchanged.
pub open spec fn same_window(a: JsWindow, b: JsWindow) -> bool {
    &&& same_but_tree(a.dom, b.dom)
    &&& a.modifiers == b.modifiers
    &&& a.record == b.record
}

/// The native window of an entry was created: it is recorded, with the theme
/// the system reports (if any); the events to report are the starting theme
/// and `load`.
pub fn native_window_created(window: &mut JsWindow, window_id: u32, dark_theme: Option<bool>) -> (r: Vec<AppEvent>)
    ensures
        final(window).dom.nodes@ == old(window).dom.nodes@,
        same_but_tree(final(window).dom, old(window).dom),
        final(window).vars == old(window).vars,
        final(window).modifiers == old(window).modifiers,
        final(window).record == (WindowRecord {
            native_window: true,
            dark_theme: if dark_theme is Some { dark_theme } else { old(window).record.dark_theme },
            ..old(window).record
        }),
        r@.last() == AppEvent::WindowLoad(UzWindowEvent { window_id }),
        match dark_theme {
            Some(dark) => r@.len() == 2 && (r@[0] matches AppEvent::ThemeChanged(e) && e.window_id == window_id
                && e.theme@ == theme_name(dark)),
            None => r@.len() == 1,
        },
{
    window.record.native_window = true;
    if let Some(dark) = dark_theme {
        window.record.dark_theme = Some(dark);
    }
    window_created_events(window_id, dark_theme)
}

/// Text committed by the input method into the focused text input is reported
/// as an `insertCompositionText` input carrying the text, once the input's
/// editor has taken it (`committed`). Nothing is reported without a focused
/// text input or when the editor refused the text.
pub fn ime_commit_event(dom: &UiState, window_id: u32, text: String, committed: bool) -> (r: Option<AppEvent>)
    ensures
        (dom.focused_node matches Some(f) && is_text_input_at(dom.nodes@, f) && committed) ==> (r matches Some(
            AppEvent::Input(e),
        ) && e.window_id == window_id && e.node_id == dom.focused_node.unwrap() && e.input_type@
            == "insertCompositionText"@ && e.data == Some(text) && e.start_node_id is None && e.end_node_id is None
            && e.start_offset == 0 && e.end_offset == 0),
        !(dom.focused_node matches Some(f) && is_text_input_at(dom.nodes@, f) && committed) ==> r.is_none(),
{
    let fid = match dom.focused_node {
        Some(f) => f,
        None => return None,
    };
    if !dom.nodes.is_text_input(fid) || !committed {
        return None;
    }
    Some(AppEvent::Input(UzInputEvent::plain(window_id, fid, "insertCompositionText", Some(text))))
}

/// The buttons held after `button` is pressed or released.
pub fn update_held_buttons(held: MouseButtons, pressed: bool, button: PointerButton) -> (r: MouseButtons)
    ensures
        ({
            let bit = button_bit_spec(button);
            r@ == if pressed { held@ | bit } else { held@ & !bit }
        }),
{
    let bit = button_bit(button);
    let mut r = held;
    if pressed {
        r.insert(bit);
    } else {
        r.remove(bit);
    }
    r
}

pub open spec fn button_bit_spec(button: PointerButton) -> u8 {
    match button {
        PointerButton::Left => crate::flags::LEFT_BIT,
        PointerButton::Middle => crate::flags::MIDDLE_BIT,
        PointerButton::Right => crate::flags::RIGHT_BIT,
        PointerButton::Other => 0u8,
    }
}

/// Pressing a button and releasing it again leaves the held buttons as they
/// were before the press, less that button; a pressed button is held.
pub proof fn lemma_press_then_release(held: u8, button: PointerButton)
    ensures
        ({
            let bit = button_bit_spec(button);
            &&& (held | bit) & bit == bit
            &&& ((held | bit) & !bit) == (held & !bit)
        }),
{
    let bit = button_bit_spec(button);
    crate::flags::lemma_buttons_press_release(held, bit);
    assert((held | bit) & bit == bit) by (bit_vector);
}

} // verus!
