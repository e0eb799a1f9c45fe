//! How each event is handed to the script side: which global handler
//! receives it and the positional arguments it gets.

use vstd::prelude::*;

use crate::events::{AppEvent, UzClipboardEvent, UzFocusEvent, UzInputEvent, UzKeyboardEvent, UzMouseEvent};
use crate::UzNodeId;

verus! {

/// Event type numbers understood by the script side.
pub const ET_MOUSE_MOVE: u8 = 0;
pub const ET_MOUSE_DOWN: u8 = 1;
pub const ET_MOUSE_UP: u8 = 2;
pub const ET_CLICK: u8 = 3;
pub const ET_MOUSE_ENTER: u8 = 4;
pub const ET_MOUSE_LEAVE: u8 = 5;
pub const ET_MOUSE_OVER: u8 = 6;
pub const ET_MOUSE_OUT: u8 = 7;
pub const ET_KEY_DOWN: u8 = 10;
pub const ET_KEY_UP: u8 = 11;
pub const ET_INPUT: u8 = 20;
pub const ET_FOCUS: u8 = 21;
pub const ET_BLUR: u8 = 22;
pub const ET_BEFORE_INPUT: u8 = 23;
pub const ET_COPY: u8 = 25;
pub const ET_CUT: u8 = 26;
pub const ET_PASTE: u8 = 27;
pub const ET_TEXT_UPDATE: u8 = 28;

/// The global script function that receives an event.
#[derive(Clone, Copy, Debug, PartialEq, Eq, Structural)]
pub enum DispatchSlot {
    Mouse,
    Keyboard,
    Input,
    Focus,
    Clipboard,
    SelectionChange,
    Resize,
    WindowLoad,
    WindowClose,
    ThemeChanged,
    HotReload,
}

/// A pointer coordinate of a mouse event, filled in by the caller.
#[derive(Clone, Copy, Debug, PartialEq, Eq, Structural)]
pub enum PointerCoord {
    X,
    Y,
    LocalX,
    LocalY,
    ScreenX,
    ScreenY,
}

/// One positional argument.
#[derive(Clone, Debug)]
pub enum JsArg {
    Num(u64),
    Bool(bool),
    Str(String),
    Null,
    Coord(PointerCoord),
}

/// What an argument holds, with strings by their text.
pub enum JsArgView {
    Num(int),
    Bool(bool),
    Str(Seq<char>),
    Null,
    Coord(PointerCoord),
}

pub open spec fn arg_view(a: JsArg) -> JsArgView {
    match a {
        JsArg::Num(n) => JsArgView::Num(n as int),
        JsArg::Bool(b) => JsArgView::Bool(b),
        JsArg::Str(s) => JsArgView::Str(s@),
        JsArg::Null => JsArgView::Null,
        JsArg::Coord(c) => JsArgView::Coord(c),
    }
}

pub open spec fn args_view(args: Seq<JsArg>) -> Seq<JsArgView> {
    args.map_values(|a: JsArg| arg_view(a))
}

pub open spec fn opt_node_arg(id: Option<UzNodeId>) -> JsArgView {
    match id {
        Some(n) => JsArgView::Num(n as int),
        None => JsArgView::Null,
    }
}

pub open spec fn opt_str_arg(s: Option<String>) -> JsArgView {
    match s {
        Some(t) => JsArgView::Str(t@),
        None => JsArgView::Null,
    }
}

/// type, window, node, x, y, local x, local y, screen x, screen y, button,
/// buttons, related node.
pub open spec fn mouse_args_spec(ty: u8, e: UzMouseEvent) -> Seq<JsArgView> {
    seq![
        JsArgView::Num(ty as int),
        JsArgView::Num(e.window_id as int),
        JsArgView::Num(e.node_id as int),
        JsArgView::Coord(PointerCoord::X),
        JsArgView::Coord(PointerCoord::Y),
        JsArgView::Coord(PointerCoord::LocalX),
        JsArgView::Coord(PointerCoord::LocalY),
        JsArgView::Coord(PointerCoord::ScreenX),
        JsArgView::Coord(PointerCoord::ScreenY),
        JsArgView::Num(e.button as int),
        JsArgView::Num(e.buttons@ as int),
        opt_node_arg(e.related_node_id),
    ]
}

/// type, window, node, key, code, key code, modifiers, repeat.
pub open spec fn keyboard_args_spec(ty: u8, e: UzKeyboardEvent) -> Seq<JsArgView> {
    seq![
        JsArgView::Num(ty as int),
        JsArgView::Num(e.window_id as int),
        opt_node_arg(e.node_id),
        JsArgView::Str(e.key@),
        JsArgView::Str(e.code@),
        JsArgView::Num(e.key_code as int),
        JsArgView::Num(e.modifiers@ as int),
        JsArgView::Bool(e.repeat),
    ]
}

/// type, window, node, input type, data, range start node and offset, range
/// end node and offset.
pub open spec fn input_args_spec(ty: u8, e: UzInputEvent) -> Seq<JsArgView> {
    seq![
        JsArgView::Num(ty as int),
        JsArgView::Num(e.window_id as int),
        JsArgView::Num(e.node_id as int),
        JsArgView::Str(e.input_type@),
        opt_str_arg(e.data),
        opt_node_arg(e.start_node_id),
        JsArgView::Num(e.start_offset as int),
        opt_node_arg(e.end_node_id),
        JsArgView::Num(e.end_offset as int),
    ]
}

pub open spec fn focus_args_spec(ty: u8, e: UzFocusEvent) -> Seq<JsArgView> {
    seq![JsArgView::Num(ty as int), JsArgView::Num(e.window_id as int), JsArgView::Num(e.node_id as int)]
}

/// type, window, node, selection text, clipboard text.
pub open spec fn clipboard_args_spec(ty: u8, e: UzClipboardEvent) -> Seq<JsArgView> {
    seq![
        JsArgView::Num(ty as int),
        JsArgView::Num(e.window_id as int),
        opt_node_arg(e.node_id),
        opt_str_arg(e.selection_text),
        opt_str_arg(e.clipboard_text),
    ]
}

/// Where each event goes and with which arguments.
pub open spec fn spec_dispatch_plan(event: AppEvent) -> (DispatchSlot, Seq<JsArgView>) {
    match event {
        AppEvent::Click(e) => (DispatchSlot::Mouse, mouse_args_spec(ET_CLICK, e)),
        AppEvent::MouseDown(e) => (DispatchSlot::Mouse, mouse_args_spec(ET_MOUSE_DOWN, e)),
        AppEvent::MouseUp(e) => (DispatchSlot::Mouse, mouse_args_spec(ET_MOUSE_UP, e)),
        AppEvent::MouseMove(e) => (DispatchSlot::Mouse, mouse_args_spec(ET_MOUSE_MOVE, e)),
        AppEvent::MouseEnter(e) => (DispatchSlot::Mouse, mouse_args_spec(ET_MOUSE_ENTER, e)),
        AppEvent::MouseLeave(e) => (DispatchSlot::Mouse, mouse_args_spec(ET_MOUSE_LEAVE, e)),
        AppEvent::MouseOver(e) => (DispatchSlot::Mouse, mouse_args_spec(ET_MOUSE_OVER, e)),
        AppEvent::MouseOut(e) => (DispatchSlot::Mouse, mouse_args_spec(ET_MOUSE_OUT, e)),
        AppEvent::KeyDown(e) => (DispatchSlot::Keyboard, keyboard_args_spec(ET_KEY_DOWN, e)),
        AppEvent::KeyUp(e) => (DispatchSlot::Keyboard, keyboard_args_spec(ET_KEY_UP, e)),
        AppEvent::Resize(e) => (
            DispatchSlot::Resize,
            seq![JsArgView::Num(e.window_id as int), JsArgView::Num(e.width as int), JsArgView::Num(e.height as int)],
        ),
        AppEvent::Input(e) => (DispatchSlot::Input, input_args_spec(ET_INPUT, e)),
        AppEvent::BeforeInput(e) => (DispatchSlot::Input, input_args_spec(ET_BEFORE_INPUT, e)),
        AppEvent::TextUpdate(e) => (DispatchSlot::Input, input_args_spec(ET_TEXT_UPDATE, e)),
        AppEvent::Focus(e) => (DispatchSlot::Focus, focus_args_spec(ET_FOCUS, e)),
        AppEvent::Blur(e) => (DispatchSlot::Focus, focus_args_spec(ET_BLUR, e)),
        AppEvent::Copy(e) => (DispatchSlot::Clipboard, clipboard_args_spec(ET_COPY, e)),
        AppEvent::Cut(e) => (DispatchSlot::Clipboard, clipboard_args_spec(ET_CUT, e)),
        AppEvent::Paste(e) => (DispatchSlot::Clipboard, clipboard_args_spec(ET_PASTE, e)),
        AppEvent::SelectionChange(e) => (
            DispatchSlot::SelectionChange,
            seq![
                JsArgView::Num(e.window_id as int),
                opt_node_arg(e.anchor_node_id),
                JsArgView::Num(e.anchor_offset as int),
                opt_node_arg(e.focus_node_id),
                JsArgView::Num(e.focus_offset as int),
                JsArgView::Bool(e.is_collapsed),
            ],
        ),
        AppEvent::WindowLoad(e) => (DispatchSlot::WindowLoad, seq![JsArgView::Num(e.window_id as int)]),
        AppEvent::WindowClose(e) => (DispatchSlot::WindowClose, seq![JsArgView::Num(e.window_id as int)]),
        AppEvent::ThemeChanged(e) => (
            DispatchSlot::ThemeChanged,
            seq![JsArgView::Num(e.window_id as int), JsArgView::Bool(e.theme@ == "dark"@)],
        ),
        AppEvent::HotReload => (DispatchSlot::HotReload, Seq::empty()),
    }
}

fn num(n: u64) -> (r: JsArg)
    ensures
        arg_view(r) == JsArgView::Num(n as int),
{
    JsArg::Num(n)
}

fn opt_node(id: Option<UzNodeId>) -> (r: JsArg)
    ensures
        arg_view(r) == opt_node_arg(id),
{
    match id {
        Some(n) => JsArg::Num(n as u64),
        None => JsArg::Null,
    }
}

fn opt_str(s: &Option<String>) -> (r: JsArg)
    ensures
        arg_view(r) == opt_str_arg(*s),
{
    match s {
        Some(t) => JsArg::Str(t.clone()),
        None => JsArg::Null,
    }
}

fn mouse_args(ty: u8, e: &UzMouseEvent) -> (r: Vec<JsArg>)
    ensures
        args_view(r@) == mouse_args_spec(ty, *e),
{
    let r = vec![
        num(ty as u64),
        num(e.window_id as u64),
        num(e.node_id as u64),
        JsArg::Coord(PointerCoord::X),
        JsArg::Coord(PointerCoord::Y),
        JsArg::Coord(PointerCoord::LocalX),
        JsArg::Coord(PointerCoord::LocalY),
        JsArg::Coord(PointerCoord::ScreenX),
        JsArg::Coord(PointerCoord::ScreenY),
        num(e.button as u64),
        num(e.buttons.bits() as u64),
        opt_node(e.related_node_id),
    ];
    proof {
        assert(args_view(r@) =~= mouse_args_spec(ty, *e));
    }
    r
}

fn keyboard_args(ty: u8, e: &UzKeyboardEvent) -> (r: Vec<JsArg>)
    ensures
        args_view(r@) == keyboard_args_spec(ty, *e),
{
    let r = vec![
        num(ty as u64),
        num(e.window_id as u64),
        opt_node(e.node_id),
        JsArg::Str(e.key.clone()),
        JsArg::Str(e.code.clone()),
        num(e.key_code as u64),
        num(e.modifiers.bits() as u64),
        JsArg::Bool(e.repeat),
    ];
    proof {
        assert(args_view(r@) =~= keyboard_args_spec(ty, *e));
    }
    r
}

fn input_args(ty: u8, e: &UzInputEvent) -> (r: Vec<JsArg>)
    ensures
        args_view(r@) == input_args_spec(ty, *e),
{
    let r = vec![
        num(ty as u64),
        num(e.window_id as u64),
        num(e.node_id as u64),
        JsArg::Str(e.input_type.clone()),
        opt_str(&e.data),
        opt_node(e.start_node_id),
        num(e.start_offset as u64),
        opt_node(e.end_node_id),
        num(e.end_offset as u64),
    ];
    proof {
        assert(args_view(r@) =~= input_args_spec(ty, *e));
    }
    r
}

fn focus_args(ty: u8, e: &UzFocusEvent) -> (r: Vec<JsArg>)
    ensures
        args_view(r@) == focus_args_spec(ty, *e),
{
    let r = vec![num(ty as u64), num(e.window_id as u64), num(e.node_id as u64)];
    proof {
        assert(args_view(r@) =~= focus_args_spec(ty, *e));
    }
    r
}

fn clipboard_args(ty: u8, e: &UzClipboardEvent) -> (r: Vec<JsArg>)
    ensures
        args_view(r@) == clipboard_args_spec(ty, *e),
{
    let r = vec![
        num(ty as u64),
        num(e.window_id as u64),
        opt_node(e.node_id),
        opt_str(&e.selection_text),
        opt_str(&e.clipboard_text),
    ];
    proof {
        assert(args_view(r@) =~= clipboard_args_spec(ty, *e));
    }
    r
}

/// The handler and the arguments of an event.
pub fn dispatch_plan(event: &AppEvent) -> (r: (DispatchSlot, Vec<JsArg>))
    ensures
        r.0 == spec_dispatch_plan(*event).0,
        args_view(r.1@) == spec_dispatch_plan(*event).1,
{
    match event {
        AppEvent::Click(e) => (DispatchSlot::Mouse, mouse_args(ET_CLICK, e)),
        AppEvent::MouseDown(e) => (DispatchSlot::Mouse, mouse_args(ET_MOUSE_DOWN, e)),
        AppEvent::MouseUp(e) => (DispatchSlot::Mouse, mouse_args(ET_MOUSE_UP, e)),
        AppEvent::MouseMove(e) => (DispatchSlot::Mouse, mouse_args(ET_MOUSE_MOVE, e)),
        AppEvent::MouseEnter(e) => (DispatchSlot::Mouse, mouse_args(ET_MOUSE_ENTER, e)),
        AppEvent::MouseLeave(e) => (DispatchSlot::Mouse, mouse_args(ET_MOUSE_LEAVE, e)),
        AppEvent::MouseOver(e) => (DispatchSlot::Mouse, mouse_args(ET_MOUSE_OVER, e)),
        AppEvent::MouseOut(e) => (DispatchSlot::Mouse, mouse_args(ET_MOUSE_OUT, e)),
        AppEvent::KeyDown(e) => (DispatchSlot::Keyboard, keyboard_args(ET_KEY_DOWN, e)),
        AppEvent::KeyUp(e) => (DispatchSlot::Keyboard, keyboard_args(ET_KEY_UP, e)),
        AppEvent::Resize(e) => {
            let r = vec![num(e.window_id as u64), num(e.width as u64), num(e.height as u64)];
            proof {
                assert(args_view(r@) =~= spec_dispatch_plan(*event).1);
            }
            (DispatchSlot::Resize, r)
        },
        AppEvent::Input(e) => (DispatchSlot::Input, input_args(ET_INPUT, e)),
        AppEvent::BeforeInput(e) => (DispatchSlot::Input, input_args(ET_BEFORE_INPUT, e)),
        AppEvent::TextUpdate(e) => (DispatchSlot::Input, input_args(ET_TEXT_UPDATE, e)),
        AppEvent::Focus(e) => (DispatchSlot::Focus, focus_args(ET_FOCUS, e)),
        AppEvent::Blur(e) => (DispatchSlot::Focus, focus_args(ET_BLUR, e)),
        AppEvent::Copy(e) => (DispatchSlot::Clipboard, clipboard_args(ET_COPY, e)),
        AppEvent::Cut(e) => (DispatchSlot::Clipboard, clipboard_args(ET_CUT, e)),
        AppEvent::Paste(e) => (DispatchSlot::Clipboard, clipboard_args(ET_PASTE, e)),
        AppEvent::SelectionChange(e) => {
            let r = vec![
                num(e.window_id as u64),
                opt_node(e.anchor_node_id),
                num(e.anchor_offset as u64),
                opt_node(e.focus_node_id),
                num(e.focus_offset as u64),
                JsArg::Bool(e.is_collapsed),
            ];
            proof {
                assert(args_view(r@) =~= spec_dispatch_plan(*event).1);
            }
            (DispatchSlot::SelectionChange, r)
        },
        AppEvent::WindowLoad(e) => {
            let r = vec![num(e.window_id as u64)];
            proof {
                assert(args_view(r@) =~= spec_dispatch_plan(*event).1);
            }
            (DispatchSlot::WindowLoad, r)
        },
        AppEvent::WindowClose(e) => {
            let r = vec![num(e.window_id as u64)];
            proof {
                assert(args_view(r@) =~= spec_dispatch_plan(*event).1);
            }
            (DispatchSlot::WindowClose, r)
        },
        AppEvent::ThemeChanged(e) => {
            let dark = crate::window::string_eq_str(&e.theme, "dark");
            let r = vec![num(e.window_id as u64), JsArg::Bool(dark)];
            proof {
                assert(args_view(r@) =~= spec_dispatch_plan(*event).1);
            }
            (DispatchSlot::ThemeChanged, r)
        },
        AppEvent::HotReload => {
            let r: Vec<JsArg> = Vec::new();
            proof {
                assert(args_view(r@) =~= spec_dispatch_plan(*event).1);
            }
            (DispatchSlot::HotReload, r)
        },
    }
}

/// The event-type numbers of the script side's table: the pointer events
/// 0 to 7, key down and up 10 and 11, input 20, focus 21, blur 22,
/// beforeinput 23, copy, cut and paste 25 to 27, textupdate 28. Other events
/// have a handler of their own and no type number.
pub open spec fn script_event_type(event: AppEvent) -> Option<int> {
    match event {
        AppEvent::MouseMove(_) => Some(0),
        AppEvent::MouseDown(_) => Some(1),
        AppEvent::MouseUp(_) => Some(2),
        AppEvent::Click(_) => Some(3),
        AppEvent::MouseEnter(_) => Some(4),
        AppEvent::MouseLeave(_) => Some(5),
        AppEvent::MouseOver(_) => Some(6),
        AppEvent::MouseOut(_) => Some(7),
        AppEvent::KeyDown(_) => Some(10),
        AppEvent::KeyUp(_) => Some(11),
        AppEvent::Input(_) => Some(20),
        AppEvent::Focus(_) => Some(21),
        AppEvent::Blur(_) => Some(22),
        AppEvent::BeforeInput(_) => Some(23),
        AppEvent::Copy(_) => Some(25),
        AppEvent::Cut(_) => Some(26),
        AppEvent::Paste(_) => Some(27),
        AppEvent::TextUpdate(_) => Some(28),
        _ => None,
    }
}

/// Every event with a type number is dispatched with that number as its
/// first argument, so the script tells the events apart: two events that go
/// to the same handler with the same first argument have the same type.
pub proof fn lemma_dispatch_type_numbers(a: AppEvent, b: AppEvent)
    ensures
        script_event_type(a) matches Some(t) ==> spec_dispatch_plan(a).1.len() > 0 && spec_dispatch_plan(a).1[0]
            == JsArgView::Num(t),
        (script_event_type(a) is Some && script_event_type(b) is Some && spec_dispatch_plan(a).0 == spec_dispatch_plan(b).0
            && spec_dispatch_plan(a).1[0] == spec_dispatch_plan(b).1[0]) ==> script_event_type(a) == script_event_type(b),
{
}

} // verus!
