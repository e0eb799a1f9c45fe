use uzumaki::dispatch::{dispatch_plan, DispatchSlot, JsArg, PointerCoord};
use uzumaki::events::{AppEvent, UzInputEvent, UzMouseEvent, UzSelectionChangeEvent, UzThemeEvent};
use uzumaki::flags::MouseButtons;

fn nums(args: &[JsArg]) -> Vec<String> {
    args.iter()
        .map(|a| match a {
            JsArg::Num(n) => n.to_string(),
            JsArg::Bool(b) => b.to_string(),
            JsArg::Str(s) => format!("'{}'", s),
            JsArg::Null => "null".to_string(),
            JsArg::Coord(c) => format!("{:?}", c),
        })
        .collect()
}

#[test]
fn mouse_events_go_to_the_mouse_handler() {
    let e = UzMouseEvent { window_id: 2, node_id: 9, button: 2, buttons: MouseButtons::right(), related_node_id: None };
    let (slot, args) = dispatch_plan(&AppEvent::Click(e));
    assert_eq!(slot, DispatchSlot::Mouse);
    assert_eq!(
        nums(&args),
        vec!["3", "2", "9", "X", "Y", "LocalX", "LocalY", "ScreenX", "ScreenY", "2", "2", "null"]
    );
    assert!(matches!(args[3], JsArg::Coord(PointerCoord::X)));
}

#[test]
fn input_and_selection_arguments() {
    let e = UzInputEvent::plain(1, 4, "insertText", Some("a".to_string()));
    let (slot, args) = dispatch_plan(&AppEvent::BeforeInput(e));
    assert_eq!(slot, DispatchSlot::Input);
    assert_eq!(nums(&args), vec!["23", "1", "4", "'insertText'", "'a'", "null", "0", "null", "0"]);
    let s = UzSelectionChangeEvent {
        window_id: 1,
        anchor_node_id: Some(3),
        anchor_offset: 2,
        focus_node_id: None,
        focus_offset: 0,
        is_collapsed: false,
    };
    let (slot, args) = dispatch_plan(&AppEvent::SelectionChange(s));
    assert_eq!(slot, DispatchSlot::SelectionChange);
    assert_eq!(nums(&args), vec!["1", "3", "2", "null", "0", "false"]);
}

#[test]
fn theme_is_reported_as_dark_flag() {
    let (slot, args) = dispatch_plan(&AppEvent::ThemeChanged(UzThemeEvent { window_id: 5, theme: "dark".to_string() }));
    assert_eq!(slot, DispatchSlot::ThemeChanged);
    assert_eq!(nums(&args), vec!["5", "true"]);
    let (_, args) = dispatch_plan(&AppEvent::ThemeChanged(UzThemeEvent { window_id: 5, theme: "light".to_string() }));
    assert_eq!(nums(&args), vec!["5", "false"]);
    let (slot, args) = dispatch_plan(&AppEvent::HotReload);
    assert_eq!(slot, DispatchSlot::HotReload);
    assert!(args.is_empty());
}
