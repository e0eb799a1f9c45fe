//! What a text input paints, layer by layer; the painting itself (text
//! shaping, geometry, colours) is the renderer's.

use vstd::prelude::*;

verus! {

/// The layers of an input to paint. The preedit and the caret also need
/// the caret's geometry, which is looked up only when `caret_geometry`.
#[derive(Clone, Copy, Debug, PartialEq, Eq, Structural)]
pub struct InputPaintPlan {
    pub placeholder: bool,
    pub selection: bool,
    pub text: bool,
    pub caret_geometry: bool,
    pub preedit: bool,
    pub caret: bool,
}

pub open spec fn nothing_painted() -> InputPaintPlan {
    InputPaintPlan { placeholder: false, selection: false, text: false, caret_geometry: false, preedit: false, caret: false }
}

/// The paint plan of an input from its state: whether its content box has
/// room, whether its displayed text and its placeholder are empty, whether
/// it is focused, whether the caret is in the visible half of its blink, and
/// whether an input method is composing text in it.
pub open spec fn spec_input_paint_plan(
    content_visible: bool,
    text_empty: bool,
    placeholder_empty: bool,
    focused: bool,
    blink_visible: bool,
    composing: bool,
) -> InputPaintPlan {
    if !content_visible {
        nothing_painted()
    } else {
        InputPaintPlan {
            placeholder: text_empty && !placeholder_empty,
            selection: !text_empty && focused,
            text: !text_empty,
            caret_geometry: blink_visible || composing,
            preedit: composing,
            caret: focused && blink_visible && !composing,
        }
    }
}

/// Nothing is painted into an empty content box. Otherwise an empty input
/// shows its placeholder (if any), a non-empty one its text, with the
/// selection highlighted while focused; composing text is shown at the
/// caret, and the caret itself only while focused, in the visible half of
/// its blink, and not composing.
pub fn input_paint_plan(
    content_visible: bool,
    text_empty: bool,
    placeholder_empty: bool,
    focused: bool,
    blink_visible: bool,
    composing: bool,
) -> (r: InputPaintPlan)
    ensures
        r == spec_input_paint_plan(content_visible, text_empty, placeholder_empty, focused, blink_visible, composing),
{
    if !content_visible {
        return InputPaintPlan {
            placeholder: false,
            selection: false,
            text: false,
            caret_geometry: false,
            preedit: false,
            caret: false,
        };
    }
    InputPaintPlan {
        placeholder: text_empty && !placeholder_empty,
        selection: !text_empty && focused,
        text: !text_empty,
        caret_geometry: blink_visible || composing,
        preedit: composing,
        caret: focused && blink_visible && !composing,
    }
}

/// The placeholder and the text are never painted together; the caret and
/// composing text are never painted together; whatever needs the caret's
/// geometry has it looked up; and an unfocused input shows neither caret
/// nor selection.
pub proof fn lemma_input_paint_exclusive(
    content_visible: bool,
    text_empty: bool,
    placeholder_empty: bool,
    focused: bool,
    blink_visible: bool,
    composing: bool,
)
    ensures
        ({
            let p = spec_input_paint_plan(content_visible, text_empty, placeholder_empty, focused, blink_visible, composing);
            &&& !(p.placeholder && p.text)
            &&& !(p.caret && p.preedit)
            &&& (p.caret || p.preedit) ==> p.caret_geometry
            &&& !focused ==> !p.caret && !p.selection
        }),
{
}

/// The caret does not depend on the text: with room to paint, it is painted
/// exactly when the input is focused, the blink is in its visible half and
/// nothing is composing, whether or not the input holds text; the text is
/// painted exactly when there is some, the placeholder only instead of it,
/// and the selection only over text in a focused input.
pub proof fn lemma_input_paint_layers(
    text_empty: bool,
    other_text_empty: bool,
    placeholder_empty: bool,
    focused: bool,
    blink_visible: bool,
    composing: bool,
)
    ensures
        ({
            let p = spec_input_paint_plan(true, text_empty, placeholder_empty, focused, blink_visible, composing);
            let q = spec_input_paint_plan(true, other_text_empty, placeholder_empty, focused, blink_visible, composing);
            &&& p.caret == (focused && blink_visible && !composing)
            &&& p.caret == q.caret
            &&& p.text == !text_empty
            &&& p.placeholder == (text_empty && !placeholder_empty)
            &&& p.selection == (focused && !text_empty)
            &&& p.preedit == composing
            &&& p.caret_geometry == (blink_visible || composing)
        }),
        spec_input_paint_plan(false, text_empty, placeholder_empty, focused, blink_visible, composing) == nothing_painted(),
{
}

} // verus!
