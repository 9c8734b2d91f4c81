//! Editing single objects: their colours on screen, selection by the mouse,
//! the text alignment, the layer buttons and the colour fields of the tools.
use vstd::prelude::*;

use crate::color::{dark_gray, light_gray, Color32Bytes};
use crate::data::{color32_of, Object, ObjectsMainColors};
use crate::hex;
use crate::state::EditorState;

verus! {

/// The colours an object is drawn with: its own, except that while its text
/// is being edited the fill is light grey and the text dark grey.
pub fn get_colors(obj: &Object, is_selected: bool, is_selected_for_text_edit: bool) -> (c:
    ObjectsMainColors)
    ensures
        c.stroke_color == color32_of(obj.stroke_color),
        c.bg_color == if is_selected && is_selected_for_text_edit {
            Color32Bytes { r: 220, g: 220, b: 220, a: 255 }
        } else {
            color32_of(obj.color)
        },
        c.font_color == if is_selected && is_selected_for_text_edit {
            Color32Bytes { r: 96, g: 96, b: 96, a: 255 }
        } else {
            color32_of(obj.font_color)
        },
{
    let mut colors = ObjectsMainColors {
        bg_color: obj.get_color(),
        font_color: obj.get_font_color(),
        stroke_color: obj.get_stroke_color(),
    };
    if is_selected && is_selected_for_text_edit {
        colors.bg_color = light_gray();
        colors.font_color = dark_gray();
    }
    colors
}

/// What the mouse did to the object at `index`: a click selects it, a
/// double click selects it for editing its text.
pub fn process_object_events(
    index: usize,
    clicked: bool,
    double_clicked: bool,
    editor_state: &mut EditorState,
)
    ensures
        *final(editor_state) == if double_clicked {
            EditorState {
                selected_object_id: Some(index),
                is_selected_for_text_edit: true,
                ..*old(editor_state)
            }
        } else if clicked {
            EditorState {
                selected_object_id: Some(index),
                is_selected_for_text_edit: false,
                ..*old(editor_state)
            }
        } else {
            *old(editor_state)
        },
{
    if clicked {
        editor_state.selected_object_id = Some(index);
        editor_state.is_selected_for_text_edit = false;
    }
    if double_clicked {
        editor_state.selected_object_id = Some(index);
        editor_state.is_selected_for_text_edit = true;
    }
}

/// A click on the page's background selects nothing.
pub fn process_background_click(clicked: bool, editor_state: &mut EditorState)
    ensures
        *final(editor_state) == if clicked {
            EditorState {
                selected_object_id: None,
                is_selected_for_text_edit: false,
                ..*old(editor_state)
            }
        } else {
            *old(editor_state)
        },
{
    if clicked {
        editor_state.selected_object_id = None;
        editor_state.is_selected_for_text_edit = false;
    }
}

/// How a text is aligned in its box.
#[derive(Clone, Copy, Debug, PartialEq, Eq, Structural)]
pub enum TextAlign {
    Left,
    Center,
    Right,
}

/// The alignment that an object's `text_align` code stands for: 1 left,
/// 2 right, any other code centred.
pub fn text_align_of(code: u8) -> (a: TextAlign)
    ensures
        a == if code == 1 {
            TextAlign::Left
        } else if code == 2 {
            TextAlign::Right
        } else {
            TextAlign::Center
        },
{
    if code == 1 {
        TextAlign::Left
    } else if code == 2 {
        TextAlign::Right
    } else {
        TextAlign::Center
    }
}

/// The highest layer the tools let an object reach.
pub const MAX_Z_INDEX: u32 = 999999;

/// The layer one above `z`, at most [`MAX_Z_INDEX`].
pub open spec fn raised_z(z: u32) -> u32 {
    if z < MAX_Z_INDEX {
        (z + 1) as u32
    } else {
        MAX_Z_INDEX
    }
}

/// The layer one below `z`, at least 0.
pub open spec fn lowered_z(z: u32) -> u32 {
    if z > 0 {
        (z - 1) as u32
    } else {
        0
    }
}

/// The "up" button: the object goes one layer up, to at most [`MAX_Z_INDEX`],
/// and the selection is dropped.
pub fn z_index_up(object: &mut Object, editor_state: &mut EditorState)
    ensures
        *final(object) == (Object { z_index: raised_z(old(object).z_index), ..*old(object) }),
        *final(editor_state) == (EditorState { selected_object_id: None, ..*old(editor_state) }),
{
    let up = object.z_index.saturating_add(1);
    object.z_index = if up < MAX_Z_INDEX {
        up
    } else {
        MAX_Z_INDEX
    };
    editor_state.selected_object_id = None;
}

/// The "down" button: the object goes one layer down, not below 0, and the
/// selection is dropped.
pub fn z_index_down(object: &mut Object, editor_state: &mut EditorState)
    ensures
        *final(object) == (Object { z_index: lowered_z(old(object).z_index), ..*old(object) }),
        *final(editor_state) == (EditorState { selected_object_id: None, ..*old(editor_state) }),
{
    object.z_index = object.z_index.saturating_sub(1);
    editor_state.selected_object_id = None;
}

/// Keeps a colour and its hexadecimal field in step: while the field is not
/// being typed in it shows the colour; when its text changed, the colour is
/// read from it.
pub fn sync_color_field(
    text: &mut String,
    color: &mut (u8, u8, u8, u8),
    has_focus: bool,
    changed: bool,
)
    requires
        changed && has_focus ==> hex::pairs_on_char_boundaries(
            hex::strip_hashes(vstd::utf8::encode_utf8(old(text)@)),
        ),
    ensures
        final(text)@ == if has_focus {
            old(text)@
        } else {
            hex::hex_text(*old(color))
        },
        *final(color) == if changed {
            hex::rgba_of_hex_digits(hex::strip_hashes(vstd::utf8::encode_utf8(final(text)@)))
        } else {
            *old(color)
        },
        !has_focus ==> *final(color) == *old(color),
        has_focus && changed ==> final(text)@ == old(text)@ && *final(color)
            == hex::rgba_of_hex_digits(hex::strip_hashes(vstd::utf8::encode_utf8(old(text)@))),
{
    if !has_focus {
        *text = Object::hex_from_vec_u8(*color);
        proof {
            hex::lemma_hex_round_trip(*old(color));
        }
    }
    if changed {
        *color = Object::vec_u8_from_hex(text.as_str());
    }
}

/// Below the top layer, "up" then "down" puts an object back on its layer;
/// above layer 0, "down" then "up" does too.
pub proof fn lemma_up_down_inverse(z: u32)
    ensures
        z < MAX_Z_INDEX ==> lowered_z(raised_z(z)) == z,
        0 < z <= MAX_Z_INDEX ==> raised_z(lowered_z(z)) == z,
{
}

} // verus!
