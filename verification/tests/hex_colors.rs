use yutikor::color::Color32Bytes;
use yutikor::data::Object;
use yutikor::objects::{get_colors, sync_color_field};

fn text_object() -> Object {
    Object::new("note", (0.0f32.to_bits(), 0.0f32.to_bits()))
}

#[test]
fn hex_six_digits_are_opaque() {
    assert_eq!(Object::vec_u8_from_hex("#ff8000"), (255, 128, 0, 255));
}

#[test]
fn hex_eight_digits_carry_alpha() {
    assert_eq!(Object::vec_u8_from_hex("#12345678"), (0x12, 0x34, 0x56, 0x78));
}

#[test]
fn hex_upper_case_digits() {
    assert_eq!(Object::vec_u8_from_hex("ABCDEF"), (171, 205, 239, 255));
}

#[test]
fn hex_every_leading_hash_is_dropped() {
    assert_eq!(Object::vec_u8_from_hex("##ff800080"), (255, 128, 0, 128));
}

#[test]
fn hex_bad_pairs_count_as_zero_or_opaque() {
    assert_eq!(Object::vec_u8_from_hex("zz00ff"), (0, 0, 255, 255));
    assert_eq!(Object::vec_u8_from_hex("#102030zz"), (16, 32, 48, 255));
}

#[test]
fn hex_plus_sign_before_one_digit() {
    assert_eq!(Object::vec_u8_from_hex("+f0000"), (15, 0, 0, 255));
    assert_eq!(Object::vec_u8_from_hex("-f0000"), (0, 0, 0, 255));
}

#[test]
fn hex_other_lengths_give_opaque_black() {
    assert_eq!(Object::vec_u8_from_hex("#fff"), (0, 0, 0, 255));
    assert_eq!(Object::vec_u8_from_hex(""), (0, 0, 0, 255));
    assert_eq!(Object::vec_u8_from_hex("#1234567"), (0, 0, 0, 255));
}

#[test]
fn hex_non_ascii_digits_count_as_zero() {
    // three two-byte characters: six bytes, pairs on character boundaries
    assert_eq!(Object::vec_u8_from_hex("ééé"), (0, 0, 0, 255));
}

#[test]
fn hex_text_of_a_colour() {
    assert_eq!(Object::hex_from_vec_u8((255, 128, 0, 255)), "#ff8000ff");
    assert_eq!(Object::hex_from_vec_u8((0, 1, 10, 171)), "#00010aab");
}

#[test]
fn hex_round_trip() {
    for c in [(0, 0, 0, 0), (255, 255, 255, 255), (1, 2, 3, 4), (160, 15, 240, 9)] {
        let text = Object::hex_from_vec_u8(c);
        assert_eq!(Object::vec_u8_from_hex(&text), c);
    }
}

#[test]
fn colour_bytes_of_an_egui_colour() {
    let c = Color32Bytes { r: 1, g: 2, b: 3, a: 4 };
    assert_eq!(Object::vec_u8_from_color32(c), (1, 2, 3, 4));
}

#[test]
fn opaque_colours_keep_their_channels() {
    let mut o = text_object();
    o.color = (10, 20, 30, 255);
    assert_eq!(o.get_color(), Color32Bytes { r: 10, g: 20, b: 30, a: 255 });
    assert_eq!(o.get_font_color(), Color32Bytes { r: 255, g: 255, b: 255, a: 255 });
    assert_eq!(o.get_stroke_color(), Color32Bytes { r: 255, g: 255, b: 255, a: 255 });
}

#[test]
fn transparent_colours_are_premultiplied() {
    let mut o = text_object();
    o.color = (255, 255, 255, 128);
    assert_eq!(o.get_color(), Color32Bytes { r: 128, g: 128, b: 128, a: 128 });
    o.stroke_color = (200, 100, 50, 0);
    assert_eq!(o.get_stroke_color(), Color32Bytes { r: 0, g: 0, b: 0, a: 0 });
}

#[test]
fn colours_of_an_object_being_edited() {
    let o = text_object();
    let c = get_colors(&o, true, true);
    assert_eq!(c.bg_color, Color32Bytes { r: 220, g: 220, b: 220, a: 255 });
    assert_eq!(c.font_color, Color32Bytes { r: 96, g: 96, b: 96, a: 255 });
    assert_eq!(c.stroke_color, Color32Bytes { r: 255, g: 255, b: 255, a: 255 });
}

#[test]
fn colours_of_an_object_not_being_edited() {
    let o = text_object();
    for (sel, edit) in [(false, true), (true, false), (false, false)] {
        let c = get_colors(&o, sel, edit);
        assert_eq!(c.bg_color, Color32Bytes { r: 80, g: 80, b: 80, a: 255 });
        assert_eq!(c.font_color, Color32Bytes { r: 255, g: 255, b: 255, a: 255 });
    }
}

#[test]
fn colour_field_shows_the_colour_when_not_typed_in() {
    let mut text = String::from("garbage");
    let mut color = (1, 2, 3, 4);
    sync_color_field(&mut text, &mut color, false, true);
    assert_eq!(text, "#01020304");
    assert_eq!(color, (1, 2, 3, 4));
}

#[test]
fn colour_field_sets_the_colour_when_typed_in() {
    let mut text = String::from("#0a0b0c");
    let mut color = (1, 2, 3, 4);
    sync_color_field(&mut text, &mut color, true, true);
    assert_eq!(text, "#0a0b0c");
    assert_eq!(color, (10, 11, 12, 255));
    sync_color_field(&mut text, &mut color, true, false);
    assert_eq!(color, (10, 11, 12, 255));
}
