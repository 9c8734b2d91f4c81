use yutikor::data::{Object, Page};
use yutikor::objects::{
    process_background_click, process_object_events, text_align_of, z_index_down, z_index_up, TextAlign,
    MAX_Z_INDEX,
};
use yutikor::page::{
    close_process, copy_paste_process, delete_process, hotkey_process, remove_obj_if_need, sort_by_z,
};
use yutikor::state::{EditorState, Yuti};

fn obj(text: &str, z: u32) -> Object {
    let mut o = Object::new(text, (1.0f32.to_bits(), 2.0f32.to_bits()));
    o.z_index = z;
    o
}

fn page(objs: Vec<Object>) -> Page {
    Page { objects: objs }
}

fn texts(p: &Page) -> Vec<String> {
    p.objects.iter().map(|o| o.text.clone()).collect()
}

fn editor() -> EditorState {
    Yuti::new().editor_state
}

#[test]
fn new_text_object() {
    let o = Object::new("hello", (3.0f32.to_bits(), 4.0f32.to_bits()));
    assert_eq!(o.text, "hello");
    assert_eq!(o.pos, (3.0f32.to_bits(), 4.0f32.to_bits()));
    assert_eq!(o.size, (80.0f32.to_bits(), 20.0f32.to_bits()));
    assert_eq!(o.corner_radius, 10.0f32.to_bits());
    assert_eq!(o.color, (80, 80, 80, 255));
    assert_eq!(o.font_color, (255, 255, 255, 255));
    assert_eq!(o.font_size, 10.0f32.to_bits());
    assert_eq!(o.text_offset, (10.0f32.to_bits(), 10.0f32.to_bits()));
    assert_eq!(o.text_align, 0);
    assert_eq!(o.stroke_color, (255, 255, 255, 255));
    assert_eq!(o.stroke_width, 2.0f32.to_bits());
    assert_eq!(o.z_index, 0);
    assert!(o.image_path.is_none());
}

#[test]
fn new_image_object() {
    let o = Object::new_image("pic.png".to_string(), (0.5f32.to_bits(), 0.25f32.to_bits()));
    assert_eq!(o.text, "");
    assert_eq!(o.size, (200.0f32.to_bits(), 150.0f32.to_bits()));
    assert_eq!(o.corner_radius, 0.0f32.to_bits());
    assert_eq!(o.color, (255, 255, 255, 0));
    assert_eq!(o.text_offset, (0, 0));
    assert_eq!(o.stroke_color, (180, 180, 180, 255));
    assert_eq!(o.stroke_width, 1.0f32.to_bits());
    assert_eq!(o.image_path.as_deref(), Some("pic.png"));
}

#[test]
fn default_page_is_empty() {
    assert!(Page::default().objects.is_empty());
}

#[test]
fn objects_are_ordered_by_layer_stably() {
    let mut p = page(vec![obj("a2", 2), obj("b1", 1), obj("c2", 2), obj("d0", 0), obj("e1", 1)]);
    sort_by_z(&mut p);
    assert_eq!(texts(&p), vec!["d0", "b1", "e1", "a2", "c2"]);
    sort_by_z(&mut p);
    assert_eq!(texts(&p), vec!["d0", "b1", "e1", "a2", "c2"]);
}

#[test]
fn ordering_an_empty_page() {
    let mut p = page(vec![]);
    sort_by_z(&mut p);
    assert!(p.objects.is_empty());
}

#[test]
fn requested_removal_is_done_once() {
    let mut p = page(vec![obj("a", 0), obj("b", 0), obj("c", 0)]);
    let mut id = Some(1);
    remove_obj_if_need(&mut p, &mut id);
    assert_eq!(texts(&p), vec!["a", "c"]);
    assert_eq!(id, None);
    remove_obj_if_need(&mut p, &mut id);
    assert_eq!(texts(&p), vec!["a", "c"]);
}

#[test]
fn copy_then_paste_puts_a_copy_at_the_mouse() {
    let mut p = page(vec![obj("a", 3), obj("b", 0)]);
    let mut e = editor();
    e.selected_object_id = Some(0);
    let mouse = (7.0f32.to_bits(), 8.0f32.to_bits());
    copy_paste_process(true, false, &mut e, &mut p, mouse);
    assert_eq!(e.copied_object.as_ref().map(|o| o.text.clone()), Some("a".to_string()));
    assert_eq!(p.objects.len(), 2);
    copy_paste_process(false, true, &mut e, &mut p, mouse);
    assert_eq!(texts(&p), vec!["a", "b", "a"]);
    assert_eq!(p.objects[2].pos, mouse);
    assert_eq!(p.objects[2].z_index, 3);
    assert_eq!(p.objects[0].pos, (1.0f32.to_bits(), 2.0f32.to_bits()));
}

#[test]
fn copy_and_paste_in_one_frame() {
    let mut p = page(vec![obj("a", 0)]);
    let mut e = editor();
    e.selected_object_id = Some(0);
    copy_paste_process(true, true, &mut e, &mut p, (0, 0));
    assert_eq!(texts(&p), vec!["a", "a"]);
}

#[test]
fn no_copy_or_paste_while_editing_text() {
    let mut p = page(vec![obj("a", 0)]);
    let mut e = editor();
    e.selected_object_id = Some(0);
    e.is_selected_for_text_edit = true;
    copy_paste_process(true, true, &mut e, &mut p, (0, 0));
    assert!(e.copied_object.is_none());
    assert_eq!(p.objects.len(), 1);
}

#[test]
fn copy_of_a_missing_object_keeps_the_old_copy() {
    let mut p = page(vec![obj("a", 0)]);
    let mut e = editor();
    e.copied_object = Some(obj("old", 0));
    e.selected_object_id = Some(5);
    copy_paste_process(true, false, &mut e, &mut p, (0, 0));
    assert_eq!(e.copied_object.as_ref().map(|o| o.text.clone()), Some("old".to_string()));
}

#[test]
fn paste_with_nothing_copied() {
    let mut p = page(vec![obj("a", 0)]);
    let mut e = editor();
    copy_paste_process(false, true, &mut e, &mut p, (0, 0));
    assert_eq!(p.objects.len(), 1);
}

#[test]
fn delete_removes_the_selection() {
    let mut p = page(vec![obj("a", 0), obj("b", 0)]);
    let mut e = editor();
    e.selected_object_id = Some(0);
    delete_process(true, &mut e, &mut p);
    assert_eq!(texts(&p), vec!["b"]);
    assert_eq!(e.selected_object_id, Some(0));
    e.is_selected_for_text_edit = true;
    delete_process(true, &mut e, &mut p);
    assert_eq!(texts(&p), vec!["b"]);
}

#[test]
fn escape_asks_to_close() {
    let mut e = editor();
    close_process(false, &mut e);
    assert!(!e.page_to_close);
    close_process(true, &mut e);
    assert!(e.page_to_close);
    close_process(false, &mut e);
    assert!(e.page_to_close);
}

#[test]
fn keys_of_one_frame() {
    let mut p = page(vec![obj("a", 0), obj("b", 0)]);
    let mut e = editor();
    e.selected_object_id = Some(1);
    e.copied_object = Some(obj("x", 0));
    hotkey_process(false, true, true, true, (0, 0), &mut e, &mut p);
    assert_eq!(texts(&p), vec!["a", "x"]);
    assert!(e.page_to_close);
}

#[test]
fn clicks_select_objects() {
    let mut e = editor();
    process_object_events(2, true, false, &mut e);
    assert_eq!(e.selected_object_id, Some(2));
    assert!(!e.is_selected_for_text_edit);
    process_object_events(3, true, true, &mut e);
    assert_eq!(e.selected_object_id, Some(3));
    assert!(e.is_selected_for_text_edit);
    process_object_events(4, false, false, &mut e);
    assert_eq!(e.selected_object_id, Some(3));
    process_background_click(false, &mut e);
    assert_eq!(e.selected_object_id, Some(3));
    process_background_click(true, &mut e);
    assert_eq!(e.selected_object_id, None);
    assert!(!e.is_selected_for_text_edit);
}

#[test]
fn alignment_codes() {
    assert_eq!(text_align_of(0), TextAlign::Center);
    assert_eq!(text_align_of(1), TextAlign::Left);
    assert_eq!(text_align_of(2), TextAlign::Right);
    assert_eq!(text_align_of(7), TextAlign::Center);
}

#[test]
fn layer_buttons() {
    let mut o = obj("a", 5);
    let mut e = editor();
    e.selected_object_id = Some(0);
    z_index_up(&mut o, &mut e);
    assert_eq!(o.z_index, 6);
    assert_eq!(e.selected_object_id, None);
    z_index_down(&mut o, &mut e);
    assert_eq!(o.z_index, 5);
    o.z_index = 0;
    z_index_down(&mut o, &mut e);
    assert_eq!(o.z_index, 0);
    o.z_index = MAX_Z_INDEX;
    z_index_up(&mut o, &mut e);
    assert_eq!(o.z_index, 999999);
    o.z_index = u32::MAX;
    z_index_up(&mut o, &mut e);
    assert_eq!(o.z_index, 999999);
}

#[test]
fn objects_clone_field_for_field() {
    let mut o = obj("a", 9);
    o.image_path = Some("p.png".to_string());
    let c = o.clone();
    assert_eq!(c.text, "a");
    assert_eq!(c.z_index, 9);
    assert_eq!(c.image_path.as_deref(), Some("p.png"));
}
