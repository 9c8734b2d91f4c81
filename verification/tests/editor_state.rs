use std::collections::VecDeque;

use yutikor::color::Color32Bytes;
use yutikor::data::{LinkType, Node, Object, Page};
use yutikor::folders::{
    accept_folder, cache_text_for, contains_folder, forget_folder, recent_folders_from_cache, remember_folder,
    trim_recent_folders,
};
use yutikor::state::{FolderState, Yuti};

fn node(path: &str, subs: Vec<Node>) -> Node {
    Node { name: path.to_string(), path: path.to_string(), pos: (0, 0), sub_nodes: if subs.is_empty() { None } else { Some(subs) } }
}

fn page_with(text: &str) -> Page {
    Page { objects: vec![Object::new(text, (0, 0))] }
}

#[test]
fn a_fresh_editor() {
    let y = Yuti::new();
    assert!(y.path.is_none());
    assert!(y.graph_root_node.is_none());
    assert!(y.crt_page.is_none());
    assert_eq!(y.editor_state.grid_size, 10.0f32.to_bits());
    assert!(!y.editor_state.page_to_close);
    assert!(y.editor_state.selected_object_id.is_none());
    assert!(y.editor_state.copied_object.is_none());
    assert_eq!(y.editor_state.tools_buf.color_picker, Color32Bytes { r: 0, g: 0, b: 0, a: 255 });
    assert_eq!(y.editor_state.tools_buf.stroke_color_picker, Color32Bytes { r: 0, g: 0, b: 0, a: 255 });
    assert!(y.graph_state.page_links.is_empty());
    assert_eq!(y.graph_state.start_coord, (0, 0));
    assert_eq!(y.folder_state.path_line, "");
    assert!(!y.folder_state.is_path_to_clear);
}

#[test]
fn resetting_the_editor() {
    let mut y = Yuti::new();
    y.graph_root_node = Some(node("r.json", vec![node("a.json", vec![])]));
    y.enter_page("r.json".to_string(), page_with("x"));
    y.editor_state.page_to_close = true;
    y.editor_state.are_tools_visible = true;
    y.editor_state.selected_object_id = Some(0);
    y.editor_state.is_selected_for_text_edit = true;
    y.editor_state.object_to_remove_id = Some(0);
    y.reset_editor_state();
    assert!(!y.editor_state.page_to_close);
    assert!(!y.editor_state.are_tools_visible);
    assert!(y.editor_state.selected_object_id.is_none());
    assert!(!y.editor_state.is_selected_for_text_edit);
    assert!(y.graph_state.page_links.is_empty());
    assert_eq!(y.editor_state.object_to_remove_id, Some(0));
    assert!(y.crt_page.is_some());
}

#[test]
fn entering_then_leaving_a_page_saves_it() {
    let mut y = Yuti::new();
    y.graph_root_node = Some(node("r.json", vec![node("a.json", vec![])]));
    y.graph_state.page_to_switch = Some("a.json".to_string());
    y.enter_page("a.json".to_string(), page_with("hello"));
    assert!(y.graph_state.page_to_switch.is_none());
    assert_eq!(y.graph_state.node_to_load_by_path.as_deref(), Some("a.json"));
    assert_eq!(y.graph_state.page_links.len(), 1);
    assert_eq!(y.graph_state.page_links[0].link_type, LinkType::ParentLink);
    y.editor_state.page_to_close = true;
    y.editor_state.are_tools_visible = true;
    y.editor_state.selected_object_id = Some(0);
    y.editor_state.is_selected_for_text_edit = true;
    y.editor_state.copied_object = Some(Object::new("kept", (0, 0)));
    let saved = y.leave_page();
    let (path, page) = saved.expect("the page is to be saved");
    assert_eq!(path, "a.json");
    assert_eq!(page.objects[0].text, "hello");
    assert!(y.crt_page.is_none());
    assert!(!y.editor_state.page_to_close);
    assert!(!y.editor_state.are_tools_visible);
    assert!(y.editor_state.selected_object_id.is_none());
    assert!(!y.editor_state.is_selected_for_text_edit);
    assert!(y.editor_state.copied_object.is_some());
    assert!(y.graph_state.page_links.is_empty());
}

#[test]
fn leaving_without_a_known_file_saves_nothing() {
    let mut y = Yuti::new();
    y.crt_page = Some(page_with("x"));
    assert!(y.leave_page().is_none());
    assert!(y.crt_page.is_none());
    let mut z = Yuti::new();
    z.graph_state.node_to_load_by_path = Some("a.json".to_string());
    assert!(z.leave_page().is_none());
}

#[test]
fn graph_view_commands() {
    let mut y = Yuti::new();
    let mut root = node("r.json", vec![node("a.json", vec![]), node("b.json", vec![])]);
    y.graph_state.node_to_load_by_path = Some("a.json".to_string());
    y.graph_state.node_to_remove_by_path = Some("b.json".to_string());
    y.graph_state.start_coord = (5, 6);
    y.graph_state.go_home();
    assert_eq!(y.graph_state.start_coord, (0, 0));
    y.graph_state.apply_node_removal(&mut root);
    assert!(y.graph_state.node_to_remove_by_path.is_none());
    assert_eq!(root.sub_nodes.as_ref().unwrap().len(), 1);
    let mut crt = None;
    y.graph_state.open_page(&mut crt, &root, "a.json", page_with("p"));
    assert!(crt.is_some());
    assert_eq!(y.graph_state.page_links.len(), 1);
    y.graph_state.begin_graph_frame();
    assert!(y.graph_state.node_to_load_by_path.is_none());
    assert!(y.graph_state.node_to_remove_by_path.is_none());
    let mut f = FolderState { path_line: "x".to_string(), is_path_to_clear: false };
    y.graph_state.page_to_switch = Some("a.json".to_string());
    y.graph_state.request_another_path(&mut f);
    assert!(y.graph_state.page_to_switch.is_none());
    assert!(f.is_path_to_clear);
    assert_eq!(f.path_line, "x");
}

fn folders(names: &[&str]) -> VecDeque<String> {
    names.iter().map(|s| s.to_string()).collect()
}

#[test]
fn recent_folders_keep_the_ten_newest() {
    let names: Vec<String> = (0..12).map(|i| format!("/f{}", i)).collect();
    let mut list: VecDeque<String> = names.iter().cloned().collect();
    trim_recent_folders(&mut list);
    assert_eq!(list.len(), 10);
    assert_eq!(list.front().map(|s| s.as_str()), Some("/f2"));
    assert_eq!(list.back().map(|s| s.as_str()), Some("/f11"));
    let mut short = folders(&["/a", "/b"]);
    trim_recent_folders(&mut short);
    assert_eq!(short, folders(&["/a", "/b"]));
}

#[test]
fn remembering_folders() {
    let mut list = folders(&["/a", "/b"]);
    assert!(contains_folder(&list, "/b"));
    assert!(contains_folder(&list, "/b/"));
    assert!(!contains_folder(&list, "/c"));
    remember_folder(&mut list, "/c".to_string());
    remember_folder(&mut list, "/a".to_string());
    remember_folder(&mut list, "//a".to_string());
    assert_eq!(list, folders(&["/a", "/b", "/c"]));
}

#[test]
fn forgetting_folders() {
    let mut list = folders(&["/a", "/b", "/c"]);
    forget_folder(&mut list, 1);
    assert_eq!(list, folders(&["/a", "/c"]));
    forget_folder(&mut list, 9);
    assert_eq!(list, folders(&["/a", "/c"]));
}

#[test]
fn accepting_a_folder() {
    let mut path = None;
    let mut list = folders(&["/a"]);
    accept_folder(&mut path, &mut list, "/notes".to_string());
    assert_eq!(path.as_deref(), Some("/notes"));
    assert_eq!(list, folders(&["/a", "/notes"]));
    accept_folder(&mut path, &mut list, "/a".to_string());
    assert_eq!(path.as_deref(), Some("/a"));
    assert_eq!(list, folders(&["/a", "/notes"]));
}

#[test]
fn giving_up_the_folder() {
    let mut y = Yuti::new();
    y.path = Some("/notes".to_string());
    y.graph_root_node = Some(node("r.json", vec![]));
    y.folder_state.is_path_to_clear = true;
    y.folder_state.path_line = "/notes".to_string();
    let graph = y.give_up_folder();
    assert_eq!(graph.map(|g| g.path), Some("r.json".to_string()));
    assert!(y.path.is_none());
    assert!(y.graph_root_node.is_none());
    assert!(!y.folder_state.is_path_to_clear);
    assert_eq!(y.folder_state.path_line, "/notes");
}

#[test]
fn top_menu_buttons() {
    let mut e = Yuti::new().editor_state;
    e.toggle_tools();
    assert!(e.are_tools_visible);
    e.toggle_tools();
    assert!(!e.are_tools_visible);
    e.request_close();
    assert!(e.page_to_close);
}

#[test]
fn reading_the_folder_cache() {
    assert_eq!(recent_folders_from_cache(r#"["/a","/b"]"#), folders(&["/a", "/b"]));
    assert!(recent_folders_from_cache("").is_empty());
    assert!(recent_folders_from_cache("not json").is_empty());
    assert!(recent_folders_from_cache(r#"{"a": 1}"#).is_empty());
    let many: Vec<String> = (0..12).map(|i| format!("\"/f{}\"", i)).collect();
    let text = format!("[{}]", many.join(","));
    let list = recent_folders_from_cache(&text);
    assert_eq!(list.len(), 10);
    assert_eq!(list.front().map(|s| s.as_str()), Some("/f2"));
}

#[test]
fn writing_the_folder_cache() {
    assert_eq!(cache_text_for(&folders(&["/a", "/b c"])), r#"["/a","/b c"]"#);
    assert_eq!(cache_text_for(&folders(&[])), "[]");
    let list = folders(&["/x", "/y"]);
    assert_eq!(recent_folders_from_cache(&cache_text_for(&list)), list);
}
