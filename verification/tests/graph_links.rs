use yutikor::data::{LinkType, Node, PageLink};
use yutikor::graph::{get_links_by_path, search_and_remove_node_recursiv};

fn node(path: &str, x: f32, y: f32, subs: Vec<Node>) -> Node {
    Node {
        name: path.to_string(),
        path: path.to_string(),
        pos: (x.to_bits(), y.to_bits()),
        sub_nodes: if subs.is_empty() { None } else { Some(subs) },
    }
}

// r.json (0,0)
//   a.json (10,0)
//     c.json (20,0)
//   b.json (0,10)
fn sample() -> Node {
    node(
        "r.json",
        0.0,
        0.0,
        vec![node("a.json", 10.0, 0.0, vec![node("c.json", 20.0, 0.0, vec![])]), node("b.json", 0.0, 10.0, vec![])],
    )
}

fn pos(x: f32, y: f32) -> (u32, u32) {
    (x.to_bits(), y.to_bits())
}

fn paths_of(links: &[PageLink]) -> Vec<(LinkType, String)> {
    links.iter().map(|l| (l.link_type, l.file_name.clone())).collect()
}

fn sub_paths(n: &Node) -> Vec<String> {
    n.sub_nodes.iter().flatten().map(|c| c.path.clone()).collect()
}

#[test]
fn links_of_the_root_page() {
    let links = get_links_by_path("r.json", &sample());
    assert_eq!(
        paths_of(&links),
        vec![(LinkType::ChildLink, "a.json".to_string()), (LinkType::ChildLink, "b.json".to_string())]
    );
    assert_eq!(links[0].from_pos, pos(0.0, 0.0));
    assert_eq!(links[0].to_pos, pos(10.0, 0.0));
    assert_eq!(links[1].to_pos, pos(0.0, 10.0));
}

#[test]
fn links_of_an_inner_page() {
    let links = get_links_by_path("a.json", &sample());
    assert_eq!(
        paths_of(&links),
        vec![(LinkType::ParentLink, "r.json".to_string()), (LinkType::ChildLink, "c.json".to_string())]
    );
    assert_eq!(links[0].from_pos, pos(10.0, 0.0));
    assert_eq!(links[0].to_pos, pos(0.0, 0.0));
    assert_eq!(links[1].from_pos, pos(10.0, 0.0));
    assert_eq!(links[1].to_pos, pos(20.0, 0.0));
}

#[test]
fn links_of_a_deep_leaf_page() {
    let links = get_links_by_path("c.json", &sample());
    assert_eq!(paths_of(&links), vec![(LinkType::ParentLink, "a.json".to_string())]);
    assert_eq!(links[0].to_pos, pos(10.0, 0.0));
}

#[test]
fn links_of_an_absent_page_are_none() {
    assert!(get_links_by_path("x.json", &sample()).is_empty());
}

#[test]
fn links_of_a_lone_root_are_none() {
    let lone = node("r.json", 0.0, 0.0, vec![]);
    assert!(get_links_by_path("r.json", &lone).is_empty());
}

#[test]
fn links_compare_pages_as_paths() {
    let tree = node("dir/r.json", 0.0, 0.0, vec![node("dir/a.json", 1.0, 1.0, vec![])]);
    let links = get_links_by_path("dir//a.json", &tree);
    assert_eq!(paths_of(&links), vec![(LinkType::ParentLink, "dir/r.json".to_string())]);
    assert!(get_links_by_path("./dir/a.json", &tree).is_empty());
}

#[test]
fn removing_a_direct_child() {
    let mut tree = sample();
    search_and_remove_node_recursiv(&mut tree, "a.json");
    assert_eq!(sub_paths(&tree), vec!["b.json".to_string()]);
}

#[test]
fn removing_a_deep_node() {
    let mut tree = sample();
    search_and_remove_node_recursiv(&mut tree, "c.json");
    assert_eq!(sub_paths(&tree), vec!["a.json".to_string(), "b.json".to_string()]);
    let a = &tree.sub_nodes.as_ref().unwrap()[0];
    assert_eq!(a.sub_nodes.as_ref().map(|v| v.len()), Some(0));
}

#[test]
fn removing_an_absent_page_changes_nothing() {
    let mut tree = sample();
    search_and_remove_node_recursiv(&mut tree, "x.json");
    assert_eq!(sub_paths(&tree), vec!["a.json".to_string(), "b.json".to_string()]);
    assert_eq!(get_links_by_path("c.json", &tree).len(), 1);
}

#[test]
fn the_root_is_never_removed() {
    let mut tree = sample();
    search_and_remove_node_recursiv(&mut tree, "r.json");
    assert_eq!(tree.path, "r.json");
    assert_eq!(sub_paths(&tree), vec!["a.json".to_string(), "b.json".to_string()]);
}

#[test]
fn only_the_first_matching_child_goes() {
    let mut tree = node("r.json", 0.0, 0.0, vec![node("d.json", 1.0, 0.0, vec![]), node("d.json", 2.0, 0.0, vec![])]);
    search_and_remove_node_recursiv(&mut tree, "d.json");
    let subs = tree.sub_nodes.as_ref().unwrap();
    assert_eq!(subs.len(), 1);
    assert_eq!(subs[0].pos, pos(2.0, 0.0));
}

#[test]
fn new_nodes_are_named_by_their_id() {
    let n = Node::default_with_id(255);
    assert_eq!(n.name, "NewNode");
    assert_eq!(n.path, "ff.json");
    assert_eq!(n.pos, (0, 0));
    assert!(n.sub_nodes.is_none());
    assert_eq!(Node::default_with_id(0).path, "0.json");
    assert_eq!(Node::default_with_id(0x1a2b3c).path, "1a2b3c.json");
    assert_eq!(Node::default_with_id(u128::MAX).path, format!("{:x}.json", u128::MAX));
}

#[test]
fn added_nodes_come_last() {
    let mut lone = node("r.json", 0.0, 0.0, vec![]);
    lone.add_sub_node(node("a.json", 1.0, 1.0, vec![]));
    lone.add_sub_node(node("b.json", 2.0, 2.0, vec![]));
    assert_eq!(sub_paths(&lone), vec!["a.json".to_string(), "b.json".to_string()]);
    let links = get_links_by_path("r.json", &lone);
    assert_eq!(links.last().unwrap().file_name, "b.json");
}

#[test]
fn removing_an_added_node_undoes_the_addition() {
    let mut tree = sample();
    tree.add_sub_node(node("n.json", 5.0, 5.0, vec![]));
    search_and_remove_node_recursiv(&mut tree, "n.json");
    assert_eq!(sub_paths(&tree), vec!["a.json".to_string(), "b.json".to_string()]);
}

#[test]
fn links_are_well_shaped() {
    for p in ["r.json", "a.json", "b.json", "c.json"] {
        let links = get_links_by_path(p, &sample());
        for l in links.iter().skip(1) {
            assert_eq!(l.link_type, LinkType::ChildLink);
        }
    }
}

#[test]
fn removed_page_has_no_links() {
    let mut tree = sample();
    assert!(!get_links_by_path("b.json", &tree).is_empty());
    search_and_remove_node_recursiv(&mut tree, "b.json");
    assert!(get_links_by_path("b.json", &tree).is_empty());
}

#[test]
fn removal_only_takes_nodes_away() {
    let mut tree = sample();
    search_and_remove_node_recursiv(&mut tree, "a.json");
    assert!(get_links_by_path("c.json", &tree).is_empty());
    assert!(get_links_by_path("a.json", &tree).is_empty());
    assert_eq!(get_links_by_path("b.json", &tree).len(), 1);
}
