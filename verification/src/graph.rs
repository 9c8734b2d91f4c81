//! The page graph: finding the links of a page and removing nodes.
use vstd::prelude::*;

use crate::data::{kids, LinkType, Node, NodeView, PageLink, PageLinkView};
use crate::data;
use crate::path;
use crate::path::paths_equal;

verus! {

/// The index of the first node of `s` from index `i` on whose path is `path`.
pub open spec fn first_match_from(path: Seq<char>, s: Seq<NodeView>, i: int) -> Option<int>
    decreases s.len() - i,
{
    if i < 0 || i >= s.len() {
        None
    } else if path::same_path(s[i].path, path) {
        Some(i)
    } else {
        first_match_from(path, s, i + 1)
    }
}

/// The index of the first node of `s` whose path is `path`.
pub open spec fn first_match(path: Seq<char>, s: Seq<NodeView>) -> Option<int> {
    first_match_from(path, s, 0)
}

/// The links from the page of `n` to the pages of the nodes directly below it, in order.
pub open spec fn child_links(n: NodeView) -> Seq<PageLinkView> {
    Seq::new(
        kids(n).len(),
        |j: int|
            PageLinkView {
                link_type: LinkType::ChildLink,
                from_pos: n.pos,
                to_pos: kids(n)[j].pos,
                file_name: kids(n)[j].path,
            },
    )
}

/// The link from the page of `child` up to the page of its parent `parent`.
pub open spec fn parent_link(parent: NodeView, child: NodeView) -> PageLinkView {
    PageLinkView {
        link_type: LinkType::ParentLink,
        from_pos: child.pos,
        to_pos: parent.pos,
        file_name: parent.path,
    }
}

/// The first list of `rs` that is not empty, or the empty list.
pub open spec fn first_nonempty(rs: Seq<Seq<PageLinkView>>) -> Seq<PageLinkView>
    decreases rs.len(),
{
    if rs.len() == 0 {
        seq![]
    } else if rs[0].len() > 0 {
        rs[0]
    } else {
        first_nonempty(rs.drop_first())
    }
}

/// The links that each node directly below `n` gives for the page `path`, in order.
pub open spec fn links_below(path: Seq<char>, n: NodeView) -> Seq<Seq<PageLinkView>>
    decreases n, 0int,
{
    match n.sub_nodes {
        None => seq![],
        Some(s) => Seq::new(
            s.len(),
            |j: int|
                if 0 <= j < s.len() {
                    links_for(path, s[j])
                } else {
                    seq![]
                },
        ),
    }
}

/// The links of the page `path` in the graph below `n`. If `n` is the page,
/// its child links; else, if a node directly below `n` is the page (the first
/// one), the link up to `n` followed by that node's child links; else the
/// first non-empty answer of the nodes below `n`, taken in order.
pub open spec fn links_for(path: Seq<char>, n: NodeView) -> Seq<PageLinkView>
    decreases n, 1int,
{
    if path::same_path(n.path, path) {
        child_links(n)
    } else {
        match first_match(path, kids(n)) {
            Some(i) => seq![parent_link(n, kids(n)[i])] + child_links(kids(n)[i]),
            None => first_nonempty(links_below(path, n)),
        }
    }
}

/// What removing the page `path` makes of each node directly below `n`.
pub open spec fn removed_below(path: Seq<char>, n: NodeView) -> Seq<NodeView>
    decreases n, 0int,
{
    match n.sub_nodes {
        None => seq![],
        Some(s) => Seq::new(
            s.len(),
            |j: int|
                if 0 <= j < s.len() {
                    removed(path, s[j])
                } else {
                    n
                },
        ),
    }
}

/// The graph `n` after removing the page `path`: if a node directly below `n`
/// is the page, the first such node goes, with everything below it; else the
/// removal is done in each node below `n`. `n` itself always stays.
pub open spec fn removed(path: Seq<char>, n: NodeView) -> NodeView
    decreases n, 1int,
{
    match n.sub_nodes {
        None => n,
        Some(s) => match first_match(path, s) {
            Some(i) => NodeView { sub_nodes: Some(s.remove(i)), ..n },
            None => NodeView { sub_nodes: Some(removed_below(path, n)), ..n },
        },
    }
}

proof fn lemma_first_match_skip(path: Seq<char>, s: Seq<NodeView>, i: int)
    requires
        0 <= i <= s.len(),
        forall|k: int| 0 <= k < i ==> !path::same_path(#[trigger] s[k].path, path),
    ensures
        first_match(path, s) == first_match_from(path, s, i),
    decreases i,
{
    if i > 0 {
        lemma_first_match_skip(path, s, i - 1);
    }
}

proof fn lemma_first_match_in_range(path: Seq<char>, s: Seq<NodeView>, i: int)
    requires
        0 <= i,
    ensures
        first_match_from(path, s, i) matches Some(k) ==> i <= k < s.len() && path::same_path(
            s[k].path,
            path,
        ),
    decreases s.len() - i,
{
    if i < s.len() {
        lemma_first_match_in_range(path, s, i + 1);
    }
}

proof fn lemma_first_match_none(path: Seq<char>, s: Seq<NodeView>, i: int)
    requires
        0 <= i <= s.len(),
        forall|k: int| i <= k < s.len() ==> !path::same_path(#[trigger] s[k].path, path),
    ensures
        first_match_from(path, s, i) is None,
    decreases s.len() - i,
{
    if i < s.len() {
        lemma_first_match_none(path, s, i + 1);
    }
}

proof fn lemma_first_nonempty_skip(rs: Seq<Seq<PageLinkView>>, j: int)
    requires
        0 <= j <= rs.len(),
        forall|k: int| 0 <= k < j ==> (#[trigger] rs[k]).len() == 0,
    ensures
        first_nonempty(rs) == first_nonempty(rs.subrange(j, rs.len() as int)),
    decreases j,
{
    if j > 0 {
        assert(rs.drop_first().subrange(j - 1, rs.drop_first().len() as int) =~= rs.subrange(
            j,
            rs.len() as int,
        ));
        lemma_first_nonempty_skip(rs.drop_first(), j - 1);
    } else {
        assert(rs.subrange(0, rs.len() as int) =~= rs);
    }
}

/// Appends the links from the page of `node` to each page directly below it.
fn push_child_links(links: &mut Vec<PageLink>, node: &Node)
    ensures
        crate::data::link_views(final(links)@) == crate::data::link_views(old(links)@) + child_links(node@),
{
    let ghost start = crate::data::link_views(links@);
    match &node.sub_nodes {
        None => {
            assert(crate::data::link_views(links@) =~= start + child_links(node@));
        },
        Some(subs) => {
            let mut i: usize = 0;
            while i < subs.len()
                invariant
                    i <= subs@.len(),
                    node.sub_nodes == Some(*subs),
                    crate::data::link_views(links@) =~= start + child_links(node@).subrange(0, i as int),
                decreases subs@.len() - i,
            {
                let ghost before = links@;
                assert(kids(node@)[i as int] == subs@[i as int]@);
                links.push(
                    PageLink {
                        link_type: LinkType::ChildLink,
                        from_pos: node.pos,
                        to_pos: subs[i].pos,
                        file_name: subs[i].path.clone(),
                    },
                );
                assert(crate::data::link_views(links@) =~= crate::data::link_views(before).push(
                    links@[before.len() as int]@,
                ));
                assert(child_links(node@).subrange(0, i + 1) =~= child_links(node@).subrange(
                    0,
                    i as int,
                ).push(child_links(node@)[i as int]));
                assert(crate::data::link_views(links@) =~= start + child_links(node@).subrange(
                    0,
                    i + 1,
                ));
                i = i + 1;
            }
            assert(child_links(node@).subrange(0, i as int) =~= child_links(node@));
        },
    }
}


/// The links of the page whose file is `path`, found in the graph below
/// `root_node` as [`links_for`] says: its child links first found at the
/// node of the page, preceded by the link up to the parent when the page is
/// not `root_node`'s; no links when no node of the graph has the page.
pub fn get_links_by_path(path: &str, root_node: &Node) -> (links: Vec<PageLink>)
    ensures
        crate::data::link_views(links@) == links_for(path@, root_node@),
    decreases root_node,
{
    let mut links: Vec<PageLink> = Vec::new();
    if paths_equal(root_node.path.as_str(), path) {
        assert(crate::data::link_views(links@) =~= seq![]);
        push_child_links(&mut links, root_node);
        assert(crate::data::link_views(links@) =~= child_links(root_node@));
        return links;
    }
    match &root_node.sub_nodes {
        None => {
            assert(crate::data::link_views(links@) =~= seq![]);
            links
        },
        Some(subs) => {
            let ghost s = kids(root_node@);
            assert(s.len() == subs@.len());
            assert(forall|k: int| 0 <= k < s.len() ==> s[k] == (#[trigger] subs@[k])@);
            let mut i: usize = 0;
            while i < subs.len()
                invariant
                    i <= subs@.len(),
                    s.len() == subs@.len(),
                    forall|k: int| 0 <= k < s.len() ==> s[k] == (#[trigger] subs@[k])@,
                    forall|k: int| 0 <= k < i ==> !path::same_path(#[trigger] s[k].path, path@),
                    !path::same_path(root_node@.path, path@),
                    s == kids(root_node@),
                    links@.len() == 0,
                decreases subs@.len() - i,
            {
                if paths_equal(subs[i].path.as_str(), path) {
                    proof {
                        lemma_first_match_skip(path@, s, i as int);
                        assert(first_match(path@, s) == Some(i as int));
                    }
                    links.push(
                        PageLink {
                            link_type: LinkType::ParentLink,
                            from_pos: subs[i].pos,
                            to_pos: root_node.pos,
                            file_name: root_node.path.clone(),
                        },
                    );
                    assert(crate::data::link_views(links@) =~= seq![
                        parent_link(root_node@, s[i as int]),
                    ]);
                    push_child_links(&mut links, &subs[i]);
                    assert(!path::same_path(root_node@.path, path@));
                    assert(links_for(path@, root_node@) == seq![parent_link(root_node@, s[i as int])]
                        + child_links(s[i as int]));
                    return links;
                }
                i = i + 1;
            }
            proof {
                lemma_first_match_none(path@, s, 0);
            }
            let ghost rs = links_below(path@, root_node@);
            let mut j: usize = 0;
            while j < subs.len()
                invariant
                    j <= subs@.len(),
                    s.len() == subs@.len(),
                    rs.len() == s.len(),
                    forall|k: int| 0 <= k < s.len() ==> s[k] == (#[trigger] subs@[k])@,
                    forall|k: int|
                        0 <= k < s.len() ==> #[trigger] rs[k] == links_for(path@, s[k]),
                    forall|k: int| 0 <= k < j ==> (#[trigger] rs[k]).len() == 0,
                    links_for(path@, root_node@) == first_nonempty(rs),
                    root_node.sub_nodes == Some(*subs),
                decreases subs@.len() - j,
            {
                proof {
                    assert(decreases_to!(*root_node => root_node.sub_nodes));
                    assert(root_node.sub_nodes == Some(*subs));
                    assert(decreases_to!(root_node.sub_nodes => root_node.sub_nodes->0));
                    assert(decreases_to!(*subs => subs@));
                    assert(decreases_to!(subs@ => subs@[j as int]));
                }
                let found = get_links_by_path(path, &subs[j]);
                if found.len() > 0 {
                    proof {
                        lemma_first_nonempty_skip(rs, j as int);
                        assert(rs.subrange(j as int, rs.len() as int)[0] == rs[j as int]);
                    }
                    return found;
                }
                j = j + 1;
            }
            proof {
                lemma_first_nonempty_skip(rs, j as int);
            }
            assert(crate::data::link_views(links@) =~= seq![]);
            links
        },
    }
}


/// Removes the page whose file is `path` from the graph below `node`, as
/// [`removed`] says: the first node directly below `node` with that page goes
/// with everything below it; when there is none, the removal is done in each
/// node below `node`. `node` itself stays.
pub fn search_and_remove_node_recursiv(node: &mut Node, path: &str)
    ensures
        final(node)@ == removed(path@, old(node)@),
    decreases *old(node),
{
    let ghost before = node@;
    let ghost whole = *node;
    match node.sub_nodes.take() {
        None => {
            assert(node@ == before);
        },
        Some(mut subs) => {
            let ghost orig = subs@;
            let ghost s = kids(before);
            assert(whole.sub_nodes == Some(subs));
            assert(s.len() == subs@.len());
            assert(forall|k: int| 0 <= k < s.len() ==> s[k] == (#[trigger] subs@[k])@);
            let mut i: usize = 0;
            while i < subs.len()
                invariant
                    i <= subs@.len(),
                    subs@ == orig,
                    s.len() == subs@.len(),
                    forall|k: int| 0 <= k < s.len() ==> s[k] == (#[trigger] subs@[k])@,
                    forall|k: int| 0 <= k < i ==> !path::same_path(#[trigger] s[k].path, path@),
                    before == whole@,
                    whole.sub_nodes is Some,
                    whole.sub_nodes->0@ == orig,
                    s == kids(before),
                    whole == *old(node),
                    node.name == whole.name,
                    node.path == whole.path,
                    node.pos == whole.pos,
                decreases subs@.len() - i,
            {
                if paths_equal(subs[i].path.as_str(), path) {
                    proof {
                        lemma_first_match_skip(path@, s, i as int);
                        assert(first_match(path@, s) == Some(i as int));
                    }
                    subs.remove(i);
                    node.sub_nodes = Some(subs);
                    assert(kids(node@) =~= s.remove(i as int));
                    assert(node@ == removed(path@, before));
                    return;
                }
                i = i + 1;
            }
            proof {
                lemma_first_match_none(path@, s, 0);
            }
            let ghost rb = removed_below(path@, before);
            let mut j: usize = 0;
            while j < subs.len()
                invariant
                    j <= subs@.len(),
                    orig.len() == subs@.len(),
                    s.len() == subs@.len(),
                    rb.len() == s.len(),
                    whole.sub_nodes is Some,
                    whole.sub_nodes->0@ == orig,
                    before == whole@,
                    forall|k: int| 0 <= k < s.len() ==> s[k] == (#[trigger] orig[k])@,
                    forall|k: int| 0 <= k < s.len() ==> #[trigger] rb[k] == removed(path@, s[k]),
                    forall|k: int| 0 <= k < j ==> (#[trigger] subs@[k])@ == rb[k],
                    forall|k: int| j <= k < subs@.len() ==> #[trigger] subs@[k] == orig[k],
                    node.name == whole.name,
                    node.path == whole.path,
                    node.pos == whole.pos,
                    whole == *old(node),
                    rb == removed_below(path@, before),
                    s == kids(before),
                decreases subs@.len() - j,
            {
                proof {
                    assert(decreases_to!(whole => whole.sub_nodes));
                    assert(decreases_to!(whole.sub_nodes => whole.sub_nodes->0));
                    assert(decreases_to!(whole.sub_nodes->0 => whole.sub_nodes->0@));
                    assert(decreases_to!(orig => orig[j as int]));
                    assert(decreases_to!(whole => orig[j as int]));
                    assert(decreases_to!(whole => subs@[j as int]));
                }
                search_and_remove_node_recursiv(&mut subs[j], path);
                j = j + 1;
            }
            node.sub_nodes = Some(subs);
            assert(kids(node@) =~= rb);
            assert(node@ == removed(path@, before));
        },
    }
}


/// Whether `n` or a node anywhere below it has the page `path`.
pub open spec fn holds_page(path: Seq<char>, n: NodeView) -> bool
    decreases n,
{
    path::same_path(n.path, path) || match n.sub_nodes {
        None => false,
        Some(s) => exists|j: int| 0 <= j < s.len() && holds_page(path, #[trigger] s[j]),
    }
}

proof fn lemma_first_nonempty_all_empty(rs: Seq<Seq<PageLinkView>>)
    requires
        forall|k: int| 0 <= k < rs.len() ==> (#[trigger] rs[k]).len() == 0,
    ensures
        first_nonempty(rs) == Seq::<PageLinkView>::empty(),
    decreases rs.len(),
{
    if rs.len() > 0 {
        assert(rs.drop_first().len() == rs.len() - 1);
        assert forall|k: int| 0 <= k < rs.drop_first().len() implies (
        #[trigger] rs.drop_first()[k]).len() == 0 by {
            assert(rs.drop_first()[k] == rs[k + 1]);
        }
        lemma_first_nonempty_all_empty(rs.drop_first());
    }
}

/// Looking up a page that no node of the graph has gives no links.
pub proof fn lemma_links_of_absent_page(path: Seq<char>, n: NodeView)
    requires
        !holds_page(path, n),
    ensures
        links_for(path, n) == Seq::<PageLinkView>::empty(),
    decreases n,
{
    match n.sub_nodes {
        None => {},
        Some(s) => {
            assert forall|k: int| 0 <= k < s.len() implies !path::same_path(
                #[trigger] s[k].path,
                path,
            ) by {
                assert(!holds_page(path, s[k]));
            }
            lemma_first_match_none(path, s, 0);
            let rs = links_below(path, n);
            assert forall|k: int| 0 <= k < rs.len() implies (#[trigger] rs[k]).len() == 0 by {
                assert(!holds_page(path, s[k]));
                lemma_links_of_absent_page(path, s[k]);
            }
            lemma_first_nonempty_all_empty(rs);
        },
    }
}

/// Removing a page that no node below `n` has leaves the graph as it was.
pub proof fn lemma_remove_absent_page(path: Seq<char>, n: NodeView)
    requires
        forall|k: int| 0 <= k < kids(n).len() ==> !holds_page(path, #[trigger] kids(n)[k]),
    ensures
        removed(path, n) == n,
    decreases n,
{
    match n.sub_nodes {
        None => {},
        Some(s) => {
            assert forall|k: int| 0 <= k < s.len() implies !path::same_path(
                #[trigger] s[k].path,
                path,
            ) by {
                assert(kids(n)[k] == s[k]);
                assert(!holds_page(path, s[k]));
            }
            lemma_first_match_none(path, s, 0);
            let rb = removed_below(path, n);
            assert forall|k: int| 0 <= k < s.len() implies #[trigger] rb[k] == s[k] by {
                assert(kids(n)[k] == s[k]);
                assert(!holds_page(path, s[k]));
                assert forall|m: int| 0 <= m < kids(s[k]).len() implies !holds_page(
                    path,
                    #[trigger] kids(s[k])[m],
                ) by {
                    if holds_page(path, kids(s[k])[m]) {
                        assert(holds_page(path, s[k]));
                    }
                }
                lemma_remove_absent_page(path, s[k]);
            }
            assert(rb =~= s);
        },
    }
}

/// Removal never removes the node it starts from: its name, page and place stay.
pub proof fn lemma_remove_keeps_root(path: Seq<char>, n: NodeView)
    ensures
        removed(path, n).name == n.name,
        removed(path, n).path == n.path,
        removed(path, n).pos == n.pos,
{
}


/// A node put below the node of the open page shows up as a last, new child link.
pub proof fn lemma_added_node_is_last_link(path: Seq<char>, n: NodeView, child: NodeView)
    requires
        path::same_path(n.path, path),
    ensures
        links_for(path, data::with_sub_node(n, child)) == links_for(path, n).push(
            PageLinkView {
                link_type: LinkType::ChildLink,
                from_pos: n.pos,
                to_pos: child.pos,
                file_name: child.path,
            },
        ),
{
    let m = data::with_sub_node(n, child);
    assert(child_links(m) =~= child_links(n).push(
        PageLinkView {
            link_type: LinkType::ChildLink,
            from_pos: n.pos,
            to_pos: child.pos,
            file_name: child.path,
        },
    ));
}

/// Removing the page of a node just put below `n`, when no other node directly
/// below `n` has that page, gives back the nodes that were below `n`.
pub proof fn lemma_remove_undoes_add(path: Seq<char>, n: NodeView, child: NodeView)
    requires
        path::same_path(child.path, path),
        forall|k: int| 0 <= k < kids(n).len() ==> !path::same_path(#[trigger] kids(n)[k].path, path),
    ensures
        removed(path, data::with_sub_node(n, child)) == (NodeView { sub_nodes: Some(kids(n)), ..n }),
{
    let s = kids(n).push(child);
    assert forall|k: int| 0 <= k < kids(n).len() implies !path::same_path(#[trigger] s[k].path, path) by {
        assert(s[k] == kids(n)[k]);
    }
    lemma_first_match_skip(path, s, kids(n).len() as int);
    assert(first_match(path, s) == Some(kids(n).len() as int));
    assert(s.remove(kids(n).len() as int) =~= kids(n));
}

/// The shape of a list of links: only the first can lead up, and all the
/// child links start from the same node.
pub open spec fn well_shaped(links: Seq<PageLinkView>) -> bool {
    &&& forall|i: int| 0 < i < links.len() ==> (#[trigger] links[i]).link_type == LinkType::ChildLink
    &&& forall|i: int, j: int|
        0 <= i < links.len() && 0 <= j < links.len() && links[i].link_type == LinkType::ChildLink
            && links[j].link_type == LinkType::ChildLink ==> (#[trigger] links[i]).from_pos == (
        #[trigger] links[j]).from_pos
}

proof fn lemma_first_nonempty_is_one(rs: Seq<Seq<PageLinkView>>)
    ensures
        first_nonempty(rs).len() == 0 || exists|k: int| 0 <= k < rs.len() && first_nonempty(rs) == rs[k],
    decreases rs.len(),
{
    if rs.len() > 0 && rs[0].len() == 0 {
        lemma_first_nonempty_is_one(rs.drop_first());
        if first_nonempty(rs.drop_first()).len() > 0 {
            let k = choose|k: int|
                0 <= k < rs.drop_first().len() && first_nonempty(rs.drop_first())
                    == rs.drop_first()[k];
            assert(rs.drop_first()[k] == rs[k + 1]);
        }
    } else if rs.len() > 0 {
        assert(first_nonempty(rs) == rs[0]);
    }
}

/// The links of any page are well shaped: only the first can lead up, and
/// all child links start from the page's own node.
pub proof fn lemma_links_well_shaped(path: Seq<char>, n: NodeView)
    ensures
        well_shaped(links_for(path, n)),
    decreases n,
{
    if path::same_path(n.path, path) {
    } else {
        match first_match(path, kids(n)) {
            Some(i) => {
                let l = links_for(path, n);
                assert(l == seq![parent_link(n, kids(n)[i])] + child_links(kids(n)[i]));
            },
            None => {
                let rs = links_below(path, n);
                lemma_first_nonempty_is_one(rs);
                if first_nonempty(rs).len() > 0 {
                    let k = choose|k: int| 0 <= k < rs.len() && first_nonempty(rs) == rs[k];
                    let s = kids(n);
                    assert(rs[k] == links_for(path, s[k]));
                    lemma_links_well_shaped(path, s[k]);
                }
            },
        }
    }
}

/// Removal only takes nodes away: every page that the graph has after a
/// removal, it had before.
pub proof fn lemma_removal_only_removes(path: Seq<char>, q: Seq<char>, n: NodeView)
    ensures
        holds_page(q, removed(path, n)) ==> holds_page(q, n),
    decreases n,
{
    let r = removed(path, n);
    if holds_page(q, r) && !path::same_path(n.path, q) {
        match n.sub_nodes {
            None => {},
            Some(s) => {
                let rs = kids(r);
                let j = choose|j: int| 0 <= j < rs.len() && holds_page(q, #[trigger] rs[j]);
                match first_match(path, s) {
                    Some(i) => {
                        lemma_first_match_in_range(path, s, 0);
                        let k = if j < i { j } else { j + 1 };
                        assert(rs[j] == s[k]);
                        assert(holds_page(q, s[k]));
                    },
                    None => {
                        assert(rs[j] == removed(path, s[j]));
                        lemma_removal_only_removes(path, q, s[j]);
                        assert(holds_page(q, s[j]));
                    },
                }
            },
        }
    }
}

/// When only one node of the graph has a page, and it lies directly below
/// the root, removing that page leaves no links to find for it.
pub proof fn lemma_removed_page_has_no_links(path: Seq<char>, n: NodeView, i: int)
    requires
        0 <= i < kids(n).len(),
        path::same_path(kids(n)[i].path, path),
        !path::same_path(n.path, path),
        forall|j: int| 0 <= j < kids(n).len() && j != i ==> !holds_page(path, #[trigger] kids(n)[j]),
    ensures
        links_for(path, removed(path, n)) == Seq::<PageLinkView>::empty(),
{
    let s = kids(n);
    assert(forall|j: int| 0 <= j < i ==> !path::same_path(#[trigger] s[j].path, path)) by {
        assert forall|j: int| 0 <= j < i implies !path::same_path(#[trigger] s[j].path, path) by {
            assert(!holds_page(path, s[j]));
        }
    }
    lemma_first_match_skip(path, s, i);
    assert(first_match(path, s) == Some(i));
    let r = removed(path, n);
    let rs = kids(r);
    assert(rs == s.remove(i));
    assert forall|j: int| 0 <= j < rs.len() implies !holds_page(path, #[trigger] rs[j]) by {
        if j < i {
            assert(rs[j] == s[j]);
        } else {
            assert(rs[j] == s[j + 1]);
        }
    }
    lemma_links_of_absent_page(path, r);
}


proof fn lemma_first_match_found(path: Seq<char>, s: Seq<NodeView>, i: int, k: int)
    requires
        0 <= i <= k < s.len(),
        path::same_path(s[k].path, path),
    ensures
        first_match_from(path, s, i) is Some,
    decreases k - i,
{
    if i < k && !path::same_path(s[i].path, path) {
        lemma_first_match_found(path, s, i + 1, k);
    }
}

proof fn lemma_first_nonempty_nonempty(rs: Seq<Seq<PageLinkView>>, j: int)
    requires
        0 <= j < rs.len(),
        rs[j].len() > 0,
    ensures
        first_nonempty(rs).len() > 0,
    decreases j,
{
    if j > 0 && rs[0].len() == 0 {
        assert(rs.drop_first()[j - 1] == rs[j]);
        lemma_first_nonempty_nonempty(rs.drop_first(), j - 1);
    }
}

proof fn lemma_links_start_up(path: Seq<char>, n: NodeView)
    requires
        !path::same_path(n.path, path),
    ensures
        links_for(path, n).len() == 0 || links_for(path, n)[0].link_type == LinkType::ParentLink,
    decreases n,
{
    match first_match(path, kids(n)) {
        Some(i) => {},
        None => {
            let s = kids(n);
            let rs = links_below(path, n);
            lemma_first_nonempty_is_one(rs);
            if first_nonempty(rs).len() > 0 {
                let k = choose|k: int| 0 <= k < rs.len() && first_nonempty(rs) == rs[k];
                assert(rs[k] == links_for(path, s[k]));
                if path::same_path(s[k].path, path) {
                    lemma_first_match_found(path, s, 0, k);
                }
                lemma_links_start_up(path, s[k]);
            }
        },
    }
}

/// Looking up a page that a node below `n` has, `n` itself not, gives links,
/// and the first of them leads up to the parent of the page's node.
pub proof fn lemma_links_of_present_page(path: Seq<char>, n: NodeView)
    requires
        holds_page(path, n),
        !path::same_path(n.path, path),
    ensures
        links_for(path, n).len() > 0,
        links_for(path, n)[0].link_type == LinkType::ParentLink,
    decreases n,
{
    lemma_links_start_up(path, n);
    match n.sub_nodes {
        None => {},
        Some(s) => {
            match first_match(path, s) {
                Some(i) => {},
                None => {
                    let j = choose|j: int| 0 <= j < s.len() && holds_page(path, #[trigger] s[j]);
                    if path::same_path(s[j].path, path) {
                        lemma_first_match_found(path, s, 0, j);
                    }
                    lemma_links_of_present_page(path, s[j]);
                    let rs = links_below(path, n);
                    assert(rs[j] == links_for(path, s[j]));
                    lemma_first_nonempty_nonempty(rs, j);
                },
            }
        },
    }
}


/// How many nodes of the graph `n`, `n` included, have the page `path`.
pub open spec fn page_count(path: Seq<char>, n: NodeView) -> nat
    decreases n, 1int, 0int,
{
    (if path::same_path(n.path, path) { 1nat } else { 0nat }) + count_below(path, n, kids(n).len() as int)
}

/// How many nodes in the graphs of the first `k` nodes directly below `n`
/// have the page `path`.
pub open spec fn count_below(path: Seq<char>, n: NodeView, k: int) -> nat
    decreases n, 0int, k,
{
    match n.sub_nodes {
        None => 0,
        Some(s) => if k <= 0 || k > s.len() {
            0
        } else {
            count_below(path, n, k - 1) + page_count(path, s[k - 1])
        },
    }
}

/// Whether `m` is `n` or a node anywhere below it.
pub open spec fn in_tree(m: NodeView, n: NodeView) -> bool
    decreases n,
{
    m == n || match n.sub_nodes {
        None => false,
        Some(s) => exists|j: int| 0 <= j < s.len() && in_tree(m, #[trigger] s[j]),
    }
}

proof fn lemma_count_below_one(path: Seq<char>, n: NodeView, k: int, j: int)
    requires
        0 <= j < k <= kids(n).len(),
    ensures
        count_below(path, n, k) >= page_count(path, kids(n)[j]),
    decreases k,
{
    if j < k - 1 {
        lemma_count_below_one(path, n, k - 1, j);
    }
}

proof fn lemma_count_below_two(path: Seq<char>, n: NodeView, k: int, i: int, j: int)
    requires
        0 <= i < k <= kids(n).len(),
        0 <= j < k,
        i != j,
    ensures
        count_below(path, n, k) >= page_count(path, kids(n)[i]) + page_count(path, kids(n)[j]),
    decreases k,
{
    if i == k - 1 {
        lemma_count_below_one(path, n, k - 1, j);
    } else if j == k - 1 {
        lemma_count_below_one(path, n, k - 1, i);
    } else {
        lemma_count_below_two(path, n, k - 1, i, j);
    }
}

/// A graph in which no node has the page does not hold it.
proof fn lemma_count_zero(path: Seq<char>, n: NodeView)
    requires
        page_count(path, n) == 0,
    ensures
        !holds_page(path, n),
    decreases n,
{
    match n.sub_nodes {
        None => {},
        Some(s) => {
            assert forall|j: int| 0 <= j < s.len() implies !holds_page(path, #[trigger] s[j]) by {
                lemma_count_below_one(path, n, s.len() as int, j);
                lemma_count_zero(path, s[j]);
            }
        },
    }
}

/// Of the nodes directly below `n`, in a graph where the page occurs once and
/// not at `n`, at most one holds the page, and the others hold it nowhere.
proof fn lemma_count_one_others_zero(path: Seq<char>, n: NodeView, j: int, k: int)
    requires
        page_count(path, n) <= 1,
        0 <= j < kids(n).len(),
        0 <= k < kids(n).len(),
        j != k,
        page_count(path, kids(n)[j]) >= 1,
    ensures
        page_count(path, kids(n)[k]) == 0,
        !holds_page(path, kids(n)[k]),
{
    lemma_count_below_two(path, n, kids(n).len() as int, j, k);
    lemma_count_zero(path, kids(n)[k]);
}

/// Below a node that is the parent of a node with the page, the page is counted.
proof fn lemma_count_below_parent(path: Seq<char>, par: NodeView, i: int, x: NodeView)
    requires
        in_tree(par, x),
        0 <= i < kids(par).len(),
        path::same_path(kids(par)[i].path, path),
    ensures
        count_below(path, x, kids(x).len() as int) >= 1,
    decreases x,
{
    if par == x {
        lemma_count_below_one(path, x, kids(x).len() as int, i);
    } else {
        let s = kids(x);
        let j = choose|j: int| 0 <= j < s.len() && in_tree(par, #[trigger] s[j]);
        lemma_count_below_parent(path, par, i, s[j]);
        lemma_count_below_one(path, x, s.len() as int, j);
    }
}

/// Where exactly one node of the graph has the page, and that node lies
/// anywhere below the root as the `i`-th node below `parent`, the links of
/// the page are the link up to `parent` followed by the node's child links.
pub proof fn lemma_links_of_single_page(path: Seq<char>, n: NodeView, parent: NodeView, i: int)
    requires
        page_count(path, n) == 1,
        in_tree(parent, n),
        0 <= i < kids(parent).len(),
        path::same_path(kids(parent)[i].path, path),
    ensures
        links_for(path, n) == seq![parent_link(parent, kids(parent)[i])] + child_links(
            kids(parent)[i],
        ),
    decreases n,
{
    let s = kids(n);
    lemma_count_below_parent(path, parent, i, n);
    assert(!path::same_path(n.path, path));
    if parent == n {
        assert forall|k: int| 0 <= k < i implies !path::same_path(#[trigger] s[k].path, path) by {
            lemma_count_one_others_zero(path, n, i, k);
        }
        lemma_first_match_skip(path, s, i);
    } else {
        let j = choose|j: int| 0 <= j < s.len() && in_tree(parent, #[trigger] s[j]);
        lemma_count_below_parent(path, parent, i, s[j]);
        lemma_count_below_one(path, n, s.len() as int, j);
        assert(page_count(path, s[j]) == 1);
        assert(!path::same_path(s[j].path, path));
        assert forall|k: int| 0 <= k < s.len() implies !path::same_path(#[trigger] s[k].path, path) by {
            if k != j {
                lemma_count_one_others_zero(path, n, j, k);
            }
        }
        lemma_first_match_none(path, s, 0);
        lemma_links_of_single_page(path, s[j], parent, i);
        let rs = links_below(path, n);
        assert forall|k: int| 0 <= k < j implies (#[trigger] rs[k]).len() == 0 by {
            lemma_count_one_others_zero(path, n, j, k);
            lemma_links_of_absent_page(path, s[k]);
        }
        lemma_first_nonempty_skip(rs, j);
        assert(rs.subrange(j, rs.len() as int)[0] == rs[j]);
    }
}

/// Where exactly one node of the graph has the page, wherever below the root
/// it lies, no node of the graph has the page after removing it.
pub proof fn lemma_removed_single_page_is_gone(path: Seq<char>, n: NodeView)
    requires
        page_count(path, n) == 1,
        !path::same_path(n.path, path),
    ensures
        !holds_page(path, removed(path, n)),
    decreases n,
{
    let r = removed(path, n);
    match n.sub_nodes {
        None => {},
        Some(s) => {
            assert(kids(n) == s);
            lemma_first_match_in_range(path, s, 0);
            match first_match(path, s) {
                Some(i) => {
                    lemma_count_below_one(path, n, s.len() as int, i);
                    let rs = kids(r);
                    assert(rs == s.remove(i));
                    assert forall|j: int| 0 <= j < rs.len() implies !holds_page(path, #[trigger] rs[j]) by {
                        if j < i {
                            assert(rs[j] == s[j]);
                            lemma_count_one_others_zero(path, n, i, j);
                        } else {
                            assert(rs[j] == s[j + 1]);
                            lemma_count_one_others_zero(path, n, i, j + 1);
                        }
                    }
                },
                None => {
                    let rs = kids(r);
                    assert forall|j: int| 0 <= j < rs.len() implies !holds_page(path, #[trigger] rs[j]) by {
                        assert(rs[j] == removed(path, s[j]));
                        if page_count(path, s[j]) == 0 {
                            lemma_count_zero(path, s[j]);
                            lemma_removal_only_removes(path, path, s[j]);
                        } else {
                            lemma_count_below_one(path, n, s.len() as int, j);
                            if path::same_path(s[j].path, path) {
                                lemma_first_match_found(path, s, 0, j);
                            }
                            lemma_removed_single_page_is_gone(path, s[j]);
                        }
                    }
                },
            }
        },
    }
}

} // verus!
