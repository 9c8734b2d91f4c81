//! The documents of the editor: graph nodes, pages and the objects on a page.
use vstd::prelude::*;

use crate::color::{from_rgba_unmultiplied, Color32Bytes};
use crate::hex;
use crate::hex::{push_byte_hex, push_lower_hex, rgba_from_digits, skip_hashes};

verus! {

/// The IEEE-754 bit pattern of an `f32` coordinate or length. The library
/// stores and copies such values; all arithmetic on them is done by the caller.
pub type F32Bits = u32;

/// `0.0_f32`.
pub const F32_0: F32Bits = 0x0000_0000;

/// `1.0_f32`.
pub const F32_1: F32Bits = 0x3f80_0000;

/// `2.0_f32`.
pub const F32_2: F32Bits = 0x4000_0000;

/// `10.0_f32`.
pub const F32_10: F32Bits = 0x4120_0000;

/// `20.0_f32`.
pub const F32_20: F32Bits = 0x41a0_0000;

/// `80.0_f32`.
pub const F32_80: F32Bits = 0x42a0_0000;

/// `150.0_f32`.
pub const F32_150: F32Bits = 0x4316_0000;

/// `200.0_f32`.
pub const F32_200: F32Bits = 0x4348_0000;

/// A node of the page graph: a page's name, the file that holds the page,
/// where the node is drawn, and the nodes below it.
pub struct Node {
    pub name: String,
    pub path: String,
    pub pos: (F32Bits, F32Bits),
    pub sub_nodes: Option<Vec<Node>>,
}

/// The mathematical value of a [`Node`].
pub struct NodeView {
    pub name: Seq<char>,
    pub path: Seq<char>,
    pub pos: (F32Bits, F32Bits),
    pub sub_nodes: Option<Seq<NodeView>>,
}

/// The value of `n`: its texts as character sequences and the values of the
/// nodes below it.
pub open spec fn node_view(n: Node) -> NodeView
    decreases n,
{
    NodeView {
        name: n.name@,
        path: n.path@,
        pos: n.pos,
        sub_nodes: match n.sub_nodes {
            Some(v) => Some(
                Seq::new(
                    v@.len(),
                    |i: int|
                        if 0 <= i < v@.len() {
                            node_view(v@[i])
                        } else {
                            NodeView { name: seq![], path: seq![], pos: (0, 0), sub_nodes: None }
                        },
                ),
            ),
            None => None,
        },
    }
}

impl View for Node {
    type V = NodeView;

    open spec fn view(&self) -> NodeView {
        node_view(*self)
    }
}

/// The nodes directly below `n`, in order (none when it has no list).
pub open spec fn kids(n: NodeView) -> Seq<NodeView> {
    match n.sub_nodes {
        Some(s) => s,
        None => seq![],
    }
}

/// The name that a new node gets: `NewNode`.
pub open spec fn new_node_name() -> Seq<char> {
    seq!['N', 'e', 'w', 'N', 'o', 'd', 'e']
}

/// The extension of page files: `.json`.
pub open spec fn json_suffix() -> Seq<char> {
    seq!['.', 'j', 's', 'o', 'n']
}

/// The node that a new page of identifier `id` starts as.
pub open spec fn fresh_node(id: u128) -> NodeView {
    NodeView {
        name: new_node_name(),
        path: hex::lower_hex(id as nat) + json_suffix(),
        pos: (F32_0, F32_0),
        sub_nodes: None,
    }
}

/// The page file of a new node is named by the exact base-16 numeral of its
/// identifier, in lower-case digits without leading zeros, followed by
/// `.json`; so distinct identifiers name distinct files.
pub proof fn lemma_fresh_node_file_names(a: u128, b: u128)
    ensures
        ({
            let p = fresh_node(a).path;
            let k = p.len() - 5;
            &&& k >= 1
            &&& p.subrange(k, p.len() as int) == seq!['.', 'j', 's', 'o', 'n']
            &&& forall|i: int| 0 <= i < k ==> hex::is_lower_digit(#[trigger] p[i])
            &&& hex::base16_value(p.subrange(0, k)) == a
            &&& k > 1 ==> p[0] != '0'
        }),
        a != b ==> fresh_node(a).path != fresh_node(b).path,
{
    let p = fresh_node(a).path;
    let q = fresh_node(b).path;
    let ha = hex::lower_hex(a as nat);
    let hb = hex::lower_hex(b as nat);
    hex::lemma_lower_hex_exact(a as nat);
    hex::lemma_lower_hex_exact(b as nat);
    assert(p.subrange(0, ha.len() as int) =~= ha);
    assert(p.subrange(ha.len() as int, p.len() as int) =~= json_suffix());
    assert(forall|i: int| 0 <= i < ha.len() ==> p[i] == ha[i]);
    if a != b && p == q {
        assert(q.subrange(0, hb.len() as int) =~= hb);
        hex::lemma_lower_hex_injective(a as nat, b as nat);
    }
}

/// `n` with `child` put last below it.
pub open spec fn with_sub_node(n: NodeView, child: NodeView) -> NodeView {
    NodeView { sub_nodes: Some(kids(n).push(child)), ..n }
}

impl Node {
    /// A new node for a page with identifier `id`: named `NewNode`, at the
    /// origin, with no nodes below it, its page in the file `<id in hex>.json`.
    pub fn default_with_id(id: u128) -> (n: Node)
        ensures
            n@ == fresh_node(id),
    {
        let name = String::from_str("NewNode");
        let mut path = String::new();
        push_lower_hex(&mut path, id);
        path.append(".json");
        proof {
            reveal_strlit("NewNode");
            reveal_strlit(".json");
        }
        let n = Node { name, path, pos: (F32_0, F32_0), sub_nodes: None };
        assert(n@.name =~= new_node_name());
        assert(n@.path =~= hex::lower_hex(id as nat) + json_suffix());
        n
    }

    /// Puts `child` last below this node.
    pub fn add_sub_node(&mut self, child: Node)
        ensures
            final(self)@ == with_sub_node(old(self)@, child@),
    {
        let ghost before = old(self)@;
        let mut v = match self.sub_nodes.take() {
            Some(v) => v,
            None => Vec::new(),
        };
        let ghost prior = v@;
        assert(kids(before).len() == prior.len());
        assert(forall|i: int| 0 <= i < prior.len() ==> kids(before)[i] == prior[i]@);
        v.push(child);
        self.sub_nodes = Some(v);
        assert(kids(final(self)@) =~= kids(old(self)@).push(child@));
    }
}


/// A page: the objects drawn on it, later ones over earlier ones.
pub struct Page {
    pub objects: Vec<Object>,
}

impl Default for Page {
    /// An empty page.
    fn default() -> (p: Page)
        ensures
            p.objects@.len() == 0,
    {
        Page { objects: Vec::new() }
    }
}

/// A box on a page, with text or with a picture.
///
/// `text_align` is 0 for centred text, 1 for left and 2 for right; `image_path`
/// is `None` for a text object and the picture's file for a picture object.
pub struct Object {
    pub text: String,
    pub pos: (F32Bits, F32Bits),
    pub size: (F32Bits, F32Bits),
    pub color: (u8, u8, u8, u8),
    pub font_color: (u8, u8, u8, u8),
    pub font_size: F32Bits,
    pub text_offset: (F32Bits, F32Bits),
    pub text_align: u8,
    pub corner_radius: F32Bits,
    pub stroke_color: (u8, u8, u8, u8),
    pub stroke_width: F32Bits,
    pub z_index: u32,
    pub image_path: Option<String>,
}

impl Clone for Object {
    /// A copy of the object, field for field.
    fn clone(&self) -> (o: Object)
        ensures
            o == *self,
    {
        Object {
            text: self.text.clone(),
            pos: self.pos,
            size: self.size,
            color: self.color,
            font_color: self.font_color,
            font_size: self.font_size,
            text_offset: self.text_offset,
            text_align: self.text_align,
            corner_radius: self.corner_radius,
            stroke_color: self.stroke_color,
            stroke_width: self.stroke_width,
            z_index: self.z_index,
            image_path: match &self.image_path {
                Some(p) => Some(p.clone()),
                None => None,
            },
        }
    }
}

/// Whether a link leads to the page above (the parent) or to one below (a child).
#[derive(Clone, Copy, Debug, PartialEq, Eq, Structural)]
pub enum LinkType {
    ParentLink,
    ChildLink,
}

/// A way from the open page to a neighbouring page of the graph: the link
/// points from `from_pos` (the open page's node) towards `to_pos` (the
/// neighbour's node), and `file_name` is the neighbour's page file.
pub struct PageLink {
    pub link_type: LinkType,
    pub from_pos: (F32Bits, F32Bits),
    pub to_pos: (F32Bits, F32Bits),
    pub file_name: String,
}

/// The mathematical value of a [`PageLink`].
pub struct PageLinkView {
    pub link_type: LinkType,
    pub from_pos: (F32Bits, F32Bits),
    pub to_pos: (F32Bits, F32Bits),
    pub file_name: Seq<char>,
}

impl View for PageLink {
    type V = PageLinkView;

    open spec fn view(&self) -> PageLinkView {
        PageLinkView {
            link_type: self.link_type,
            from_pos: self.from_pos,
            to_pos: self.to_pos,
            file_name: self.file_name@,
        }
    }
}

/// The values of a list of links.
pub open spec fn link_views(links: Seq<PageLink>) -> Seq<PageLinkView> {
    Seq::new(links.len(), |i: int| links[i]@)
}

/// The colours an object is drawn with: fill, text and outline.
#[derive(Clone, Copy, Debug, PartialEq, Eq, Structural)]
pub struct ObjectsMainColors {
    pub bg_color: Color32Bytes,
    pub font_color: Color32Bytes,
    pub stroke_color: Color32Bytes,
}

/// The stored bytes of the colour that unmultiplied `(r, g, b, a)` becomes.
pub open spec fn color32_of(c: (u8, u8, u8, u8)) -> Color32Bytes {
    let t = crate::color::premultiplied_of(c.0, c.1, c.2, c.3);
    Color32Bytes { r: t.0, g: t.1, b: t.2, a: t.3 }
}

impl Object {
    /// A text object with text `text` at `pos`: 80 by 20, grey fill, white
    /// text of size 10 centred with offset (10, 10), white outline of width 2,
    /// corners of radius 10, layer 0.
    pub fn new(text: &str, pos: (F32Bits, F32Bits)) -> (o: Object)
        ensures
            o.text@ == text@,
            o.pos == pos,
            o.size == (F32_80, F32_20),
            o.corner_radius == F32_10,
            o.color == (80u8, 80u8, 80u8, 255u8),
            o.font_color == (255u8, 255u8, 255u8, 255u8),
            o.font_size == F32_10,
            o.text_offset == (F32_10, F32_10),
            o.text_align == 0,
            o.stroke_color == (255u8, 255u8, 255u8, 255u8),
            o.stroke_width == F32_2,
            o.z_index == 0,
            o.image_path is None,
    {
        Object {
            text: String::from_str(text),
            pos,
            size: (F32_80, F32_20),
            corner_radius: F32_10,
            color: (80, 80, 80, 255),
            font_color: (255, 255, 255, 255),
            font_size: F32_10,
            text_offset: (F32_10, F32_10),
            text_align: 0,
            stroke_color: (255, 255, 255, 255),
            stroke_width: F32_2,
            z_index: 0,
            image_path: None,
        }
    }

    /// A picture object showing the file `image_path` at `pos`: 200 by 150,
    /// no text, transparent white fill, light grey outline of width 1, square
    /// corners, layer 0.
    pub fn new_image(image_path: String, pos: (F32Bits, F32Bits)) -> (o: Object)
        ensures
            o.text@.len() == 0,
            o.pos == pos,
            o.size == (F32_200, F32_150),
            o.corner_radius == F32_0,
            o.color == (255u8, 255u8, 255u8, 0u8),
            o.font_color == (255u8, 255u8, 255u8, 255u8),
            o.font_size == F32_10,
            o.text_offset == (F32_0, F32_0),
            o.text_align == 0,
            o.stroke_color == (180u8, 180u8, 180u8, 255u8),
            o.stroke_width == F32_1,
            o.z_index == 0,
            o.image_path == Some(image_path),
    {
        Object {
            text: String::new(),
            pos,
            size: (F32_200, F32_150),
            corner_radius: F32_0,
            color: (255, 255, 255, 0),
            font_color: (255, 255, 255, 255),
            font_size: F32_10,
            text_offset: (F32_0, F32_0),
            text_align: 0,
            stroke_color: (180, 180, 180, 255),
            stroke_width: F32_1,
            z_index: 0,
            image_path: Some(image_path),
        }
    }

    /// The fill colour as egui stores it.
    pub fn get_color(&self) -> (c: Color32Bytes)
        ensures
            c == color32_of(self.color),
            c.a == self.color.3,
            self.color.3 == 255 ==> c == (Color32Bytes {
                r: self.color.0,
                g: self.color.1,
                b: self.color.2,
                a: 255,
            }),
    {
        from_rgba_unmultiplied(self.color.0, self.color.1, self.color.2, self.color.3)
    }

    /// The outline colour as egui stores it.
    pub fn get_stroke_color(&self) -> (c: Color32Bytes)
        ensures
            c == color32_of(self.stroke_color),
            c.a == self.stroke_color.3,
            self.stroke_color.3 == 255 ==> c == (Color32Bytes {
                r: self.stroke_color.0,
                g: self.stroke_color.1,
                b: self.stroke_color.2,
                a: 255,
            }),
    {
        from_rgba_unmultiplied(
            self.stroke_color.0,
            self.stroke_color.1,
            self.stroke_color.2,
            self.stroke_color.3,
        )
    }

    /// The text colour as egui stores it.
    pub fn get_font_color(&self) -> (c: Color32Bytes)
        ensures
            c == color32_of(self.font_color),
            c.a == self.font_color.3,
            self.font_color.3 == 255 ==> c == (Color32Bytes {
                r: self.font_color.0,
                g: self.font_color.1,
                b: self.font_color.2,
                a: 255,
            }),
    {
        from_rgba_unmultiplied(
            self.font_color.0,
            self.font_color.1,
            self.font_color.2,
            self.font_color.3,
        )
    }

    /// Reads a colour written `#rrggbb` or `#rrggbbaa` (any number of leading
    /// `#`, digits in either case). Six digits give an opaque colour; a digit
    /// pair that is no number counts as 0 (alpha: 255); text of any other
    /// length gives opaque black.
    pub fn vec_u8_from_hex(color_str: &str) -> (c: (u8, u8, u8, u8))
        requires
            hex::pairs_on_char_boundaries(hex::strip_hashes(vstd::utf8::encode_utf8(color_str@))),
        ensures
            c == hex::rgba_of_hex_digits(hex::strip_hashes(vstd::utf8::encode_utf8(color_str@))),
    {
        let bytes = color_str.as_bytes();
        let start = skip_hashes(bytes);
        rgba_from_digits(bytes, start)
    }

    /// Writes a colour as `#rrggbbaa`, each channel as two lower-case digits.
    pub fn hex_from_vec_u8(color: (u8, u8, u8, u8)) -> (s: String)
        ensures
            s@ == hex::hex_text(color),
    {
        let mut s = String::from_str("#");
        proof {
            reveal_strlit("#");
        }
        push_byte_hex(&mut s, color.0);
        push_byte_hex(&mut s, color.1);
        push_byte_hex(&mut s, color.2);
        push_byte_hex(&mut s, color.3);
        assert(s@ =~= hex::hex_text(color));
        s
    }

    /// The four stored bytes of an egui colour.
    pub fn vec_u8_from_color32(color: Color32Bytes) -> (c: (u8, u8, u8, u8))
        ensures
            c == (color.r, color.g, color.b, color.a),
    {
        (color.r, color.g, color.b, color.a)
    }
}

} // verus!
