//! The state of the editor window: the open folder, the graph, the open page
//! and what the user is doing with them.
use vstd::prelude::*;

use crate::color::{black, Color32Bytes};
use crate::data::{F32Bits, Node, Object, Page, PageLink, F32_0, F32_10};
use crate::graph;
use crate::graph::{get_links_by_path, search_and_remove_node_recursiv};

verus! {

/// The whole editor: the folder of the notes, its page graph, the open page,
/// and the states of the page editor, the graph view and the folder choice.
pub struct Yuti {
    pub path: Option<String>,
    pub graph_root_node: Option<Node>,
    pub crt_page: Option<Page>,
    pub editor_state: EditorState,
    pub graph_state: GraphState,
    pub folder_state: FolderState,
}

/// What the page editor is doing: the grid step, the commands waiting to be
/// done, the selected object and the copied one.
pub struct EditorState {
    pub grid_size: F32Bits,
    pub page_to_close: bool,
    pub object_to_remove_id: Option<usize>,
    pub selected_object_id: Option<usize>,
    pub is_selected_for_text_edit: bool,
    pub are_tools_visible: bool,
    pub copied_object: Option<Object>,
    pub tools_buf: ToolsBuffer,
}

/// The texts and colours that the tools panel is editing.
pub struct ToolsBuffer {
    pub color: String,
    pub font_color: String,
    pub stroke_color: String,
    pub color_picker: Color32Bytes,
    pub font_color_picker: Color32Bytes,
    pub stroke_color_picker: Color32Bytes,
}

/// The graph view and the moves between pages: the nodes to remove or to
/// open, the page to switch to, the links of the open page, and where the
/// graph is shifted to on screen.
pub struct GraphState {
    pub node_to_remove_by_path: Option<String>,
    pub node_to_load_by_path: Option<String>,
    pub page_to_switch: Option<String>,
    pub page_links: Vec<PageLink>,
    pub start_coord: (F32Bits, F32Bits),
}

/// The folder choice: the path being typed, and whether the chosen folder is
/// to be given up.
pub struct FolderState {
    pub path_line: String,
    pub is_path_to_clear: bool,
}

/// The editor state in which nothing is selected, copied or pending, with the
/// tools hidden and a grid of 10.
pub open spec fn fresh_editor_state(e: EditorState) -> bool {
    &&& e.grid_size == F32_10
    &&& !e.page_to_close
    &&& e.object_to_remove_id is None
    &&& e.selected_object_id is None
    &&& !e.is_selected_for_text_edit
    &&& !e.are_tools_visible
    &&& e.copied_object is None
    &&& e.tools_buf.color@.len() == 0
    &&& e.tools_buf.font_color@.len() == 0
    &&& e.tools_buf.stroke_color@.len() == 0
    &&& e.tools_buf.color_picker == Color32Bytes { r: 0, g: 0, b: 0, a: 255 }
    &&& e.tools_buf.font_color_picker == Color32Bytes { r: 0, g: 0, b: 0, a: 255 }
    &&& e.tools_buf.stroke_color_picker == Color32Bytes { r: 0, g: 0, b: 0, a: 255 }
}

impl Yuti {
    /// The editor at start: no folder, graph or page yet, nothing pending, the
    /// graph at its origin and an empty folder line.
    pub fn new() -> (y: Yuti)
        ensures
            y.path is None,
            y.graph_root_node is None,
            y.crt_page is None,
            fresh_editor_state(y.editor_state),
            y.graph_state.node_to_remove_by_path is None,
            y.graph_state.node_to_load_by_path is None,
            y.graph_state.page_to_switch is None,
            y.graph_state.page_links@.len() == 0,
            y.graph_state.start_coord == (F32_0, F32_0),
            y.folder_state.path_line@.len() == 0,
            !y.folder_state.is_path_to_clear,
    {
        Yuti {
            path: None,
            graph_root_node: None,
            crt_page: None,
            editor_state: EditorState {
                grid_size: F32_10,
                page_to_close: false,
                object_to_remove_id: None,
                selected_object_id: None,
                is_selected_for_text_edit: false,
                are_tools_visible: false,
                copied_object: None,
                tools_buf: ToolsBuffer {
                    color: String::new(),
                    font_color: String::new(),
                    stroke_color: String::new(),
                    color_picker: black(),
                    font_color_picker: black(),
                    stroke_color_picker: black(),
                },
            },
            graph_state: GraphState {
                node_to_remove_by_path: None,
                node_to_load_by_path: None,
                page_to_switch: None,
                page_links: Vec::new(),
                start_coord: (F32_0, F32_0),
            },
            folder_state: FolderState { path_line: String::new(), is_path_to_clear: false },
        }
    }

    /// Clears what the page editor was doing when a page is closed or left:
    /// no close pending, tools hidden, nothing selected, no page links. The
    /// grid, the copied object, the pending removal and the rest stay.
    pub fn reset_editor_state(&mut self)
        ensures
            !final(self).editor_state.page_to_close,
            !final(self).editor_state.are_tools_visible,
            final(self).editor_state.selected_object_id is None,
            !final(self).editor_state.is_selected_for_text_edit,
            final(self).graph_state.page_links@.len() == 0,
            final(self).editor_state.grid_size == old(self).editor_state.grid_size,
            final(self).editor_state.object_to_remove_id == old(self).editor_state.object_to_remove_id,
            final(self).editor_state.copied_object == old(self).editor_state.copied_object,
            final(self).editor_state.tools_buf == old(self).editor_state.tools_buf,
            final(self).graph_state.node_to_remove_by_path == old(self).graph_state.node_to_remove_by_path,
            final(self).graph_state.node_to_load_by_path == old(self).graph_state.node_to_load_by_path,
            final(self).graph_state.page_to_switch == old(self).graph_state.page_to_switch,
            final(self).graph_state.start_coord == old(self).graph_state.start_coord,
            final(self).path == old(self).path,
            final(self).graph_root_node == old(self).graph_root_node,
            final(self).crt_page == old(self).crt_page,
            final(self).folder_state == old(self).folder_state,
    {
        self.editor_state.page_to_close = false;
        self.editor_state.are_tools_visible = false;
        self.editor_state.selected_object_id = None;
        self.editor_state.is_selected_for_text_edit = false;
        self.graph_state.page_links = Vec::new();
    }

    /// Leaves the open page, as closing it or switching to another does: no
    /// page is open any more, and the editor state is reset as
    /// [`Yuti::reset_editor_state`] does (no close pending, tools hidden,
    /// nothing selected, no page links). Gives back the page to save and the
    /// file to save it in, when a page was open and its file is known.
    pub fn leave_page(&mut self) -> (save: Option<(String, Page)>)
        ensures
            final(self).crt_page is None,
            !final(self).editor_state.page_to_close,
            final(self).graph_state.page_links@.len() == 0,
            save == match (old(self).graph_state.node_to_load_by_path, old(self).crt_page) {
                (Some(p), Some(page)) => Some((p, page)),
                _ => None,
            },
            final(self).editor_state == (EditorState {
                page_to_close: false,
                are_tools_visible: false,
                selected_object_id: None,
                is_selected_for_text_edit: false,
                ..old(self).editor_state
            }),
            final(self).graph_state.node_to_remove_by_path == old(self).graph_state.node_to_remove_by_path,
            final(self).graph_state.node_to_load_by_path == old(self).graph_state.node_to_load_by_path,
            final(self).graph_state.page_to_switch == old(self).graph_state.page_to_switch,
            final(self).graph_state.start_coord == old(self).graph_state.start_coord,
            final(self).path == old(self).path,
            final(self).graph_root_node == old(self).graph_root_node,
            final(self).folder_state == old(self).folder_state,
    {
        let page = self.crt_page.take();
        let save = match (&self.graph_state.node_to_load_by_path, page) {
            (Some(p), Some(page)) => Some((p.clone(), page)),
            _ => None,
        };
        self.reset_editor_state();
        save
    }

    /// Gives up the notes folder: no folder and no graph any more, and the
    /// request to give it up is done. Gives back the graph to save.
    pub fn give_up_folder(&mut self) -> (graph: Option<Node>)
        ensures
            graph == old(self).graph_root_node,
            final(self).path is None,
            final(self).graph_root_node is None,
            final(self).folder_state == (FolderState { is_path_to_clear: false, ..old(self).folder_state }),
            final(self).crt_page == old(self).crt_page,
            final(self).editor_state == old(self).editor_state,
            final(self).graph_state == old(self).graph_state,
    {
        let graph = self.graph_root_node.take();
        self.path = None;
        self.folder_state.is_path_to_clear = false;
        graph
    }

    /// Opens `page`, the page of the file `path`: it becomes the open page,
    /// its file is remembered, its links are found in the graph, and no switch
    /// is pending any more.
    pub fn enter_page(&mut self, path: String, page: Page)
        requires
            old(self).graph_root_node is Some,
        ensures
            final(self).crt_page == Some(page),
            final(self).graph_state.node_to_load_by_path == Some(path),
            final(self).graph_state.page_to_switch is None,
            crate::data::link_views(final(self).graph_state.page_links@) == graph::links_for(
                path@,
                old(self).graph_root_node->0@,
            ),
            final(self).graph_state.node_to_remove_by_path == old(self).graph_state.node_to_remove_by_path,
            final(self).graph_state.start_coord == old(self).graph_state.start_coord,
            final(self).editor_state == old(self).editor_state,
            final(self).path == old(self).path,
            final(self).graph_root_node == old(self).graph_root_node,
            final(self).folder_state == old(self).folder_state,
    {
        let links = match &self.graph_root_node {
            Some(root) => get_links_by_path(path.as_str(), root),
            None => Vec::new(),
        };
        self.crt_page = Some(page);
        self.graph_state.node_to_load_by_path = Some(path);
        self.graph_state.page_links = links;
        self.graph_state.page_to_switch = None;
    }
}

impl EditorState {
    /// "Close Page": the page is to be closed.
    pub fn request_close(&mut self)
        ensures
            *final(self) == (EditorState { page_to_close: true, ..*old(self) }),
    {
        self.page_to_close = true;
    }

    /// "Go to Edit" / "Exit from Edit": the tools are shown or hidden.
    pub fn toggle_tools(&mut self)
        ensures
            *final(self) == (EditorState { are_tools_visible: !old(self).are_tools_visible, ..*old(self) }),
    {
        self.are_tools_visible = !self.are_tools_visible;
    }
}

impl GraphState {
    /// At the start of each frame of the graph view, no node is to be removed
    /// or opened yet.
    pub fn begin_graph_frame(&mut self)
        ensures
            *final(self) == (GraphState {
                node_to_remove_by_path: None,
                node_to_load_by_path: None,
                ..*old(self)
            }),
    {
        self.node_to_remove_by_path = None;
        self.node_to_load_by_path = None;
    }

    /// "Go Home": the graph is drawn from its origin again.
    pub fn go_home(&mut self)
        ensures
            *final(self) == (GraphState { start_coord: (F32_0, F32_0), ..*old(self) }),
    {
        self.start_coord = (F32_0, F32_0);
    }

    /// "Another Path": no page switch is pending, and the chosen folder is to
    /// be given up.
    pub fn request_another_path(&mut self, folder_state: &mut FolderState)
        ensures
            *final(self) == (GraphState { page_to_switch: None, ..*old(self) }),
            *final(folder_state) == (FolderState { is_path_to_clear: true, ..*old(folder_state) }),
    {
        self.page_to_switch = None;
        folder_state.is_path_to_clear = true;
    }

    /// Shows `page`, the page of the file `path` that was asked for in the
    /// graph view: it becomes the open page and its links are found in the graph.
    pub fn open_page(&mut self, crt_page: &mut Option<Page>, graph_root: &Node, path: &str, page: Page)
        ensures
            *final(crt_page) == Some(page),
            crate::data::link_views(final(self).page_links@) == graph::links_for(path@, graph_root@),
            final(self).node_to_remove_by_path == old(self).node_to_remove_by_path,
            final(self).node_to_load_by_path == old(self).node_to_load_by_path,
            final(self).page_to_switch == old(self).page_to_switch,
            final(self).start_coord == old(self).start_coord,
    {
        *crt_page = Some(page);
        self.page_links = get_links_by_path(path, graph_root);
    }

    /// Removes from the graph the node whose removal was asked for, if any,
    /// and clears the request.
    pub fn apply_node_removal(&mut self, graph_root: &mut Node)
        ensures
            *final(self) == (GraphState { node_to_remove_by_path: None, ..*old(self) }),
            final(graph_root)@ == match old(self).node_to_remove_by_path {
                Some(p) => graph::removed(p@, old(graph_root)@),
                None => old(graph_root)@,
            },
    {
        if let Some(p) = &self.node_to_remove_by_path {
            search_and_remove_node_recursiv(graph_root, p.as_str());
        }
        self.node_to_remove_by_path = None;
    }
}

} // verus!
