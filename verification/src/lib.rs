//! Verified core of the Yutikor note-graph editor: the page graph, the
//! objects of a page, the editor state and the colour encodings.

pub mod color;
pub mod hex;
pub mod path;
pub mod data;
pub mod graph;
pub mod state;
pub mod page;
pub mod objects;
pub mod folders;
