# yutikor

The verified core of Yutikor, a note editor whose pages form a graph: each
node of the graph is a page, drawn as a circle; opening a page shows its text
and picture boxes, with arrows leading to the parent page and the child pages.

- `src/` — the library, proved with Verus:
  - `data`: graph nodes, pages, objects, page links, and their values;
  - `graph`: the links of a page, removal of pages from the graph;
  - `page`: layer order, removal, copy, paste and delete of objects;
  - `objects`: drawing colours, selection, alignment, layers, colour fields;
  - `state`: the editor state and the opening and leaving of pages;
  - `folders`: the list of recently used note folders;
  - `hex`, `color`, `path`: colour text, egui colours, path comparison.
  Coordinates and sizes are `f32` values kept as their bit patterns; the
  library stores and copies them, and the arithmetic on them is done in `app/`.
- `app/` — the egui program around the library: windows, mouse and keys,
  files, JSON, and the floating-point geometry.
- `tests/` — tests of the library.
