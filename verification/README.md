# transcript_workspace

The state, geometry and decisions of a terminal transcript workspace, verified with Verus: a
scrollable history of a conversation with a fixed composer below it, whole-turn selection and
folding, paginated history loading, terminal image placement, and the catalog that decides when
a skill-document read may be shown compactly.

## Layout

- `src/` — the verified library.
  - `turns.rs`, `sorted_set.rs` — user turns: selection, folding, index shifting.
  - `pager.rs`, `overlay.rs`, `overlays.rs`, `projection.rs`, `layout_index.rs` — the pager view,
    the transcript overlay and its renderables, the width-keyed workspace layout.
  - `geometry.rs`, `drawing.rs` — areas, where renderables are drawn, footer hints.
  - `keys.rs`, `events.rs`, `workspace_input.rs` — key bindings, events, input routing.
  - `image_previews.rs`, `local_previews.rs`, `pets.rs` — terminal image placement, preview
    conversion, and drawing plans for the Kitty and Sixel protocols.
  - `skill_catalog.rs` — the enabled-skill catalog with refresh tickets.
  - `transcript_cells.rs` — persisted thread items as history cells, with the skill reads of
    workspace commands and the catalogs they need.
  - `lines.rs`, `text.rs`, `thread_items.rs` — text of rendered lines and fallback transcript
    lines.
- `tests/` — tests on concrete values.
- `app/` — terminal and file-system glue: crossterm and ratatui conversions, writers, file reads
  and the transient files of image previews.
