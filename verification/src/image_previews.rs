//! Where the workspace places the terminal images of a prompt's local image files.
//!
//! A user prompt with local images reserves rows below its text, one block per image. When the
//! terminal can show images by file reference, each image whose block is fully inside the
//! transcript's content area is drawn there.

use crate::cell::{CellKind, TranscriptCell};
use crate::geometry::{sat_add_u16, sat_sub_u16, Rect};
use crate::layout_index::WorkspaceCellLayout;
use crate::overlay::{layout_ensured, TranscriptOverlay};
use crate::pager::content_area_spec;
use crate::projection::{LOCAL_IMAGE_PREVIEW_COLUMNS, LOCAL_IMAGE_PREVIEW_ROWS};
use vstd::prelude::*;

verus! {

/// A local-file image placement owned by the transcript workspace.
#[derive(Clone, Debug)]
pub struct LocalImagePreviewDraw {
    pub image_id: u32,
    pub path: String,
    pub x: u16,
    pub y: u16,
    pub columns: u16,
    pub rows: u16,
}

/// First image id of the workspace's local image previews.
pub const LOCAL_IMAGE_PREVIEW_ID_BASE: u32 = 0xC100_0000;

pub open spec fn sat_add_u32(a: u32, b: u32) -> u32 {
    if a + b > u32::MAX {
        u32::MAX
    } else {
        (a + b) as u32
    }
}

pub open spec fn sat_mul_u32(a: u32, b: u32) -> u32 {
    if a * b > u32::MAX {
        u32::MAX
    } else {
        (a * b) as u32
    }
}

/// The terminal image id of image `image_index` of cell `cell_index`: sixteen ids per cell above
/// the base, saturating.
pub open spec fn preview_image_id_spec(cell_index: usize, image_index: usize) -> u32 {
    sat_add_u32(
        sat_add_u32(LOCAL_IMAGE_PREVIEW_ID_BASE, sat_mul_u32(cell_index as u32, 16)),
        image_index as u32,
    )
}

/// The terminal image id of image `image_index` of cell `cell_index`.
pub fn preview_image_id(cell_index: usize, image_index: usize) -> (r: u32)
    ensures
        r == preview_image_id_spec(cell_index, image_index),
{
    let scaled = match (cell_index as u32).checked_mul(16) {
        Some(v) => v,
        None => u32::MAX,
    };
    LOCAL_IMAGE_PREVIEW_ID_BASE.saturating_add(scaled).saturating_add(image_index as u32)
}

/// Whether the file of image `image_index` of cell `cell_index` exists, as `files` reports.
pub open spec fn file_exists(files: Seq<Vec<bool>>, cell_index: usize, image_index: int) -> bool {
    cell_index < files.len() && 0 <= image_index < files[cell_index as int]@.len()
        && files[cell_index as int]@[image_index]
}

/// The screen row of an image's block before clipping: below the cell's text, one block per
/// image, shifted by the scroll offset.
pub open spec fn image_top_spec(content: Rect, layout: WorkspaceCellLayout, image_index: int, scroll: usize) -> int {
    content.y + layout.top + layout.base_height + LOCAL_IMAGE_PREVIEW_ROWS * image_index - scroll
}

/// The placement of one image, when its whole block is inside the content area.
pub open spec fn image_draw_spec(
    content: Rect,
    columns: u16,
    layout: WorkspaceCellLayout,
    path: String,
    image_index: int,
    scroll: usize,
) -> Option<LocalImagePreviewDraw> {
    let top = image_top_spec(content, layout, image_index, scroll);
    if top >= content.y && top + LOCAL_IMAGE_PREVIEW_ROWS <= sat_add_u16(content.y, content.height) {
        Some(
            LocalImagePreviewDraw {
                image_id: preview_image_id_spec(layout.cell_index, image_index as usize),
                path,
                x: sat_add_u16(content.x, 2),
                y: top as u16,
                columns,
                rows: LOCAL_IMAGE_PREVIEW_ROWS,
            },
        )
    } else {
        None
    }
}

/// The placements of the first `j` images of a laid-out cell.
pub open spec fn cell_draws_spec(
    content: Rect,
    columns: u16,
    layout: WorkspaceCellLayout,
    cell: TranscriptCell,
    files: Seq<Vec<bool>>,
    scroll: usize,
    j: int,
) -> Seq<LocalImagePreviewDraw>
    decreases j,
{
    if j <= 0 {
        Seq::empty()
    } else {
        let acc = cell_draws_spec(content, columns, layout, cell, files, scroll, j - 1);
        let i = j - 1;
        if file_exists(files, layout.cell_index, i) {
            match image_draw_spec(content, columns, layout, cell.local_image_paths@[i], i, scroll) {
                Some(d) => acc.push(d),
                None => acc,
            }
        } else {
            acc
        }
    }
}

/// The placements of the images of a laid-out cell: only a user prompt with reserved rows has
/// any.
pub open spec fn layout_draws_spec(
    cells: Seq<TranscriptCell>,
    content: Rect,
    columns: u16,
    layout: WorkspaceCellLayout,
    files: Seq<Vec<bool>>,
    scroll: usize,
) -> Seq<LocalImagePreviewDraw> {
    if layout.cell_index < cells.len() && layout.preview_rows > 0 && cells[layout.cell_index as int].kind
        == CellKind::User {
        let cell = cells[layout.cell_index as int];
        cell_draws_spec(content, columns, layout, cell, files, scroll, cell.local_image_paths@.len() as int)
    } else {
        Seq::empty()
    }
}

/// The placements of the images of the first `k` laid-out cells, in layout order.
pub open spec fn draws_spec(
    cells: Seq<TranscriptCell>,
    layouts: Seq<WorkspaceCellLayout>,
    content: Rect,
    columns: u16,
    files: Seq<Vec<bool>>,
    scroll: usize,
    k: int,
) -> Seq<LocalImagePreviewDraw>
    decreases k,
{
    if k <= 0 {
        Seq::empty()
    } else {
        draws_spec(cells, layouts, content, columns, files, scroll, k - 1) + layout_draws_spec(
            cells,
            content,
            columns,
            layouts[k - 1],
            files,
            scroll,
        )
    }
}

/// Columns of a preview in a content area of `width`: inside a two-column gutter on each side,
/// at most the preview width.
pub open spec fn preview_columns_spec(width: u16) -> u16 {
    let inner = sat_sub_u16(width, 4);
    if inner <= LOCAL_IMAGE_PREVIEW_COLUMNS {
        inner
    } else {
        LOCAL_IMAGE_PREVIEW_COLUMNS
    }
}

/// The scroll offset the last render used: the offset clamped to the content.
pub open spec fn effective_scroll(o: TranscriptOverlay, content: Rect) -> usize {
    let total = match o.view.last_rendered_height {
        Some(h) => h,
        None => o.workspace_layout_index.unwrap().total_height,
    };
    let max_scroll = crate::pager::sat_sub(total as int, content.height as int);
    if o.view.scroll_offset <= max_scroll {
        o.view.scroll_offset
    } else {
        max_scroll
    }
}

/// The workspace's image placements for `area` once the layout for its width is built.
pub open spec fn workspace_previews_spec(
    o: TranscriptOverlay,
    area: Rect,
    files: Seq<Vec<bool>>,
) -> Seq<LocalImagePreviewDraw> {
    let content = content_area_spec(area);
    let layouts = o.workspace_layout_index.unwrap().cells@;
    draws_spec(
        o.cells@,
        layouts,
        content,
        preview_columns_spec(content.width),
        files,
        effective_scroll(o, content),
        layouts.len() as int,
    )
}

impl TranscriptOverlay {
    /// The terminal images of the prompts' local image files that are fully visible in the
    /// workspace's transcript `area`.
    ///
    /// `files` reports, per cell and image, whether the image's path is an existing file;
    /// `cell_heights` are the cells' workspace heights at the area's width, read only when the
    /// layout for that width is not cached.
    pub fn workspace_local_image_previews(
        &mut self,
        area: Rect,
        cell_heights: &Vec<u16>,
        files: &Vec<Vec<bool>>,
    ) -> (r: Vec<LocalImagePreviewDraw>)
        requires
            old(self).wf(),
            old(self).workspace_layout_cached_spec(if area.width >= 1 { area.width } else { 1 })
                || cell_heights@.len() == old(self).cells@.len(),
        ensures
            final(self).wf(),
            ({
                let content = content_area_spec(area);
                let columns = preview_columns_spec(content.width);
                if !old(self).is_workspace_spec() || !old(self).local_image_previews_enabled || columns == 0
                    || content.height < LOCAL_IMAGE_PREVIEW_ROWS {
                    r@.len() == 0 && *final(self) == *old(self)
                } else {
                    &&& layout_ensured(*old(self), content.width, cell_heights@, *final(self))
                    &&& r@ == workspace_previews_spec(*final(self), area, files@)
                }
            }),
    {
        let mut previews: Vec<LocalImagePreviewDraw> = Vec::new();
        if !self.is_workspace() || !self.local_image_previews_enabled {
            return previews;
        }
        let content = self.view.content_area(area);
        let inner = content.width.saturating_sub(4);
        let columns = if inner <= LOCAL_IMAGE_PREVIEW_COLUMNS {
            inner
        } else {
            LOCAL_IMAGE_PREVIEW_COLUMNS
        };
        if columns == 0 || content.height < LOCAL_IMAGE_PREVIEW_ROWS {
            return previews;
        }
        self.ensure_workspace_layout_index(content.width, cell_heights);
        let index = match &self.workspace_layout_index {
            Some(index) => index,
            None => {
                return previews;
            },
        };
        let total_height = match self.view.last_rendered_height {
            Some(h) => h,
            None => index.total_height,
        };
        let max_scroll = total_height.saturating_sub(content.height as usize);
        let scroll = if self.view.scroll_offset <= max_scroll {
            self.view.scroll_offset
        } else {
            max_scroll
        };
        let bottom = content.bottom();
        let x = content.x.saturating_add(2);
        let n = index.cells.len();
        let mut k: usize = 0;
        while k < n
            invariant
                0 <= k <= n,
                n == index.cells@.len(),
                previews@ == draws_spec(self.cells@, index.cells@, content, columns, files@, scroll, k as int),
                bottom == sat_add_u16(content.y, content.height),
                x == sat_add_u16(content.x, 2),
            decreases n - k,
        {
            let layout = index.cells[k];
            let ghost before = previews@;
            if layout.cell_index < self.cells.len() && layout.preview_rows > 0
                && self.cells[layout.cell_index].is_user() {
                let cell = &self.cells[layout.cell_index];
                let m = cell.local_image_paths.len();
                let mut j: usize = 0;
                while j < m
                    invariant
                        0 <= j <= m,
                        m == cell.local_image_paths@.len(),
                        previews@ == before + cell_draws_spec(content, columns, layout, *cell, files@, scroll, j as int),
                        bottom == sat_add_u16(content.y, content.height),
                        x == sat_add_u16(content.x, 2),
                    decreases m - j,
                {
                    let present = layout.cell_index < files.len() && j < files[layout.cell_index].len()
                        && files[layout.cell_index][j];
                    if present {
                        let top: i128 = content.y as i128 + layout.top as i128 + layout.base_height as i128 + (
                        LOCAL_IMAGE_PREVIEW_ROWS as i128) * (j as i128) - scroll as i128;
                        if top >= content.y as i128 && top + LOCAL_IMAGE_PREVIEW_ROWS as i128 <= bottom as i128 {
                            previews.push(
                                LocalImagePreviewDraw {
                                    image_id: preview_image_id(layout.cell_index, j),
                                    path: cell.local_image_paths[j].clone(),
                                    x,
                                    y: top as u16,
                                    columns,
                                    rows: LOCAL_IMAGE_PREVIEW_ROWS,
                                },
                            );
                        }
                    }
                    j += 1;
                    proof {
                        assert(previews@ =~= before + cell_draws_spec(
                            content,
                            columns,
                            layout,
                            *cell,
                            files@,
                            scroll,
                            j as int,
                        ));
                    }
                }
            }
            k += 1;
            proof {
                assert(previews@ =~= draws_spec(self.cells@, index.cells@, content, columns, files@, scroll, k as int));
            }
        }
        previews
    }
}


proof fn lemma_cell_draws_own_images(
    content: Rect,
    columns: u16,
    layout: WorkspaceCellLayout,
    cell: TranscriptCell,
    files: Seq<Vec<bool>>,
    scroll: usize,
    j: int,
)
    requires
        0 <= j <= cell.local_image_paths@.len(),
    ensures
        ({
            let d = cell_draws_spec(content, columns, layout, cell, files, scroll, j);
            forall|t: int|
                #![trigger d[t]]
                0 <= t < d.len() ==> exists|i: int|
                    #![trigger cell.local_image_paths@[i]]
                    0 <= i < j && file_exists(files, layout.cell_index, i) && d[t].image_id
                        == preview_image_id_spec(layout.cell_index, i as usize) && d[t].path
                        == cell.local_image_paths@[i]
        }),
    decreases j,
{
    if j > 0 {
        lemma_cell_draws_own_images(content, columns, layout, cell, files, scroll, j - 1);
        let acc = cell_draws_spec(content, columns, layout, cell, files, scroll, j - 1);
        let d = cell_draws_spec(content, columns, layout, cell, files, scroll, j);
        let i = j - 1;
        assert forall|t: int| #![trigger d[t]] 0 <= t < d.len() implies exists|i2: int|
            #![trigger cell.local_image_paths@[i2]]
            0 <= i2 < j && file_exists(files, layout.cell_index, i2) && d[t].image_id == preview_image_id_spec(
                layout.cell_index,
                i2 as usize,
            ) && d[t].path == cell.local_image_paths@[i2] by {
            if t < acc.len() {
                assert(d[t] == acc[t]);
                let i3 = choose|i3: int|
                    #![trigger cell.local_image_paths@[i3]]
                    0 <= i3 < j - 1 && file_exists(files, layout.cell_index, i3) && acc[t].image_id
                        == preview_image_id_spec(layout.cell_index, i3 as usize) && acc[t].path
                        == cell.local_image_paths@[i3];
                assert(cell.local_image_paths@[i3] == cell.local_image_paths@[i3]);
            } else {
                assert(file_exists(files, layout.cell_index, i));
                let dr = image_draw_spec(content, columns, layout, cell.local_image_paths@[i], i, scroll).unwrap();
                assert(d == acc.push(dr));
                assert(d[t] == dr);
                assert(dr.image_id == preview_image_id_spec(layout.cell_index, i as usize));
                assert(dr.path == cell.local_image_paths@[i]);
            }
        }
    }
}

/// Every preview placed shows the image it is for: a placement with the id of image `i` of cell
/// `c` carries the path of that cell's `i`-th local image, which exists on disk, and `c` is a
/// laid-out cell.
pub proof fn law_each_preview_shows_its_own_image(
    cells: Seq<TranscriptCell>,
    layouts: Seq<WorkspaceCellLayout>,
    content: Rect,
    columns: u16,
    files: Seq<Vec<bool>>,
    scroll: usize,
    k: int,
)
    requires
        0 <= k <= layouts.len(),
    ensures
        ({
            let d = draws_spec(cells, layouts, content, columns, files, scroll, k);
            forall|t: int|
                #![trigger d[t]]
                0 <= t < d.len() ==> exists|m: int, i: int|
                    #![trigger layouts[m], cells[layouts[m].cell_index as int].local_image_paths@[i]]
                    0 <= m < k && layouts[m].cell_index < cells.len() && file_exists(files, layouts[m].cell_index, i)
                        && 0 <= i < cells[layouts[m].cell_index as int].local_image_paths@.len() && d[t].image_id
                        == preview_image_id_spec(layouts[m].cell_index, i as usize) && d[t].path
                        == cells[layouts[m].cell_index as int].local_image_paths@[i]
        }),
    decreases k,
{
    if k > 0 {
        law_each_preview_shows_its_own_image(cells, layouts, content, columns, files, scroll, k - 1);
        let acc = draws_spec(cells, layouts, content, columns, files, scroll, k - 1);
        let lay = layouts[k - 1];
        let here = layout_draws_spec(cells, content, columns, lay, files, scroll);
        let d = draws_spec(cells, layouts, content, columns, files, scroll, k);
        assert(d == acc + here);
        if lay.cell_index < cells.len() && lay.preview_rows > 0 && cells[lay.cell_index as int].kind == CellKind::User {
            let cell = cells[lay.cell_index as int];
            lemma_cell_draws_own_images(content, columns, lay, cell, files, scroll, cell.local_image_paths@.len() as int);
        }
        assert forall|t: int| #![trigger d[t]] 0 <= t < d.len() implies exists|m: int, i: int|
            #![trigger layouts[m], cells[layouts[m].cell_index as int].local_image_paths@[i]]
            0 <= m < k && layouts[m].cell_index < cells.len() && file_exists(files, layouts[m].cell_index, i) && 0
                <= i < cells[layouts[m].cell_index as int].local_image_paths@.len() && d[t].image_id
                == preview_image_id_spec(layouts[m].cell_index, i as usize) && d[t].path
                == cells[layouts[m].cell_index as int].local_image_paths@[i] by {
            if t < acc.len() {
                assert(d[t] == acc[t]);
                let (m, i) = choose|m: int, i: int|
                    #![trigger layouts[m], cells[layouts[m].cell_index as int].local_image_paths@[i]]
                    0 <= m < k - 1 && layouts[m].cell_index < cells.len() && file_exists(
                        files,
                        layouts[m].cell_index,
                        i,
                    ) && 0 <= i < cells[layouts[m].cell_index as int].local_image_paths@.len() && acc[t].image_id
                        == preview_image_id_spec(layouts[m].cell_index, i as usize) && acc[t].path
                        == cells[layouts[m].cell_index as int].local_image_paths@[i];
                assert(layouts[m] == layouts[m]);
                assert(cells[layouts[m].cell_index as int].local_image_paths@[i] == cells[layouts[m].cell_index as int].local_image_paths@[i]);
            } else {
                let t2 = t - acc.len();
                assert(d[t] == here[t2]);
                let cell = cells[lay.cell_index as int];
                let i = choose|i: int|
                    #![trigger cell.local_image_paths@[i]]
                    0 <= i < cell.local_image_paths@.len() && file_exists(files, lay.cell_index, i)
                        && here[t2].image_id == preview_image_id_spec(lay.cell_index, i as usize) && here[t2].path
                        == cell.local_image_paths@[i];
                assert(layouts[k - 1] == lay);
                assert(cells[layouts[k - 1].cell_index as int].local_image_paths@[i] == cell.local_image_paths@[i]);
            }
        }
    }
}

} // verus!
