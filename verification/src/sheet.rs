//! Texture sheets: uniform grids of cells with trim rectangles, auto-pack palettes, and
//! the shelf layout used to preview a palette.
use vstd::prelude::*;
use crate::assets::AssetRef;

verus! {

/// A cell of a sheet: a row-major grid index, or an index into a palette's files.
#[derive(Debug, Clone, Copy, PartialEq, Eq, Structural)]
pub struct CellId(pub u32);

/// The trimmed rectangle of a grid cell in cell-local pixels, with the untrimmed cell size.
#[derive(Debug, Clone, Copy, PartialEq, Eq)]
pub struct CellTrim {
    pub offset: (u32, u32),
    pub size: (u32, u32),
    pub original_size: (u32, u32),
    pub manual: bool,
}

/// A grid cell; `trim: None` marks an empty cell (only background or transparency).
#[derive(Debug, Clone, Copy, PartialEq, Eq)]
pub struct GridCell {
    pub trim: Option<CellTrim>,
}

/// A texture cut into equally sized cells starting at a pixel origin.
#[derive(Debug, Clone)]
pub struct UniformGridSheet {
    pub texture: AssetRef,
    pub cell_width: u32,
    pub cell_height: u32,
    pub origin_x: u32,
    pub origin_y: u32,
    pub cells: Vec<GridCell>,
}

/// A palette of separate image files; the index into `files` is the cell id.
#[derive(Debug, Clone)]
pub struct AutoPackSheet {
    pub files: Vec<AssetRef>,
}

#[derive(Debug, Clone)]
pub enum TextureSheetMode {
    UniformGrid(UniformGridSheet),
    AutoPack(AutoPackSheet),
}

#[derive(Debug, Clone)]
pub struct TextureSheet {
    pub version: String,
    pub mode: TextureSheetMode,
}

impl TextureSheet {
    /// A sheet of the current format version in uniform-grid mode.
    pub fn new_uniform_grid(sheet: UniformGridSheet) -> (t: TextureSheet)
        ensures
            t.version@ == seq!['1'],
            t.mode == TextureSheetMode::UniformGrid(sheet),
    {
        let v = vec!['1'];
        assert(v@ =~= seq!['1']);
        TextureSheet { version: crate::text::string_of(v.as_slice()), mode: TextureSheetMode::UniformGrid(sheet) }
    }

    /// A sheet of the current format version in auto-pack mode.
    pub fn new_auto_pack(sheet: AutoPackSheet) -> (t: TextureSheet)
        ensures
            t.version@ == seq!['1'],
            t.mode == TextureSheetMode::AutoPack(sheet),
    {
        let v = vec!['1'];
        assert(v@ =~= seq!['1']);
        TextureSheet { version: crate::text::string_of(v.as_slice()), mode: TextureSheetMode::AutoPack(sheet) }
    }
}

pub open spec fn at_least_one(n: u32) -> int {
    if n == 0 {
        1
    } else {
        n as int
    }
}

fn max1(n: u32) -> (m: u32)
    ensures
        m == at_least_one(n),
{
    if n == 0 {
        1
    } else {
        n
    }
}

impl UniformGridSheet {
    /// `(cols, rows)` of the grid over a source texture of the given size.
    pub fn grid_dimensions(&self, source_width: u32, source_height: u32) -> (d: (u32, u32))
        ensures
            d.0 == source_width as int / at_least_one(self.cell_width),
            d.1 == source_height as int / at_least_one(self.cell_height),
    {
        (source_width / max1(self.cell_width), source_height / max1(self.cell_height))
    }
}

/// `(cols, rows)` of a grid that starts at `(origin_x, origin_y)` in a texture of the given
/// size: the whole cells that fit between the origin and the texture's far edges.
pub fn uniform_grid_cols_rows(texture_width: u32, texture_height: u32, cell_width: u32, cell_height: u32,
    origin_x: u32, origin_y: u32) -> (d: (u32, u32))
    ensures
        d.0 == (if origin_x <= texture_width { (texture_width - origin_x) as int } else { 0int }) / at_least_one(
            cell_width),
        d.1 == (if origin_y <= texture_height { (texture_height - origin_y) as int } else { 0int }) / at_least_one(
            cell_height),
{
    let w = if origin_x <= texture_width { texture_width - origin_x } else { 0 };
    let h = if origin_y <= texture_height { texture_height - origin_y } else { 0 };
    (w / max1(cell_width), h / max1(cell_height))
}

/// The absolute difference of two channel values.
pub fn channel_diff(a: u8, b: u8) -> (d: u8)
    ensures
        d == if a >= b { a - b } else { b - a },
{
    if a >= b {
        a - b
    } else {
        b - a
    }
}


/// An RGBA image held as rows of pixels, top row first.
#[derive(Debug, Clone)]
pub struct PixelGrid {
    pub width: u32,
    pub height: u32,
    pub pixels: Vec<[u8; 4]>,
}

impl PixelGrid {
    /// The pixel buffer has exactly `width * height` entries.
    pub open spec fn wf(&self) -> bool {
        self.pixels@.len() == self.width as int * self.height as int
    }

    /// The pixel at column `x`, row `y`.
    pub open spec fn pixel(&self, x: int, y: int) -> [u8; 4] {
        self.pixels@[y * self.width + x]
    }

    /// An image of the given size filled with one colour.
    pub fn filled(width: u32, height: u32, fill: [u8; 4]) -> (g: PixelGrid)
        requires
            width as int * height as int <= usize::MAX,
        ensures
            g.wf(),
            g.width == width,
            g.height == height,
            forall|x: int, y: int| 0 <= x < width && 0 <= y < height ==> #[trigger] g.pixel(x, y) == fill,
    {
        let n = width as usize * height as usize;
        let mut pixels: Vec<[u8; 4]> = Vec::new();
        let mut i: usize = 0;
        while i < n
            invariant
                i <= n,
                pixels@.len() == i,
                forall|k: int| 0 <= k < i ==> #[trigger] pixels@[k] == fill,
            decreases n - i,
        {
            pixels.push(fill);
            i = i + 1;
        }
        let g = PixelGrid { width, height, pixels };
        proof {
            assert forall|x: int, y: int| 0 <= x < width && 0 <= y < height implies #[trigger] g.pixel(x, y) == fill by {
                lemma_index_in_grid(x, y, width as int, height as int);
            }
        }
        g
    }

    /// The pixel at `(x, y)`.
    pub fn get_pixel(&self, x: u32, y: u32) -> (p: [u8; 4])
        requires
            self.wf(),
            x < self.width,
            y < self.height,
        ensures
            p == self.pixel(x as int, y as int),
    {
        proof {
            lemma_index_in_grid(x as int, y as int, self.width as int, self.height as int);
        }
        let n = self.pixels.len();
        assert((y as int) * (self.width as int) <= (y as int) * (self.width as int) + x);
        self.pixels[y as usize * self.width as usize + x as usize]
    }

    /// Paints the pixel at `(x, y)`.
    pub fn put_pixel(&mut self, x: u32, y: u32, color: [u8; 4])
        requires
            old(self).wf(),
            x < old(self).width,
            y < old(self).height,
        ensures
            final(self).wf(),
            final(self).width == old(self).width,
            final(self).height == old(self).height,
            final(self).pixel(x as int, y as int) == color,
            forall|px: int, py: int| 0 <= px < final(self).width && 0 <= py < final(self).height && (px != x || py != y)
                ==> #[trigger] final(self).pixel(px, py) == old(self).pixel(px, py),
    {
        proof {
            lemma_index_in_grid(x as int, y as int, self.width as int, self.height as int);
        }
        let n = self.pixels.len();
        assert((y as int) * (self.width as int) <= (y as int) * (self.width as int) + x);
        let idx = y as usize * self.width as usize + x as usize;
        self.pixels.set(idx, color);
        proof {
            let w = self.width as int;
            assert forall|px: int, py: int| 0 <= px < w && 0 <= py < self.height && (px != x || py != y)
                implies #[trigger] self.pixel(px, py) == old(self).pixel(px, py) by {
                lemma_index_in_grid(px, py, w, self.height as int);
                lemma_index_injective(px, py, x as int, y as int, w);
            }
        }
    }
}

proof fn lemma_index_in_grid(x: int, y: int, w: int, h: int)
    requires
        0 <= x < w,
        0 <= y < h,
    ensures
        0 <= y * w + x < w * h,
{
    assert(y * w + x < w * h) by (nonlinear_arith)
        requires
            0 <= x < w,
            0 <= y < h,
    ;
    assert(0 <= y * w) by (nonlinear_arith)
        requires
            0 <= y,
            0 <= w,
    ;
}

proof fn lemma_index_injective(x1: int, y1: int, x2: int, y2: int, w: int)
    requires
        0 <= x1 < w,
        0 <= x2 < w,
        0 <= y1,
        0 <= y2,
        x1 != x2 || y1 != y2,
    ensures
        y1 * w + x1 != y2 * w + x2,
{
    if y1 == y2 {
    } else if y1 < y2 {
        assert(y1 * w + x1 < y2 * w + x2) by (nonlinear_arith)
            requires
                0 <= x1 < w,
                0 <= x2,
                y1 < y2,
        ;
    } else {
        assert(y2 * w + x2 < y1 * w + x1) by (nonlinear_arith)
            requires
                0 <= x2 < w,
                0 <= x1,
                y2 < y1,
        ;
    }
}

/// Alpha values at or below this count as transparent.
pub open spec fn alpha_tolerance() -> u8 {
    2
}

/// Channel distance from the background beyond which a pixel counts as content.
pub open spec fn background_threshold() -> u8 {
    8
}

/// The cell `[ox, ox + cw) x [oy, oy + ch)` lies inside the image.
pub open spec fn cell_in_image(img: PixelGrid, ox: u32, oy: u32, cw: u32, ch: u32) -> bool {
    &&& img.wf()
    &&& ox as int + cw as int <= img.width
    &&& oy as int + ch as int <= img.height
}

/// Some pixel of the cell has an alpha different from the cell's first pixel.
pub open spec fn spec_alpha_varies(img: PixelGrid, ox: u32, oy: u32, cw: u32, ch: u32) -> bool {
    exists|lx: int, ly: int| 0 <= lx < cw && 0 <= ly < ch && #[trigger] img.pixel(ox + lx, oy + ly)[3] != img.pixel(
        ox as int, oy as int)[3]
}

/// Whether a pixel is content: opaque enough when the cell's alpha varies, otherwise far
/// enough from the background colour in some channel.
pub open spec fn is_content(p: [u8; 4], alpha_varies: bool, bg: [u8; 3]) -> bool {
    if alpha_varies {
        p[3] > alpha_tolerance()
    } else {
        ||| (if p[0] >= bg[0] { p[0] - bg[0] } else { bg[0] - p[0] }) > background_threshold()
        ||| (if p[1] >= bg[1] { p[1] - bg[1] } else { bg[1] - p[1] }) > background_threshold()
        ||| (if p[2] >= bg[2] { p[2] - bg[2] } else { bg[2] - p[2] }) > background_threshold()
    }
}

pub fn cell_has_alpha_variation(img: &PixelGrid, ox: u32, oy: u32, cw: u32, ch: u32) -> (b: bool)
    requires
        cell_in_image(*img, ox, oy, cw, ch),
    ensures
        b == spec_alpha_varies(*img, ox, oy, cw, ch),
{
    if cw == 0 || ch == 0 {
        return false;
    }
    let first = img.get_pixel(ox, oy)[3];
    let mut ly: u32 = 0;
    while ly < ch
        invariant
            cell_in_image(*img, ox, oy, cw, ch),
            ly <= ch,
            cw > 0,
            ch > 0,
            first == img.pixel(ox as int, oy as int)[3],
            forall|px: int, py: int| 0 <= px < cw && 0 <= py < ly ==> #[trigger] img.pixel(ox + px, oy + py)[3] == first,
        decreases ch - ly,
    {
        let mut lx: u32 = 0;
        while lx < cw
            invariant
                cell_in_image(*img, ox, oy, cw, ch),
                ly < ch,
                lx <= cw,
                first == img.pixel(ox as int, oy as int)[3],
                forall|px: int, py: int| 0 <= px < cw && 0 <= py < ly ==> #[trigger] img.pixel(ox + px, oy + py)[3] == first,
                forall|px: int| 0 <= px < lx ==> #[trigger] img.pixel(ox + px, oy + ly)[3] == first,
            decreases cw - lx,
        {
            let a = img.get_pixel(ox + lx, oy + ly)[3];
            if a != first {
                assert(img.pixel(ox + lx as int, oy + ly as int)[3] != img.pixel(ox as int, oy as int)[3]);
                return true;
            }
            lx = lx + 1;
        }
        ly = ly + 1;
    }
    false
}

/// The trim of a cell: the bounding box of its content pixels, or `None` when it has none.
pub open spec fn cell_content(img: PixelGrid, ox: u32, oy: u32, cw: u32, ch: u32, bg: [u8; 3], lx: int, ly: int) -> bool {
    0 <= lx < cw && 0 <= ly < ch && is_content(img.pixel(ox + lx, oy + ly), spec_alpha_varies(img, ox, oy, cw, ch), bg)
}

pub open spec fn trim_matches(img: PixelGrid, ox: u32, oy: u32, cw: u32, ch: u32, bg: [u8; 3], t: Option<CellTrim>) -> bool {
    match t {
        None => forall|lx: int, ly: int| !#[trigger] cell_content(img, ox, oy, cw, ch, bg, lx, ly),
        Some(t) => {
            &&& t.original_size == (cw, ch)
            &&& !t.manual
            &&& t.size.0 >= 1 && t.size.1 >= 1
            &&& forall|lx: int, ly: int| #[trigger] cell_content(img, ox, oy, cw, ch, bg, lx, ly) ==> t.offset.0 <= lx < t.offset.0 + t.size.0
                && t.offset.1 <= ly < t.offset.1 + t.size.1
            &&& exists|ly: int| #[trigger] cell_content(img, ox, oy, cw, ch, bg, t.offset.0 as int, ly)
            &&& exists|lx: int| #[trigger] cell_content(img, ox, oy, cw, ch, bg, lx, t.offset.1 as int)
            &&& exists|ly: int| #[trigger] cell_content(img, ox, oy, cw, ch, bg, t.offset.0 + t.size.0 - 1, ly)
            &&& exists|lx: int| #[trigger] cell_content(img, ox, oy, cw, ch, bg, lx, t.offset.1 + t.size.1 - 1)
        },
    }
}

fn pixel_is_content(p: [u8; 4], alpha_varies: bool, bg: [u8; 3]) -> (b: bool)
    ensures
        b == is_content(p, alpha_varies, bg),
{
    if alpha_varies {
        p[3] > 2
    } else {
        channel_diff(p[0], bg[0]) > 8 || channel_diff(p[1], bg[1]) > 8 || channel_diff(p[2], bg[2]) > 8
    }
}

/// The bounding box of the content pixels of one cell (see `trim_matches`).
pub fn trim_cell(img: &PixelGrid, ox: u32, oy: u32, cw: u32, ch: u32, bg: [u8; 3]) -> (t: Option<CellTrim>)
    requires
        cell_in_image(*img, ox, oy, cw, ch),
    ensures
        trim_matches(*img, ox, oy, cw, ch, bg, t),
{
    let av = cell_has_alpha_variation(img, ox, oy, cw, ch);
    let mut min_x: u32 = cw;
    let mut min_y: u32 = ch;
    let mut max_x: u32 = 0;
    let mut max_y: u32 = 0;
    let mut found = false;
    // witnesses of the extremes
    let ghost mut wx_min: (int, int) = (0, 0);
    let ghost mut wy_min: (int, int) = (0, 0);
    let ghost mut wx_max: (int, int) = (0, 0);
    let ghost mut wy_max: (int, int) = (0, 0);
    let mut ly: u32 = 0;
    while ly < ch
        invariant
            cell_in_image(*img, ox, oy, cw, ch),
            ly <= ch,
            av == spec_alpha_varies(*img, ox, oy, cw, ch),
            !found ==> forall|px: int, py: int| py < ly ==> !cell_content(*img, ox, oy, cw, ch, bg, px, py),
            found ==> {
                &&& min_x <= max_x < cw && min_y <= max_y < ch
                &&& forall|px: int, py: int| py < ly && #[trigger] cell_content(*img, ox, oy, cw, ch, bg, px, py) ==> min_x <= px <= max_x && min_y <= py <= max_y
                &&& cell_content(*img, ox, oy, cw, ch, bg, wx_min.0, wx_min.1) && wx_min.0 == min_x
                &&& cell_content(*img, ox, oy, cw, ch, bg, wy_min.0, wy_min.1) && wy_min.1 == min_y
                &&& cell_content(*img, ox, oy, cw, ch, bg, wx_max.0, wx_max.1) && wx_max.0 == max_x
                &&& cell_content(*img, ox, oy, cw, ch, bg, wy_max.0, wy_max.1) && wy_max.1 == max_y
            },
        decreases ch - ly,
    {
        let mut lx: u32 = 0;
        while lx < cw
            invariant
                cell_in_image(*img, ox, oy, cw, ch),
                ly < ch,
                lx <= cw,
                av == spec_alpha_varies(*img, ox, oy, cw, ch),
                !found ==> forall|px: int, py: int| (py < ly || (py == ly && px < lx)) ==> !cell_content(*img, ox, oy, cw, ch, bg, px, py),
                found ==> {
                    &&& min_x <= max_x < cw && min_y <= max_y < ch
                    &&& forall|px: int, py: int| (py < ly || (py == ly && px < lx)) && #[trigger] cell_content(*img, ox, oy, cw, ch, bg, px, py) ==> min_x <= px <= max_x && min_y <= py <= max_y
                    &&& cell_content(*img, ox, oy, cw, ch, bg, wx_min.0, wx_min.1) && wx_min.0 == min_x
                    &&& cell_content(*img, ox, oy, cw, ch, bg, wy_min.0, wy_min.1) && wy_min.1 == min_y
                    &&& cell_content(*img, ox, oy, cw, ch, bg, wx_max.0, wx_max.1) && wx_max.0 == max_x
                    &&& cell_content(*img, ox, oy, cw, ch, bg, wy_max.0, wy_max.1) && wy_max.1 == max_y
                },
            decreases cw - lx,
        {
            let p = img.get_pixel(ox + lx, oy + ly);
            if pixel_is_content(p, av, bg) {
                assert(cell_content(*img, ox, oy, cw, ch, bg, lx as int, ly as int));
                if !found {
                    min_x = lx;
                    min_y = ly;
                    max_x = lx;
                    max_y = ly;
                    proof {
                        wx_min = (lx as int, ly as int);
                        wy_min = (lx as int, ly as int);
                        wx_max = (lx as int, ly as int);
                        wy_max = (lx as int, ly as int);
                    }
                    found = true;
                } else {
                    if lx < min_x {
                        min_x = lx;
                        proof { wx_min = (lx as int, ly as int); }
                    }
                    if ly < min_y {
                        min_y = ly;
                        proof { wy_min = (lx as int, ly as int); }
                    }
                    if lx > max_x {
                        max_x = lx;
                        proof { wx_max = (lx as int, ly as int); }
                    }
                    if ly > max_y {
                        max_y = ly;
                        proof { wy_max = (lx as int, ly as int); }
                    }
                }
            }
            lx = lx + 1;
        }
        ly = ly + 1;
    }
    if !found {
        proof {
            assert forall|lx: int, ly: int| !#[trigger] cell_content(*img, ox, oy, cw, ch, bg, lx, ly) by {
                if ly >= ch {
                }
            }
        }
        return None;
    }
    let t = CellTrim {
        offset: (min_x, min_y),
        size: (max_x - min_x + 1, max_y - min_y + 1),
        original_size: (cw, ch),
        manual: false,
    };
    proof {
        assert(cell_content(*img, ox, oy, cw, ch, bg, t.offset.0 as int, wx_min.1));
        assert(cell_content(*img, ox, oy, cw, ch, bg, wy_min.0, t.offset.1 as int));
        assert(cell_content(*img, ox, oy, cw, ch, bg, t.offset.0 + t.size.0 - 1, wx_max.1));
        assert(cell_content(*img, ox, oy, cw, ch, bg, wy_max.0, t.offset.1 + t.size.1 - 1));
        assert forall|lx: int, ly: int| #[trigger] cell_content(*img, ox, oy, cw, ch, bg, lx, ly) implies t.offset.0 <= lx
            < t.offset.0 + t.size.0 && t.offset.1 <= ly < t.offset.1 + t.size.1 by {
            assert(ly < ch);
        }
    }
    Some(t)
}


/// Slices the image into a row-major grid of cells (cell sizes of 0 count as 1) and trims
/// each cell against the background colour `bg`.
pub fn compute_uniform_grid_trims(img: &PixelGrid, cell_width: u32, cell_height: u32, bg: [u8; 3]) -> (cells: Vec<GridCell>)
    requires
        img.wf(),
    ensures
        ({
            let cw = at_least_one(cell_width);
            let ch = at_least_one(cell_height);
            let cols = img.width as int / cw;
            let rows = img.height as int / ch;
            &&& cells@.len() == cols * rows
            &&& forall|row: int, col: int| 0 <= row < rows && 0 <= col < cols ==> trim_matches(*img, (col * cw) as u32,
                (row * ch) as u32, cw as u32, ch as u32, bg, #[trigger] cells@[row * cols + col].trim)
        }),
{
    let cw = max1(cell_width);
    let ch = max1(cell_height);
    let cols = img.width / cw;
    let rows = img.height / ch;
    let mut cells: Vec<GridCell> = Vec::new();
    let mut row: u32 = 0;
    proof {
        lemma_div_mul_bound(img.width as int, cw as int);
        lemma_div_mul_bound(img.height as int, ch as int);
    }
    while row < rows
        invariant
            img.wf(),
            cw == at_least_one(cell_width),
            ch == at_least_one(cell_height),
            cols == img.width / cw,
            rows == img.height / ch,
            cols * cw <= img.width,
            rows * ch <= img.height,
            row <= rows,
            cells@.len() == row * cols,
            forall|r: int, c: int| 0 <= r < row && 0 <= c < cols ==> trim_matches(*img, (c * cw) as u32, (r * ch) as u32,
                cw, ch, bg, #[trigger] cells@[r * cols + c].trim),
        decreases rows - row,
    {
        let mut col: u32 = 0;
        proof {
            lemma_cell_origin(row as int, rows as int, ch as int, img.height as int);
        }
        while col < cols
            invariant
                img.wf(),
                cw == at_least_one(cell_width),
                ch == at_least_one(cell_height),
                cols == img.width / cw,
                rows == img.height / ch,
                cols * cw <= img.width,
                rows * ch <= img.height,
                row < rows,
                row * ch + ch <= img.height,
                col <= cols,
                cells@.len() == row * cols + col,
                forall|r: int, c: int| 0 <= r < row && 0 <= c < cols ==> trim_matches(*img, (c * cw) as u32, (r * ch) as u32,
                    cw, ch, bg, #[trigger] cells@[r * cols + c].trim),
                forall|c: int| 0 <= c < col ==> trim_matches(*img, (c * cw) as u32, (row * ch) as u32,
                    cw, ch, bg, #[trigger] cells@[row * cols + c].trim),
            decreases cols - col,
        {
            proof {
                lemma_cell_origin(col as int, cols as int, cw as int, img.width as int);
            }
            let ox = col * cw;
            let oy = row * ch;
            let trim = trim_cell(img, ox, oy, cw, ch, bg);
            let ghost before = cells@;
            cells.push(GridCell { trim });
            proof {
                assert(cells@[row * cols + col].trim == trim);
                assert forall|r: int, c: int| 0 <= r < row && 0 <= c < cols implies trim_matches(*img, (c * cw) as u32,
                    (r * ch) as u32, cw, ch, bg, #[trigger] cells@[r * cols + c].trim) by {
                    lemma_row_major_before(r, c, row as int, cols as int);
                    assert(cells@[r * cols + c] == before[r * cols + c]);
                }
                assert forall|c: int| 0 <= c < col + 1 implies trim_matches(*img, (c * cw) as u32, (row * ch) as u32,
                    cw, ch, bg, #[trigger] cells@[row * cols + c].trim) by {
                    if c < col {
                        assert(cells@[row * cols + c] == before[row * cols + c]);
                    }
                }
            }
            col = col + 1;
        }
        proof {
            assert(cells@.len() == (row + 1) * cols) by (nonlinear_arith)
                requires
                    cells@.len() == row * cols + col,
                    col == cols,
            ;
        }
        row = row + 1;
    }
    proof {
        let cwi = at_least_one(cell_width);
        let chi = at_least_one(cell_height);
        assert(cols as int == img.width as int / cwi);
        assert(rows as int == img.height as int / chi);
        vstd::arithmetic::mul::lemma_mul_is_commutative(rows as int, cols as int);
        assert forall|r: int, c: int| 0 <= r < rows && 0 <= c < cols implies trim_matches(*img, (c * cwi) as u32,
            (r * chi) as u32, cwi as u32, chi as u32, bg, #[trigger] cells@[r * (img.width as int / cwi) + c].trim) by {
            assert(cells@[r * cols + c].trim == cells@[r * (img.width as int / cwi) + c].trim);
        }
    }
    cells
}

proof fn lemma_div_mul_bound(a: int, b: int)
    requires
        a >= 0,
        b > 0,
    ensures
        (a / b) * b <= a,
        a / b >= 0,
{
    vstd::arithmetic::div_mod::lemma_fundamental_div_mod(a, b);
    vstd::arithmetic::div_mod::lemma_div_pos_is_pos(a, b);
    vstd::arithmetic::div_mod::lemma_mod_pos_bound(a, b);
    vstd::arithmetic::mul::lemma_mul_is_commutative(a / b, b);
}

proof fn lemma_cell_origin(i: int, n: int, size: int, limit: int)
    requires
        0 <= i < n,
        size > 0,
        n * size <= limit,
    ensures
        i * size + size <= limit,
        0 <= i * size,
{
    assert(i * size + size <= n * size) by (nonlinear_arith)
        requires
            0 <= i < n,
            size > 0,
    ;
    assert(0 <= i * size) by (nonlinear_arith)
        requires
            0 <= i,
            size > 0,
    ;
}

proof fn lemma_row_major_before(r: int, c: int, row: int, cols: int)
    requires
        0 <= r < row,
        0 <= c < cols,
    ensures
        0 <= r * cols + c < row * cols,
{
    assert(r * cols + c < row * cols) by (nonlinear_arith)
        requires
            0 <= r < row,
            0 <= c < cols,
    ;
    assert(0 <= r * cols) by (nonlinear_arith)
        requires
            0 <= r,
            0 <= cols,
    ;
}

/// Where a texture's pixels come from: a whole file, or one cell of a texture sheet.
#[derive(Debug, Clone)]
pub enum TextureSource {
    File(AssetRef),
    SheetCell { sheet_path: String, cell_id: CellId },
}

/// A sheet cell resolved as far as possible before its texture's size is known.
#[derive(Debug, Clone, Copy)]
pub enum PendingGridCell {
    Whole,
    Cell { cell_index: u32, cell_width: u32, cell_height: u32, origin_x: u32, origin_y: u32, trim: Option<CellTrim> },
}

/// The asset that a sheet cell draws and its pending grid cell, given the sheet named by
/// the source (`None` when it could not be loaded).
pub open spec fn spec_resolve_sheet_cell(sheet: Option<TextureSheet>, cell_id: CellId) -> (Option<AssetRef>, PendingGridCell) {
    match sheet {
        None => (None, PendingGridCell::Whole),
        Some(sheet) => match sheet.mode {
            TextureSheetMode::UniformGrid(grid) => (Some(grid.texture), PendingGridCell::Cell {
                cell_index: cell_id.0,
                cell_width: grid.cell_width,
                cell_height: grid.cell_height,
                origin_x: grid.origin_x,
                origin_y: grid.origin_y,
                trim: if (cell_id.0 as int) < grid.cells@.len() { grid.cells@[cell_id.0 as int].trim } else { None },
            }),
            TextureSheetMode::AutoPack(pack) => (if (cell_id.0 as int) < pack.files@.len() {
                Some(pack.files@[cell_id.0 as int])
            } else {
                None
            }, PendingGridCell::Whole),
        },
    }
}

/// Resolves a texture source to the asset to load and the pending grid cell; `sheet` is the
/// sheet a `SheetCell` source names, as loaded (or `None` when loading failed). A missing
/// sheet or palette file resolves to the empty game path.
pub fn resolve_texture_source(source: &TextureSource, sheet: Option<&TextureSheet>) -> (r: (AssetRef, PendingGridCell))
    ensures
        match source {
            TextureSource::File(a) => r.0.source == a.source && r.0.path@ == a.path@ && r.1 == PendingGridCell::Whole,
            TextureSource::SheetCell { sheet_path, cell_id } => {
                let (asset, pending) = spec_resolve_sheet_cell(match sheet {
                    Some(s) => Some(*s),
                    None => None,
                }, *cell_id);
                &&& r.1 == pending
                &&& match asset {
                    Some(a) => r.0.source == a.source && r.0.path@ == a.path@,
                    None => r.0.source == crate::assets::AssetSource::Game && r.0.path@.len() == 0,
                }
            },
        },
{
    match source {
        TextureSource::File(asset) => (asset.copy(), PendingGridCell::Whole),
        TextureSource::SheetCell { sheet_path, cell_id } => {
            let sheet = match sheet {
                Some(s) => s,
                None => return (AssetRef::game(String::new()), PendingGridCell::Whole),
            };
            match &sheet.mode {
                TextureSheetMode::UniformGrid(grid) => {
                    let index = cell_id.0 as usize;
                    let trim = if index < grid.cells.len() {
                        grid.cells[index].trim
                    } else {
                        None
                    };
                    (grid.texture.copy(), PendingGridCell::Cell {
                        cell_index: cell_id.0,
                        cell_width: grid.cell_width,
                        cell_height: grid.cell_height,
                        origin_x: grid.origin_x,
                        origin_y: grid.origin_y,
                        trim,
                    })
                },
                TextureSheetMode::AutoPack(pack) => {
                    let index = cell_id.0 as usize;
                    if index < pack.files.len() {
                        (pack.files[index].copy(), PendingGridCell::Whole)
                    } else {
                        (AssetRef::game(String::new()), PendingGridCell::Whole)
                    }
                },
            }
        },
    }
}

/// The pixel rectangle a pending cell samples from a texture of the given size, with its
/// effective (trimmed) and nominal (untrimmed) sizes: `(x, y, effective, nominal)`.
/// A `None` cell samples the whole texture.
pub open spec fn spec_cell_pixel_rect(pending: PendingGridCell, tw: u32, th: u32) -> (int, int, (u32, u32), (u32, u32)) {
    match pending {
        PendingGridCell::Whole => (0, 0, (tw, th), (tw, th)),
        PendingGridCell::Cell { cell_index, cell_width, cell_height, origin_x, origin_y, trim } => {
            let cols0 = (if origin_x <= tw { tw - origin_x } else { 0int }) / at_least_one(cell_width);
            let cols = if cols0 >= 1 { cols0 } else { 1 };
            let col = cell_index as int % cols;
            let row = cell_index as int / cols;
            let (offset, size) = match trim {
                Some(t) => (t.offset, t.size),
                None => ((0u32, 0u32), (cell_width, cell_height)),
            };
            (origin_x + col * cell_width + offset.0, origin_y + row * cell_height + offset.1, size, (cell_width, cell_height))
        },
    }
}

/// The pixel rectangle of a pending cell (see `spec_cell_pixel_rect`), in 64-bit pixels.
pub fn cell_pixel_rect(pending: PendingGridCell, texture_width: u32, texture_height: u32) -> (r: (u64, u64, (u32, u32), (u32, u32)))
    ensures
        r.0 as int == spec_cell_pixel_rect(pending, texture_width, texture_height).0,
        r.1 as int == spec_cell_pixel_rect(pending, texture_width, texture_height).1,
        r.2 == spec_cell_pixel_rect(pending, texture_width, texture_height).2,
        r.3 == spec_cell_pixel_rect(pending, texture_width, texture_height).3,
{
    match pending {
        PendingGridCell::Whole => (0, 0, (texture_width, texture_height), (texture_width, texture_height)),
        PendingGridCell::Cell { cell_index, cell_width, cell_height, origin_x, origin_y, trim } => {
            let (cols, _rows) = uniform_grid_cols_rows(texture_width, texture_height, cell_width, cell_height, origin_x,
                origin_y);
            let cols = if cols >= 1 { cols } else { 1 };
            let col = cell_index % cols;
            let row = cell_index / cols;
            let (offset, size) = match trim {
                Some(t) => (t.offset, t.size),
                None => ((0u32, 0u32), (cell_width, cell_height)),
            };
            proof {
                assert((col as int) * (cell_width as int) <= 0xffff_ffff * 0xffff_ffff) by (nonlinear_arith)
                    requires
                        col <= 0xffff_ffff,
                        cell_width <= 0xffff_ffff,
                ;
                assert((row as int) * (cell_height as int) <= 0xffff_ffff * 0xffff_ffff) by (nonlinear_arith)
                    requires
                        row <= 0xffff_ffff,
                        cell_height <= 0xffff_ffff,
                ;
            }
            let x = origin_x as u64 + col as u64 * cell_width as u64 + offset.0 as u64;
            let y = origin_y as u64 + row as u64 * cell_height as u64 + offset.1 as u64;
            (x, y, size, (cell_width, cell_height))
        },
    }
}

/// One rectangle placed by `shelf_pack_preview`, in preview pixels.
#[derive(Debug, Clone, Copy, PartialEq, Eq, Structural)]
pub struct ShelfPackedRect {
    pub file_index: usize,
    pub x: u32,
    pub y: u32,
    pub width: u32,
    pub height: u32,
}

/// Item `a` comes before item `b` in packing order: taller first, ties by index.
pub open spec fn packs_before(dims: Seq<(u32, u32)>, a: int, b: int) -> bool {
    dims[a].1 > dims[b].1 || (dims[a].1 == dims[b].1 && a < b)
}

/// `order` lists every item index exactly once, taller items first, ties in index order.
pub open spec fn is_height_order(dims: Seq<(u32, u32)>, order: Seq<usize>) -> bool {
    &&& order.len() == dims.len()
    &&& forall|k: int| 0 <= k < order.len() ==> #[trigger] order[k] < dims.len()
    &&& forall|j: int| 0 <= j < dims.len() ==> #[trigger] order.contains(j as usize)
    &&& forall|a: int, b: int| 0 <= a < b < order.len() ==> packs_before(dims, #[trigger] order[a] as int,
        #[trigger] order[b] as int)
}

/// Cursor `(x, y, row height)` after placing the first `i` items of `order`.
pub open spec fn pack_state(dims: Seq<(u32, u32)>, order: Seq<usize>, max_row_width: u32, i: nat) -> (int, int, int)
    decreases i,
{
    if i == 0 {
        (0, 0, 0)
    } else {
        let (x, y, row) = pack_state(dims, order, max_row_width, (i - 1) as nat);
        let (w, h) = dims[order[i - 1] as int];
        let (x0, y0, r0) = if x > 0 && x + w > at_least_one(max_row_width) {
            (0int, y + row, 0int)
        } else {
            (x, y, row)
        };
        (x0 + w, y0, if r0 >= h { r0 } else { h as int })
    }
}

/// Where item `i` of `order` is placed.
pub open spec fn pack_origin(dims: Seq<(u32, u32)>, order: Seq<usize>, max_row_width: u32, i: nat) -> (int, int) {
    let (x, y, row) = pack_state(dims, order, max_row_width, i);
    let w = dims[order[i as int] as int].0;
    if x > 0 && x + w > at_least_one(max_row_width) {
        (0, y + row)
    } else {
        (x, y)
    }
}

/// No cursor computation of the packing overflows 32 bits.
pub open spec fn pack_fits_u32(dims: Seq<(u32, u32)>, order: Seq<usize>, max_row_width: u32) -> bool {
    forall|i: nat| i < order.len() ==> {
        let (x, y, row) = #[trigger] pack_state(dims, order, max_row_width, i);
        let w = dims[order[i as int] as int].0;
        x + w <= u32::MAX && y + row <= u32::MAX
    }
}

/// The rectangle placed for item `i` of `order`.
pub open spec fn packed_rect(dims: Seq<(u32, u32)>, order: Seq<usize>, max_row_width: u32, i: nat) -> ShelfPackedRect {
    let (x, y) = pack_origin(dims, order, max_row_width, i);
    let idx = order[i as int];
    ShelfPackedRect { file_index: idx, x: x as u32, y: y as u32, width: dims[idx as int].0, height: dims[idx as int].1 }
}

/// The packing order of the items: taller first, ties in index order (a stable sort by
/// descending height).
pub fn height_order(dims: &[(u32, u32)]) -> (order: Vec<usize>)
    ensures
        is_height_order(dims@, order@),
{
    let mut order: Vec<usize> = Vec::new();
    let mut i: usize = 0;
    while i < dims.len()
        invariant
            i <= dims@.len(),
            order@.len() == i,
            forall|k: int| 0 <= k < order@.len() ==> #[trigger] order@[k] < i,
            forall|j: int| 0 <= j < i ==> #[trigger] order@.contains(j as usize),
            forall|a: int, b: int| 0 <= a < b < order@.len() ==> packs_before(dims@, #[trigger] order@[a] as int,
                #[trigger] order@[b] as int),
        decreases dims@.len() - i,
    {
        let h = dims[i].1;
        let mut pos: usize = 0;
        let mut found = false;
        while pos < order.len() && !found
            invariant
                pos <= order@.len(),
                i < dims@.len(),
                h == dims@[i as int].1,
                forall|k: int| 0 <= k < order@.len() ==> #[trigger] order@[k] < i,
                forall|k: int| 0 <= k < pos ==> dims@[#[trigger] order@[k] as int].1 >= h,
                found ==> pos < order@.len() && dims@[order@[pos as int] as int].1 < h,
            decreases order@.len() - pos + (if found { 0int } else { 1int }),
        {
            let o = order[pos];
            if dims[o].1 < h {
                found = true;
            } else {
                pos = pos + 1;
            }
        }
        let ghost old_order = order@;
        proof {
            // every entry from `pos` on is strictly shorter than item i
            assert forall|k: int| pos <= k < old_order.len() implies dims@[#[trigger] old_order[k] as int].1 < h by {
                if k > pos {
                    assert(packs_before(dims@, old_order[pos as int] as int, old_order[k] as int));
                }
            }
        }
        order.insert(pos, i);
        proof {
            let no = order@;
            assert(no == old_order.insert(pos as int, i));
            assert forall|k: int| 0 <= k < no.len() implies #[trigger] no[k] < i + 1 by {
                if k < pos {
                    assert(no[k] == old_order[k]);
                } else if k > pos {
                    assert(no[k] == old_order[k - 1]);
                }
            }
            assert forall|j: int| 0 <= j < i + 1 implies #[trigger] no.contains(j as usize) by {
                if j == i {
                    assert(no[pos as int] == i);
                } else {
                    assert(old_order.contains(j as usize));
                    let m = choose|m: int| 0 <= m < old_order.len() && old_order[m] == j as usize;
                    if m < pos {
                        assert(no[m] == j as usize);
                    } else {
                        assert(no[m + 1] == j as usize);
                    }
                }
            }
            assert forall|a: int, b: int| 0 <= a < b < no.len() implies packs_before(dims@, #[trigger] no[a] as int,
                #[trigger] no[b] as int) by {
                if a < pos && b < pos {
                    assert(no[a] == old_order[a] && no[b] == old_order[b]);
                } else if a < pos && b == pos {
                    assert(no[a] == old_order[a]);
                    assert(dims@[old_order[a] as int].1 >= h);
                    assert(old_order[a] < i);
                } else if a < pos && b > pos {
                    assert(no[a] == old_order[a] && no[b] == old_order[b - 1]);
                } else if a == pos {
                    assert(no[b] == old_order[b - 1]);
                    assert(dims@[old_order[b - 1] as int].1 < h);
                } else {
                    assert(no[a] == old_order[a - 1] && no[b] == old_order[b - 1]);
                }
            }
        }
        i = i + 1;
    }
    order
}

/// Lays the items out left to right in the order of `height_order`, starting a new row when
/// an item would pass `max_row_width` (at least 1) and the row is not empty. Used only to
/// place preview thumbnails of a palette.
pub fn shelf_pack_preview(file_dimensions: &[(u32, u32)], max_row_width: u32) -> (rects: Vec<ShelfPackedRect>)
    requires
        forall|o: Seq<usize>| is_height_order(file_dimensions@, o) ==> pack_fits_u32(file_dimensions@, o,
            max_row_width),
    ensures
        rects@.len() == file_dimensions@.len(),
        exists|o: Seq<usize>| is_height_order(file_dimensions@, o) && forall|i: int| 0 <= i < rects@.len()
            ==> #[trigger] rects@[i] == packed_rect(file_dimensions@, o, max_row_width, i as nat),
{
    let order = height_order(file_dimensions);
    let ghost o = order@;
    let limit = max1(max_row_width);
    let mut rects: Vec<ShelfPackedRect> = Vec::new();
    let mut cursor_x: u32 = 0;
    let mut cursor_y: u32 = 0;
    let mut row_height: u32 = 0;
    let mut k: usize = 0;
    while k < order.len()
        invariant
            k <= order@.len(),
            o == order@,
            limit == at_least_one(max_row_width),
            is_height_order(file_dimensions@, o),
            pack_fits_u32(file_dimensions@, o, max_row_width),
            rects@.len() == k,
            pack_state(file_dimensions@, o, max_row_width, k as nat) == (cursor_x as int, cursor_y as int,
                row_height as int),
            forall|i: int| 0 <= i < k ==> #[trigger] rects@[i] == packed_rect(file_dimensions@, o, max_row_width,
                i as nat),
        decreases order@.len() - k,
    {
        let index = order[k];
        let (width, height) = file_dimensions[index];
        proof {
            assert(pack_state(file_dimensions@, o, max_row_width, k as nat) == (cursor_x as int, cursor_y as int,
                row_height as int));
        }
        if cursor_x > 0 && cursor_x as u64 + width as u64 > limit as u64 {
            cursor_x = 0;
            cursor_y = cursor_y + row_height;
            row_height = 0;
        }
        rects.push(ShelfPackedRect { file_index: index, x: cursor_x, y: cursor_y, width, height });
        cursor_x = cursor_x + width;
        row_height = if row_height >= height { row_height } else { height };
        proof {
            assert(pack_state(file_dimensions@, o, max_row_width, (k + 1) as nat) == (cursor_x as int,
                cursor_y as int, row_height as int));
        }
        k = k + 1;
    }
    rects
}

/// Two placed rectangles overlap when both their horizontal and vertical extents intersect.
pub open spec fn rects_overlap(a: ShelfPackedRect, b: ShelfPackedRect) -> bool {
    a.x < b.x + b.width && b.x < a.x + a.width && a.y < b.y + b.height && b.y < a.y + a.height
}

/// Index of the first item of the row that item `i` (exclusive) would continue.
pub open spec fn row_start(dims: Seq<(u32, u32)>, order: Seq<usize>, max_row_width: u32, i: nat) -> nat
    decreases i,
{
    if i == 0 {
        0
    } else {
        let (x, y, row) = pack_state(dims, order, max_row_width, (i - 1) as nat);
        let w = dims[order[i - 1] as int].0;
        if x > 0 && x + w > at_least_one(max_row_width) {
            (i - 1) as nat
        } else {
            row_start(dims, order, max_row_width, (i - 1) as nat)
        }
    }
}

proof fn lemma_pack_layout(dims: Seq<(u32, u32)>, order: Seq<usize>, max_row_width: u32, i: nat)
    requires
        is_height_order(dims, order),
        i <= order.len(),
    ensures
        ({
            let (x, y, row) = pack_state(dims, order, max_row_width, i);
            let s = row_start(dims, order, max_row_width, i);
            &&& s <= i
            &&& x >= 0 && y >= 0 && row >= 0
            &&& forall|j: nat| j < s ==> {
                let (ox, oy) = #[trigger] pack_origin(dims, order, max_row_width, j);
                oy + dims[order[j as int] as int].1 <= y
            }
            &&& forall|j: nat| s <= j < i ==> {
                let (ox, oy) = #[trigger] pack_origin(dims, order, max_row_width, j);
                &&& oy == y
                &&& ox + dims[order[j as int] as int].0 <= x
                &&& dims[order[j as int] as int].1 <= row
                &&& ox >= 0
            }
        }),
    decreases i,
{
    if i > 0 {
        lemma_pack_layout(dims, order, max_row_width, (i - 1) as nat);
    }
}

/// In a cell whose alpha does not vary, a pixel that differs from the background colour by
/// more than the threshold in any one of red, green or blue is content: the cell gets a
/// trim, and the trim covers that pixel.
pub proof fn law_far_channel_pixel_is_trimmed(
    img: PixelGrid,
    ox: u32,
    oy: u32,
    cw: u32,
    ch: u32,
    bg: [u8; 3],
    t: Option<CellTrim>,
    lx: int,
    ly: int,
    k: int,
)
    requires
        trim_matches(img, ox, oy, cw, ch, bg, t),
        !spec_alpha_varies(img, ox, oy, cw, ch),
        0 <= lx < cw,
        0 <= ly < ch,
        0 <= k < 3,
        img.pixel(ox + lx, oy + ly)[k] - bg[k] > background_threshold() || bg[k] - img.pixel(ox + lx, oy + ly)[k]
            > background_threshold(),
    ensures
        t is Some,
        t.unwrap().offset.0 <= lx < t.unwrap().offset.0 + t.unwrap().size.0,
        t.unwrap().offset.1 <= ly < t.unwrap().offset.1 + t.unwrap().size.1,
{
    let p = img.pixel(ox + lx, oy + ly);
    assert(is_content(p, false, bg)) by {
        if k == 0 {
        } else if k == 1 {
        } else {
        }
    }
    assert(cell_content(img, ox, oy, cw, ch, bg, lx, ly));
}

/// In a cell whose alpha varies, every pixel more opaque than the transparency tolerance is
/// content: the cell gets a trim, and the trim covers that pixel.
pub proof fn law_opaque_pixel_is_trimmed(
    img: PixelGrid,
    ox: u32,
    oy: u32,
    cw: u32,
    ch: u32,
    bg: [u8; 3],
    t: Option<CellTrim>,
    lx: int,
    ly: int,
)
    requires
        trim_matches(img, ox, oy, cw, ch, bg, t),
        spec_alpha_varies(img, ox, oy, cw, ch),
        0 <= lx < cw,
        0 <= ly < ch,
        img.pixel(ox + lx, oy + ly)[3] > alpha_tolerance(),
    ensures
        t is Some,
        t.unwrap().offset.0 <= lx < t.unwrap().offset.0 + t.unwrap().size.0,
        t.unwrap().offset.1 <= ly < t.unwrap().offset.1 + t.unwrap().size.1,
{
    assert(cell_content(img, ox, oy, cw, ch, bg, lx, ly));
}

/// Shelf packing never places two rectangles on top of each other.
pub proof fn law_shelf_pack_no_overlap(dims: Seq<(u32, u32)>, order: Seq<usize>, max_row_width: u32, a: nat, b: nat)
    requires
        is_height_order(dims, order),
        pack_fits_u32(dims, order, max_row_width),
        a < b < order.len(),
    ensures
        !rects_overlap(packed_rect(dims, order, max_row_width, a), packed_rect(dims, order, max_row_width, b)),
{
    lemma_pack_layout(dims, order, max_row_width, b);
    lemma_pack_layout(dims, order, max_row_width, (b + 1) as nat);
    lemma_origin_in_range(dims, order, max_row_width, a);
    lemma_origin_in_range(dims, order, max_row_width, b);
    let (x, y, row) = pack_state(dims, order, max_row_width, b);
    let s = row_start(dims, order, max_row_width, b);
    let w = dims[order[b as int] as int].0;
    let (ax, ay) = pack_origin(dims, order, max_row_width, a);
    let (bx, by) = pack_origin(dims, order, max_row_width, b);
    if x > 0 && x + w > at_least_one(max_row_width) {
        // b starts a new row below every earlier rectangle
        assert(by == y + row);
        if a < s {
            assert(ay + dims[order[a as int] as int].1 <= y);
        } else {
            assert(ay + dims[order[a as int] as int].1 <= y + row);
        }
    } else {
        assert(bx == x && by == y);
        if a < s {
            assert(ay + dims[order[a as int] as int].1 <= y);
        } else {
            assert(ax + dims[order[a as int] as int].0 <= x);
        }
    }
}

proof fn lemma_origin_in_range(dims: Seq<(u32, u32)>, order: Seq<usize>, max_row_width: u32, i: nat)
    requires
        is_height_order(dims, order),
        pack_fits_u32(dims, order, max_row_width),
        i < order.len(),
    ensures
        0 <= pack_origin(dims, order, max_row_width, i).0 <= u32::MAX,
        0 <= pack_origin(dims, order, max_row_width, i).1 <= u32::MAX,
{
    lemma_pack_layout(dims, order, max_row_width, i);
    let (x, y, row) = pack_state(dims, order, max_row_width, i);
    assert(x + dims[order[i as int] as int].0 <= u32::MAX && y + row <= u32::MAX);
}

/// A rectangle either starts its row at the left edge or ends within the row width.
pub proof fn law_shelf_pack_row_width(dims: Seq<(u32, u32)>, order: Seq<usize>, max_row_width: u32, i: nat)
    requires
        is_height_order(dims, order),
        pack_fits_u32(dims, order, max_row_width),
        i < order.len(),
    ensures
        packed_rect(dims, order, max_row_width, i).x == 0 || packed_rect(dims, order, max_row_width, i).x
            + packed_rect(dims, order, max_row_width, i).width <= at_least_one(max_row_width),
{
    lemma_origin_in_range(dims, order, max_row_width, i);
}

/// The cell of a `cols` by `rows` uniform grid under the image pixel (`x`, `y`): the
/// inverse of the row-major cell layout; `None` outside the grid.
pub fn pick_uniform_grid_cell(x: u32, y: u32, cell_width: u32, cell_height: u32, cols: u32, rows: u32) -> (r:
    Option<u32>)
    requires
        (rows as int) * (cols as int) <= u32::MAX as int + 1,
    ensures
        ({
            let col = x as int / at_least_one(cell_width);
            let row = y as int / at_least_one(cell_height);
            r == if col < cols && row < rows {
                Some((row * cols + col) as u32)
            } else {
                None
            }
        }),
{
    let cw = if cell_width == 0 {
        1
    } else {
        cell_width
    };
    let ch = if cell_height == 0 {
        1
    } else {
        cell_height
    };
    let col = x / cw;
    let row = y / ch;
    if col >= cols || row >= rows {
        return None;
    }
    proof {
        assert(row * cols + col < rows * cols) by (nonlinear_arith)
            requires
                row < rows,
                col < cols,
        ;
    }
    Some(row * cols + col)
}

} // verus!
