//! Texture atlas grids.
//!
//! A [`GridArgs`] describes a regular grid of equally sized cells inside an
//! image; a [`TextureAtlasLayout`] lists the cell rectangles explicitly. The
//! layout is produced by bevy's grid constructor, and [`GridArgs::from_layout`]
//! recovers the grid description from a layout by scanning its rectangles.
use vstd::prelude::*;

verus! {

/// A pair of unsigned pixel coordinates or extents.
#[derive(Clone, Copy, Debug, PartialEq, Eq, Structural)]
pub struct UVec2 {
    pub x: u32,
    pub y: u32,
}

impl UVec2 {
    /// The origin.
    pub fn zero() -> (v: UVec2)
        ensures
            v.x == 0,
            v.y == 0,
    {
        UVec2 { x: 0, y: 0 }
    }

    pub fn new(x: u32, y: u32) -> (v: UVec2)
        ensures
            v.x == x,
            v.y == y,
    {
        UVec2 { x, y }
    }

    pub fn splat(v: u32) -> (r: UVec2)
        ensures
            r.x == v,
            r.y == v,
    {
        UVec2 { x: v, y: v }
    }
}

/// An axis-aligned rectangle of pixels, from `min` (inclusive) to `max`.
#[derive(Clone, Copy, Debug, PartialEq, Eq, Structural)]
pub struct URect {
    pub min: UVec2,
    pub max: UVec2,
}

impl URect {
    /// The rectangle spanned by two opposite corners.
    pub fn from_corners(p0: UVec2, p1: UVec2) -> (r: URect)
        ensures
            r.min.x == if p0.x <= p1.x { p0.x } else { p1.x },
            r.min.y == if p0.y <= p1.y { p0.y } else { p1.y },
            r.max.x == if p0.x <= p1.x { p1.x } else { p0.x },
            r.max.y == if p0.y <= p1.y { p1.y } else { p0.y },
    {
        let min = UVec2 {
            x: if p0.x <= p1.x { p0.x } else { p1.x },
            y: if p0.y <= p1.y { p0.y } else { p1.y },
        };
        let max = UVec2 {
            x: if p0.x <= p1.x { p1.x } else { p0.x },
            y: if p0.y <= p1.y { p1.y } else { p0.y },
        };
        URect { min, max }
    }
}

/// The cell rectangles of a texture atlas and the size of the whole atlas.
pub struct TextureAtlasLayout {
    pub size: UVec2,
    pub textures: Vec<URect>,
}

impl TextureAtlasLayout {
    /// Appends a cell rectangle and returns its index.
    pub fn add_texture(&mut self, rect: URect) -> (index: usize)
        requires
            old(self).textures@.len() < usize::MAX,
        ensures
            final(self).textures@ == old(self).textures@.push(rect),
            final(self).size == old(self).size,
            index == old(self).textures@.len(),
    {
        self.textures.push(rect);
        self.textures.len() - 1
    }
}

/// The parameters of a regular texture atlas grid.
#[derive(Clone, Copy, Debug, PartialEq, Eq, Structural)]
pub struct GridArgs {
    pub cell_size: UVec2,
    pub rows: u32,
    pub columns: u32,
    pub padding: UVec2,
    pub offset: UVec2,
}

/// The grid of a single one-pixel cell, used whenever a layout is not a grid.
pub open spec fn default_grid_args() -> GridArgs {
    GridArgs {
        cell_size: UVec2 { x: 1, y: 1 },
        rows: 1,
        columns: 1,
        padding: UVec2 { x: 0, y: 0 },
        offset: UVec2 { x: 0, y: 0 },
    }
}

impl Default for GridArgs {
    fn default() -> (g: GridArgs)
        ensures
            g == default_grid_args(),
    {
        GridArgs {
            cell_size: UVec2 { x: 1, y: 1 },
            rows: 1,
            columns: 1,
            padding: UVec2 { x: 0, y: 0 },
            offset: UVec2 { x: 0, y: 0 },
        }
    }
}

/// The padding that bevy's grid constructor accumulates along x: it only
/// takes effect once a second column exists.
pub open spec fn applied_pad_x(columns: u32, rows: u32, pad: UVec2) -> int {
    if rows >= 1 && columns >= 2 { pad.x as int } else { 0 }
}

/// The padding that bevy's grid constructor accumulates along y: it only
/// takes effect once a second row exists.
pub open spec fn applied_pad_y(rows: u32, pad: UVec2) -> int {
    if rows >= 2 { pad.y as int } else { 0 }
}

/// The inputs on which bevy's grid constructor computes every coordinate
/// without leaving the range of `u32`.
pub open spec fn grid_fits(tile: UVec2, columns: u32, rows: u32, pad: UVec2, off: UVec2) -> bool {
    let px = applied_pad_x(columns, rows, pad);
    let py = applied_pad_y(rows, pad);
    &&& (tile.x + px) * columns <= u32::MAX
    &&& (tile.y + py) * rows <= u32::MAX
    &&& (columns >= 1 && rows >= 1) ==> {
        &&& (tile.x + px) * (columns - 1) + off.x + tile.x <= u32::MAX
        &&& (tile.y + py) * (rows - 1) + off.y + tile.y <= u32::MAX
    }
}

/// The rectangle of the cell in column `x` and row `y` of a grid.
pub open spec fn grid_cell_rect(tile: UVec2, pad: UVec2, off: UVec2, x: int, y: int) -> URect {
    let min_x = (tile.x + pad.x) * x + off.x;
    let min_y = (tile.y + pad.y) * y + off.y;
    URect {
        min: UVec2 { x: min_x as u32, y: min_y as u32 },
        max: UVec2 { x: (min_x + tile.x) as u32, y: (min_y + tile.y) as u32 },
    }
}

/// The cells of a grid, left to right and top to bottom.
pub open spec fn grid_cells(tile: UVec2, columns: u32, rows: u32, pad: UVec2, off: UVec2) -> Seq<
    URect,
> {
    Seq::new(
        (columns * rows) as nat,
        |k: int| grid_cell_rect(tile, pad, off, k % (columns as int), k / (columns as int)),
    )
}

/// The total size that bevy's grid constructor reports for a grid.
pub open spec fn grid_size(tile: UVec2, columns: u32, rows: u32, pad: UVec2) -> UVec2 {
    let px = applied_pad_x(columns, rows, pad);
    let py = applied_pad_y(rows, pad);
    UVec2 {
        x: ((tile.x + px) * columns - px) as u32,
        y: ((tile.y + py) * rows - py) as u32,
    }
}

pub open spec fn unwrap_or_zero(v: Option<UVec2>) -> UVec2 {
    match v {
        Some(p) => p,
        None => UVec2 { x: 0, y: 0 },
    }
}

/// Calls `bevy::image::TextureAtlasLayout::from_grid` and copies the result
/// into the library's layout type.
///
/// Claimed of the outside function, as its source shows: the layout holds
/// `columns * rows` cells, row by row, the cell in column `x` and row `y`
/// starting at `(tile + padding) * (x, y) + offset` and spanning `tile`;
/// a missing padding or offset counts as zero; the reported size is
/// `(tile + p) * (columns, rows) - p`, where `p` is the padding along the
/// axes on which a second cell exists. The `requires` leaves out the inputs
/// on which its `u32` arithmetic overflows.
#[verifier::external_body]
fn bevy_grid_layout(
    tile: UVec2,
    columns: u32,
    rows: u32,
    padding: Option<UVec2>,
    offset: Option<UVec2>,
) -> (layout: TextureAtlasLayout)
    requires
        grid_fits(tile, columns, rows, unwrap_or_zero(padding), unwrap_or_zero(offset)),
    ensures
        layout.textures@ == grid_cells(
            tile,
            columns,
            rows,
            unwrap_or_zero(padding),
            unwrap_or_zero(offset),
        ),
        layout.size == grid_size(tile, columns, rows, unwrap_or_zero(padding)),
{
    let b = |v: UVec2| bevy::math::UVec2::new(v.x, v.y);
    let l = bevy::image::TextureAtlasLayout::from_grid(b(tile), columns, rows, padding.map(b), offset.map(b));
    let mut textures = Vec::new();
    for r in l.textures.iter() {
        textures.push(URect { min: UVec2 { x: r.min.x, y: r.min.y }, max: UVec2 { x: r.max.x, y: r.max.y } });
    }
    TextureAtlasLayout { size: UVec2 { x: l.size.x, y: l.size.y }, textures }
}

/// What a scan over a layout's rectangles has learned so far.
pub ghost struct GridScan {
    pub rows: int,
    pub columns: int,
    pub x_pad: Option<int>,
    pub y_pad: Option<int>,
    /// The right edge of the right-most cell seen.
    pub x_max: int,
    /// The bottom edge of the lowest cell seen.
    pub col_max: int,
}

/// The scan state after the first rectangle.
pub open spec fn scan_start(first: URect) -> GridScan {
    GridScan {
        rows: 1,
        columns: 1,
        x_pad: None,
        y_pad: None,
        x_max: first.max.x as int,
        col_max: first.max.y as int,
    }
}

/// Whether a rectangle has exactly the given cell size.
pub open spec fn has_cell_size(r: URect, cell: UVec2) -> bool {
    r.max.x - r.min.x == cell.x && r.max.y - r.min.y == cell.y
}

/// The effect of the next rectangle along y: a rectangle reaching below
/// every earlier one opens a new row, and the gap above it must be the same
/// padding as between all earlier rows.
pub open spec fn scan_rows(s: GridScan, r: URect) -> Option<GridScan> {
    if r.max.y > s.col_max {
        let pad = r.min.y - s.col_max;
        if pad < 0 || s.rows + 1 > u32::MAX || (s.y_pad is Some && s.y_pad->0 != pad) {
            None
        } else {
            Some(GridScan { rows: s.rows + 1, y_pad: Some(pad), col_max: r.max.y as int, ..s })
        }
    } else {
        Some(s)
    }
}

/// The effect of the next rectangle along x: a rectangle reaching right of
/// every earlier one opens a new column, and the gap before it must be the
/// same padding as between all earlier columns.
pub open spec fn scan_columns(s: GridScan, r: URect) -> Option<GridScan> {
    if r.max.x > s.x_max {
        let pad = r.min.x - s.x_max;
        if pad < 0 || s.columns + 1 > u32::MAX || (s.x_pad is Some && s.x_pad->0 != pad) {
            None
        } else {
            Some(GridScan { columns: s.columns + 1, x_pad: Some(pad), x_max: r.max.x as int, ..s })
        }
    } else {
        Some(s)
    }
}

/// One step of the scan; `None` once the rectangles cannot form a grid.
pub open spec fn scan_step(s: GridScan, r: URect, cell: UVec2) -> Option<GridScan> {
    if !has_cell_size(r, cell) {
        None
    } else {
        match scan_rows(s, r) {
            Some(s1) => scan_columns(s1, r),
            None => None,
        }
    }
}

/// The scan over the first `n` rectangles of `ts`.
pub open spec fn scan(ts: Seq<URect>, cell: UVec2, n: nat) -> Option<GridScan>
    decreases n,
{
    if n == 0 {
        Some(scan_start(ts[0]))
    } else {
        match scan(ts, cell, (n - 1) as nat) {
            Some(s) => scan_step(s, ts[n - 1], cell),
            None => None,
        }
    }
}

/// The grid that a layout's rectangles describe, or the default grid when
/// they describe none.
pub open spec fn grid_args_of(ts: Seq<URect>) -> GridArgs {
    if ts.len() == 0 {
        default_grid_args()
    } else {
        let first = ts[0];
        if first.max.x < first.min.x || first.max.y < first.min.y {
            default_grid_args()
        } else {
            let cell = UVec2 {
                x: (first.max.x - first.min.x) as u32,
                y: (first.max.y - first.min.y) as u32,
            };
            match scan(ts, cell, ts.len()) {
                None => default_grid_args(),
                Some(s) => GridArgs {
                    cell_size: cell,
                    rows: s.rows as u32,
                    columns: s.columns as u32,
                    padding: UVec2 {
                        x: match s.x_pad {
                            Some(p) => p as u32,
                            None => 0,
                        },
                        y: match s.y_pad {
                            Some(p) => p as u32,
                            None => 0,
                        },
                    },
                    offset: first.min,
                },
            }
        }
    }
}

/// Once the rectangles read so far cannot form a grid, no later rectangle
/// changes that.
pub proof fn lemma_scan_fails_forever(ts: Seq<URect>, cell: UVec2, m: nat, n: nat)
    requires
        m <= n,
        scan(ts, cell, m) is None,
    ensures
        scan(ts, cell, n) is None,
    decreases n - m,
{
    if m < n {
        lemma_scan_fails_forever(ts, cell, m, (n - 1) as nat);
    }
}

/// A layout with a rectangle whose size differs from the first one's is no
/// grid: it reads as the default grid.
pub proof fn lemma_odd_cell_reads_as_default(ts: Seq<URect>, k: int)
    requires
        0 < k < ts.len(),
        ts[k].max.x - ts[k].min.x != ts[0].max.x - ts[0].min.x
            || ts[k].max.y - ts[k].min.y != ts[0].max.y - ts[0].min.y,
    ensures
        grid_args_of(ts) == default_grid_args(),
{
    let first = ts[0];
    if !(first.max.x < first.min.x || first.max.y < first.min.y) {
        let cell = UVec2 {
            x: (first.max.x - first.min.x) as u32,
            y: (first.max.y - first.min.y) as u32,
        };
        assert(!has_cell_size(ts[k], cell));
        assert(scan(ts, cell, (k + 1) as nat) is None);
        lemma_scan_fails_forever(ts, cell, (k + 1) as nat, ts.len());
    }
}

pub open spec fn opt_view(o: Option<u32>) -> Option<int> {
    match o {
        Some(v) => Some(v as int),
        None => None,
    }
}

impl GridArgs {
    /// Recovers the grid that a layout's rectangles were cut from.
    ///
    /// The rectangles are read in order: all must have the size of the first,
    /// a rectangle reaching below all earlier ones starts a new row, one
    /// reaching right of all earlier ones starts a new column, and the gaps
    /// so found must agree. Where they do not, or the layout is empty, the
    /// result is the default grid. A grid with cells missing at its end reads
    /// as the whole grid.
    pub fn from_layout(layout: &TextureAtlasLayout) -> (g: GridArgs)
        ensures
            g == grid_args_of(layout.textures@),
    {
        let ts = &layout.textures;
        if ts.len() == 0 {
            return GridArgs::default();
        }
        let first = ts[0];
        if first.max.x < first.min.x || first.max.y < first.min.y {
            return GridArgs::default();
        }
        let cell_size = UVec2 { x: first.max.x - first.min.x, y: first.max.y - first.min.y };
        let offset = first.min;
        let mut rows: u32 = 1;
        let mut columns: u32 = 1;
        let mut x_pad: Option<u32> = None;
        let mut y_pad: Option<u32> = None;
        let mut x_max: u32 = first.max.x;
        let mut col_max: u32 = first.max.y;
        let n = ts.len();
        let mut i: usize = 0;
        while i < n
            invariant
                ts@ == layout.textures@,
                n == ts@.len(),
                0 < n,
                i <= n,
                first == ts@[0],
                cell_size.x == first.max.x - first.min.x,
                cell_size.y == first.max.y - first.min.y,
                scan(ts@, cell_size, i as nat) == Some(
                    GridScan {
                        rows: rows as int,
                        columns: columns as int,
                        x_pad: opt_view(x_pad),
                        y_pad: opt_view(y_pad),
                        x_max: x_max as int,
                        col_max: col_max as int,
                    },
                ),
            decreases n - i,
        {
            let rect = ts[i];
            if rect.max.x < rect.min.x || rect.max.y < rect.min.y || rect.max.x - rect.min.x
                != cell_size.x || rect.max.y - rect.min.y != cell_size.y {
                proof {
                    lemma_scan_fails_forever(ts@, cell_size, (i + 1) as nat, n as nat);
                }
                return GridArgs::default();
            }
            if rect.max.y > col_max {
                // A new row: the gap above it is the vertical padding.
                if rect.min.y < col_max || rows == u32::MAX {
                    proof {
                        lemma_scan_fails_forever(ts@, cell_size, (i + 1) as nat, n as nat);
                    }
                    return GridArgs::default();
                }
                let pady = rect.min.y - col_max;
                if let Some(p) = y_pad {
                    if p != pady {
                        proof {
                            lemma_scan_fails_forever(ts@, cell_size, (i + 1) as nat, n as nat);
                        }
                        return GridArgs::default();
                    }
                }
                rows = rows + 1;
                y_pad = Some(pady);
                col_max = rect.max.y;
            }
            if rect.max.x > x_max {
                // A new column: the gap before it is the horizontal padding.
                if rect.min.x < x_max || columns == u32::MAX {
                    proof {
                        lemma_scan_fails_forever(ts@, cell_size, (i + 1) as nat, n as nat);
                    }
                    return GridArgs::default();
                }
                let padx = rect.min.x - x_max;
                if let Some(p) = x_pad {
                    if p != padx {
                        proof {
                            lemma_scan_fails_forever(ts@, cell_size, (i + 1) as nat, n as nat);
                        }
                        return GridArgs::default();
                    }
                }
                columns = columns + 1;
                x_pad = Some(padx);
                x_max = rect.max.x;
            }
            i = i + 1;
        }
        let padding = UVec2 {
            x: match x_pad {
                Some(p) => p,
                None => 0,
            },
            y: match y_pad {
                Some(p) => p,
                None => 0,
            },
        };
        GridArgs { cell_size, rows, columns, padding, offset }
    }
}

impl GridArgs {
    /// Whether bevy's grid constructor lays this grid out without leaving
    /// the range of `u32`: the condition of `into_layout`.
    pub fn fits(&self) -> (b: bool)
        ensures
            b == grid_fits(self.cell_size, self.columns, self.rows, self.padding, self.offset),
    {
        let px: u128 = if self.rows >= 1 && self.columns >= 2 { self.padding.x as u128 } else { 0 };
        let py: u128 = if self.rows >= 2 { self.padding.y as u128 } else { 0 };
        let sx: u128 = self.cell_size.x as u128 + px;
        let sy: u128 = self.cell_size.y as u128 + py;
        let c: u128 = self.columns as u128;
        let r: u128 = self.rows as u128;
        let m: u128 = 0xffff_ffff;
        assert(sx * c <= 0x2_0000_0000 * 0x1_0000_0000) by (nonlinear_arith)
            requires
                sx <= 0x2_0000_0000,
                c <= 0x1_0000_0000,
        ;
        assert(sy * r <= 0x2_0000_0000 * 0x1_0000_0000) by (nonlinear_arith)
            requires
                sy <= 0x2_0000_0000,
                r <= 0x1_0000_0000,
        ;
        let whole = sx * c <= m && sy * r <= m;
        if c >= 1 && r >= 1 {
            assert(sx * (c - 1) <= 0x2_0000_0000 * 0x1_0000_0000) by (nonlinear_arith)
                requires
                    sx <= 0x2_0000_0000,
                    c - 1 <= 0x1_0000_0000,
            ;
            assert(sy * (r - 1) <= 0x2_0000_0000 * 0x1_0000_0000) by (nonlinear_arith)
                requires
                    sy <= 0x2_0000_0000,
                    r - 1 <= 0x1_0000_0000,
            ;
            let last_x = sx * (c - 1) + self.offset.x as u128 + self.cell_size.x as u128;
            let last_y = sy * (r - 1) + self.offset.y as u128 + self.cell_size.y as u128;
            whole && last_x <= m && last_y <= m
        } else {
            whole
        }
    }

    /// Lays the grid out as bevy's grid constructor does. A zero padding or
    /// offset is handed on as absent, which the constructor reads as zero.
    pub fn into_layout(self) -> (layout: TextureAtlasLayout)
        requires
            grid_fits(self.cell_size, self.columns, self.rows, self.padding, self.offset),
        ensures
            layout.textures@ == grid_cells(
                self.cell_size,
                self.columns,
                self.rows,
                self.padding,
                self.offset,
            ),
            layout.size == grid_size(self.cell_size, self.columns, self.rows, self.padding),
    {
        let padding = if self.padding == UVec2::zero() {
            None
        } else {
            Some(self.padding)
        };
        let offset = if self.offset == UVec2::zero() {
            None
        } else {
            Some(self.offset)
        };
        bevy_grid_layout(self.cell_size, self.columns, self.rows, padding, offset)
    }
}

/// The grids that survive being laid out and read back: non-empty cells,
/// at least one row and column, a padding only along axes with a second
/// cell, and coordinates that fit in `u32`.
pub open spec fn round_trip_domain(g: GridArgs) -> bool {
    &&& g.cell_size.x >= 1
    &&& g.cell_size.y >= 1
    &&& g.rows >= 1
    &&& g.columns >= 1
    &&& (g.columns >= 2 || g.padding.x == 0)
    &&& (g.rows >= 2 || g.padding.y == 0)
    &&& grid_fits(g.cell_size, g.columns, g.rows, g.padding, g.offset)
}

/// The scan state expected after reading the cell in column `x` of row `y`.
pub open spec fn expected_scan(g: GridArgs, x: int, y: int) -> GridScan {
    let columns = if y == 0 { x + 1 } else { g.columns as int };
    let rows = y + 1;
    GridScan {
        rows,
        columns,
        x_pad: if columns >= 2 { Some(g.padding.x as int) } else { None },
        y_pad: if rows >= 2 { Some(g.padding.y as int) } else { None },
        x_max: (g.cell_size.x + g.padding.x) * (columns - 1) + g.offset.x + g.cell_size.x,
        col_max: (g.cell_size.y + g.padding.y) * y + g.offset.y + g.cell_size.y,
    }
}

/// Every cell of a grid in the round-trip domain is computed without
/// truncation and has the grid's cell size.
proof fn lemma_cell_exact(g: GridArgs, x: int, y: int)
    requires
        round_trip_domain(g),
        0 <= x < g.columns,
        0 <= y < g.rows,
    ensures
        ({
            let r = grid_cell_rect(g.cell_size, g.padding, g.offset, x, y);
            &&& r.min.x == (g.cell_size.x + g.padding.x) * x + g.offset.x
            &&& r.min.y == (g.cell_size.y + g.padding.y) * y + g.offset.y
            &&& r.max.x == (g.cell_size.x + g.padding.x) * x + g.offset.x + g.cell_size.x
            &&& r.max.y == (g.cell_size.y + g.padding.y) * y + g.offset.y + g.cell_size.y
            &&& has_cell_size(r, g.cell_size)
        }),
{
    let ax = g.cell_size.x + g.padding.x;
    let ay = g.cell_size.y + g.padding.y;
    let cx = g.columns - 1;
    let cy = g.rows - 1;
    assert(0 <= ax * x <= ax * cx) by (nonlinear_arith)
        requires
            0 <= x <= cx,
            ax >= 0,
    ;
    assert(0 <= ay * y <= ay * cy) by (nonlinear_arith)
        requires
            0 <= y <= cy,
            ay >= 0,
    ;
    if g.columns == 1 {
        assert(ax * x == 0) by (nonlinear_arith)
            requires
                x == 0,
        ;
    }
    if g.rows == 1 {
        assert(ay * y == 0) by (nonlinear_arith)
            requires
                y == 0,
        ;
    }
}

/// The cell at index `y * columns + x` of a grid's layout is the one in
/// column `x` of row `y`.
proof fn lemma_cell_index(g: GridArgs, x: int, y: int)
    requires
        round_trip_domain(g),
        0 <= x < g.columns,
        0 <= y < g.rows,
    ensures
        0 <= y * g.columns + x < grid_cells(g.cell_size, g.columns, g.rows, g.padding, g.offset).len(),
        grid_cells(g.cell_size, g.columns, g.rows, g.padding, g.offset)[y * g.columns + x]
            == grid_cell_rect(g.cell_size, g.padding, g.offset, x, y),
{
    let c = g.columns as int;
    let r = g.rows as int;
    let k = y * c + x;
    assert(0 <= k < c * r) by (nonlinear_arith)
        requires
            0 <= x < c,
            0 <= y < r,
            k == y * c + x,
    ;
    assert(c * r == (g.columns * g.rows) as int) by (nonlinear_arith)
        requires
            c == g.columns,
            r == g.rows,
    ;
    vstd::arithmetic::div_mod::lemma_fundamental_div_mod_converse(k, c, y, x);
}

/// Reading a grid's layout up to and including the cell in column `x` of row
/// `y` leaves the expected scan state.
proof fn lemma_scan_grid(g: GridArgs, x: int, y: int)
    requires
        round_trip_domain(g),
        0 <= x < g.columns,
        0 <= y < g.rows,
    ensures
        scan(
            grid_cells(g.cell_size, g.columns, g.rows, g.padding, g.offset),
            g.cell_size,
            (y * g.columns + x + 1) as nat,
        ) == Some(expected_scan(g, x, y)),
    decreases y, x,
{
    let ts = grid_cells(g.cell_size, g.columns, g.rows, g.padding, g.offset);
    let c = g.columns as int;
    let ax = g.cell_size.x + g.padding.x;
    let ay = g.cell_size.y + g.padding.y;
    let k = y * c + x;
    lemma_cell_index(g, x, y);
    lemma_cell_exact(g, x, y);
    let rect = ts[k];
    assert(0 <= k) by (nonlinear_arith)
        requires
            0 <= x,
            0 <= y,
            c >= 1,
            k == y * c + x,
    ;
    if x == 0 && y == 0 {
        lemma_cell_index(g, 0, 0);
        assert(k == 0) by (nonlinear_arith)
            requires
                k == y * c + x,
                x == 0,
                y == 0,
        ;
        assert(ax * 0 == 0 && ay * 0 == 0) by (nonlinear_arith);
        assert(scan(ts, g.cell_size, 0) == Some(scan_start(rect)));
        assert(scan(ts, g.cell_size, 1) == scan_step(scan_start(rect), rect, g.cell_size));
        assert(scan_step(scan_start(rect), rect, g.cell_size) == Some(expected_scan(g, 0, 0)));
    } else if x > 0 {
        lemma_scan_grid(g, x - 1, y);
        let prev = expected_scan(g, x - 1, y);
        assert((y * c + (x - 1) + 1) == k);
        assert(scan(ts, g.cell_size, (k + 1) as nat) == scan_step(prev, rect, g.cell_size));
        assert(rect.max.y == prev.col_max);
        let s1 = prev;
        assert(scan_rows(prev, rect) == Some(s1));
        if y == 0 {
            assert(ax * x == ax * (x - 1) + ax) by (nonlinear_arith);
            assert(rect.max.x > prev.x_max);
            assert(rect.min.x - prev.x_max == g.padding.x);
            assert(scan_columns(s1, rect) == Some(expected_scan(g, x, y)));
        } else {
            assert(ax * x <= ax * (c - 1)) by (nonlinear_arith)
                requires
                    x <= c - 1,
                    ax >= 0,
            ;
            assert(scan_columns(s1, rect) == Some(s1));
            assert(s1 == expected_scan(g, x, y));
        }
    } else {
        lemma_scan_grid(g, c - 1, y - 1);
        let prev = expected_scan(g, c - 1, y - 1);
        assert(((y - 1) * c + (c - 1) + 1) == k) by (nonlinear_arith)
            requires
                k == y * c + x,
                x == 0,
        ;
        assert(scan(ts, g.cell_size, (k + 1) as nat) == scan_step(prev, rect, g.cell_size));
        assert(ay * y == ay * (y - 1) + ay) by (nonlinear_arith);
        assert(ax * 0 == 0) by (nonlinear_arith);
        assert(prev.columns == c);
        assert(rect.max.y > prev.col_max);
        assert(rect.min.y - prev.col_max == g.padding.y);
        let s1 = GridScan {
            rows: prev.rows + 1,
            y_pad: Some(g.padding.y as int),
            col_max: rect.max.y as int,
            ..prev
        };
        assert(scan_rows(prev, rect) == Some(s1));
        assert(ax * (c - 1) >= 0) by (nonlinear_arith)
            requires
                c >= 1,
                ax >= 0,
        ;
        assert(scan_columns(s1, rect) == Some(s1));
        assert(s1 == expected_scan(g, x, y));
    }
}

/// Laying a grid out and reading the layout back gives the same grid, for
/// every grid in the round-trip domain.
pub proof fn lemma_grid_round_trip(g: GridArgs)
    requires
        round_trip_domain(g),
    ensures
        grid_args_of(grid_cells(g.cell_size, g.columns, g.rows, g.padding, g.offset)) == g,
{
    let ts = grid_cells(g.cell_size, g.columns, g.rows, g.padding, g.offset);
    let c = g.columns as int;
    let r = g.rows as int;
    lemma_scan_grid(g, c - 1, r - 1);
    lemma_cell_index(g, 0, 0);
    lemma_cell_exact(g, 0, 0);
    assert(((r - 1) * c + (c - 1) + 1) == c * r) by (nonlinear_arith);
    assert(c * r == (g.columns * g.rows) as int) by (nonlinear_arith)
        requires
            c == g.columns,
            r == g.rows,
    ;
    assert(ts.len() == c * r);
    assert(0 * c + 0 == 0);
    let ax = g.cell_size.x + g.padding.x;
    let ay = g.cell_size.y + g.padding.y;
    assert(ax * 0 == 0 && ay * 0 == 0) by (nonlinear_arith);
    let first = ts[0];
    let cell = UVec2 {
        x: (first.max.x - first.min.x) as u32,
        y: (first.max.y - first.min.y) as u32,
    };
    assert(cell == g.cell_size);
}

impl From<TextureAtlasLayout> for GridArgs {
    fn from(layout: TextureAtlasLayout) -> (g: GridArgs) {
        GridArgs::from_layout(&layout)
    }
}

impl vstd::std_specs::convert::FromSpecImpl<TextureAtlasLayout> for GridArgs {
    open spec fn obeys_from_spec() -> bool {
        true
    }

    open spec fn from_spec(layout: TextureAtlasLayout) -> GridArgs {
        grid_args_of(layout.textures@)
    }
}

/// The eight numbers of a grid that the atlas form lets the user edit.
#[derive(Clone, Copy, Debug, PartialEq, Eq, Structural)]
pub enum GridArgFieldKey {
    CellSizeX,
    CellSizeY,
    NumColumns,
    NumRows,
    OffsetX,
    OffsetY,
    PaddingX,
    PaddingY,
}

pub open spec fn field_of(g: GridArgs, key: GridArgFieldKey) -> u32 {
    match key {
        GridArgFieldKey::CellSizeX => g.cell_size.x,
        GridArgFieldKey::CellSizeY => g.cell_size.y,
        GridArgFieldKey::NumColumns => g.columns,
        GridArgFieldKey::NumRows => g.rows,
        GridArgFieldKey::OffsetX => g.offset.x,
        GridArgFieldKey::OffsetY => g.offset.y,
        GridArgFieldKey::PaddingX => g.padding.x,
        GridArgFieldKey::PaddingY => g.padding.y,
    }
}

pub open spec fn with_field_of(g: GridArgs, key: GridArgFieldKey, v: u32) -> GridArgs {
    match key {
        GridArgFieldKey::CellSizeX => GridArgs { cell_size: UVec2 { x: v, ..g.cell_size }, ..g },
        GridArgFieldKey::CellSizeY => GridArgs { cell_size: UVec2 { y: v, ..g.cell_size }, ..g },
        GridArgFieldKey::NumColumns => GridArgs { columns: v, ..g },
        GridArgFieldKey::NumRows => GridArgs { rows: v, ..g },
        GridArgFieldKey::OffsetX => GridArgs { offset: UVec2 { x: v, ..g.offset }, ..g },
        GridArgFieldKey::OffsetY => GridArgs { offset: UVec2 { y: v, ..g.offset }, ..g },
        GridArgFieldKey::PaddingX => GridArgs { padding: UVec2 { x: v, ..g.padding }, ..g },
        GridArgFieldKey::PaddingY => GridArgs { padding: UVec2 { y: v, ..g.padding }, ..g },
    }
}

impl GridArgs {
    /// The number that the form field `key` shows.
    pub fn field(&self, key: GridArgFieldKey) -> (v: u32)
        ensures
            v == field_of(*self, key),
    {
        match key {
            GridArgFieldKey::CellSizeX => self.cell_size.x,
            GridArgFieldKey::CellSizeY => self.cell_size.y,
            GridArgFieldKey::NumColumns => self.columns,
            GridArgFieldKey::NumRows => self.rows,
            GridArgFieldKey::OffsetX => self.offset.x,
            GridArgFieldKey::OffsetY => self.offset.y,
            GridArgFieldKey::PaddingX => self.padding.x,
            GridArgFieldKey::PaddingY => self.padding.y,
        }
    }

    /// The grid with the number behind form field `key` replaced by `v`.
    pub fn with_field(self, key: GridArgFieldKey, v: u32) -> (g: GridArgs)
        ensures
            g == with_field_of(self, key, v),
    {
        let mut g = self;
        match key {
            GridArgFieldKey::CellSizeX => g.cell_size.x = v,
            GridArgFieldKey::CellSizeY => g.cell_size.y = v,
            GridArgFieldKey::NumColumns => g.columns = v,
            GridArgFieldKey::NumRows => g.rows = v,
            GridArgFieldKey::OffsetX => g.offset.x = v,
            GridArgFieldKey::OffsetY => g.offset.y = v,
            GridArgFieldKey::PaddingX => g.padding.x = v,
            GridArgFieldKey::PaddingY => g.padding.y = v,
        }
        g
    }
}

/// A form field reads back what was written to it, and writing one field
/// leaves every other field as it was.
pub proof fn lemma_field_read_after_write(g: GridArgs, key: GridArgFieldKey, other: GridArgFieldKey, v: u32)
    ensures
        field_of(with_field_of(g, key, v), key) == v,
        other != key ==> field_of(with_field_of(g, key, v), other) == field_of(g, other),
        with_field_of(g, key, field_of(g, key)) == g,
{
}


/// Rows must be evenly spaced: three cells of one size, stacked in one
/// column one below the other, whose two vertical gaps differ, are no grid,
/// and a layout that starts with them reads as the default grid.
pub proof fn lemma_uneven_row_gaps_read_as_default(ts: Seq<URect>)
    requires
        ts.len() >= 3,
        ts[0].min.x <= ts[0].max.x,
        ts[0].min.y < ts[0].max.y,
        forall|i: int|
            0 <= i < 3 ==> {
                &&& #[trigger] ts[i].min.x == ts[0].min.x
                &&& ts[i].max.x == ts[0].max.x
                &&& ts[i].max.y - ts[i].min.y == ts[0].max.y - ts[0].min.y
            },
        ts[0].max.y <= ts[1].min.y,
        ts[1].max.y <= ts[2].min.y,
        ts[1].min.y - ts[0].max.y != ts[2].min.y - ts[1].max.y,
    ensures
        grid_args_of(ts) == default_grid_args(),
{
    let first = ts[0];
    let cell = UVec2 {
        x: (first.max.x - first.min.x) as u32,
        y: (first.max.y - first.min.y) as u32,
    };
    assert(ts[1].min.x == ts[0].min.x && ts[1].max.x == ts[0].max.x);
    assert(ts[2].min.x == ts[0].min.x && ts[2].max.x == ts[0].max.x);
    assert(ts[1].max.y - ts[1].min.y == ts[0].max.y - ts[0].min.y);
    assert(ts[2].max.y - ts[2].min.y == ts[0].max.y - ts[0].min.y);
    let s0 = scan_start(first);
    assert(scan(ts, cell, 0) == Some(s0));
    assert(scan(ts, cell, 1) == Some(s0));
    let s1 = GridScan {
        rows: 2,
        y_pad: Some(ts[1].min.y - ts[0].max.y),
        col_max: ts[1].max.y as int,
        ..s0
    };
    assert(scan_rows(s0, ts[1]) == Some(s1));
    assert(scan_columns(s1, ts[1]) == Some(s1));
    assert(scan(ts, cell, 2) == Some(s1));
    assert(scan_rows(s1, ts[2]) is None);
    assert(scan(ts, cell, 3) is None);
    lemma_scan_fails_forever(ts, cell, 3, ts.len());
}

/// Each key of the atlas form reads its own number of the grid.
pub proof fn lemma_form_keys_read_their_own_field(g: GridArgs)
    ensures
        field_of(g, GridArgFieldKey::CellSizeX) == g.cell_size.x,
        field_of(g, GridArgFieldKey::CellSizeY) == g.cell_size.y,
        field_of(g, GridArgFieldKey::NumColumns) == g.columns,
        field_of(g, GridArgFieldKey::NumRows) == g.rows,
        field_of(g, GridArgFieldKey::OffsetX) == g.offset.x,
        field_of(g, GridArgFieldKey::OffsetY) == g.offset.y,
        field_of(g, GridArgFieldKey::PaddingX) == g.padding.x,
        field_of(g, GridArgFieldKey::PaddingY) == g.padding.y,
{
}

/// Each key of the atlas form writes its own number of the grid and no
/// other.
pub proof fn lemma_form_keys_write_their_own_field(g: GridArgs, v: u32)
    ensures
        with_field_of(g, GridArgFieldKey::CellSizeX, v).cell_size.x == v,
        with_field_of(g, GridArgFieldKey::CellSizeY, v).cell_size.y == v,
        with_field_of(g, GridArgFieldKey::NumColumns, v).columns == v,
        with_field_of(g, GridArgFieldKey::NumRows, v).rows == v,
        with_field_of(g, GridArgFieldKey::OffsetX, v).offset.x == v,
        with_field_of(g, GridArgFieldKey::OffsetY, v).offset.y == v,
        with_field_of(g, GridArgFieldKey::PaddingX, v).padding.x == v,
        with_field_of(g, GridArgFieldKey::PaddingY, v).padding.y == v,
        with_field_of(g, GridArgFieldKey::OffsetX, v).padding == g.padding,
        with_field_of(g, GridArgFieldKey::OffsetY, v).padding == g.padding,
        with_field_of(g, GridArgFieldKey::PaddingX, v).offset == g.offset,
        with_field_of(g, GridArgFieldKey::PaddingY, v).offset == g.offset,
        with_field_of(g, GridArgFieldKey::CellSizeX, v).cell_size.y == g.cell_size.y,
        with_field_of(g, GridArgFieldKey::CellSizeY, v).cell_size.x == g.cell_size.x,
        with_field_of(g, GridArgFieldKey::OffsetX, v).offset.y == g.offset.y,
        with_field_of(g, GridArgFieldKey::OffsetY, v).offset.x == g.offset.x,
        with_field_of(g, GridArgFieldKey::PaddingX, v).padding.y == g.padding.y,
        with_field_of(g, GridArgFieldKey::PaddingY, v).padding.x == g.padding.x,
        forall|k: GridArgFieldKey|
            (k == GridArgFieldKey::OffsetX || k == GridArgFieldKey::OffsetY || k == GridArgFieldKey::PaddingX
                || k == GridArgFieldKey::PaddingY) ==> {
                &&& #[trigger] with_field_of(g, k, v).cell_size == g.cell_size
                &&& with_field_of(g, k, v).rows == g.rows
                &&& with_field_of(g, k, v).columns == g.columns
            },
        forall|k: GridArgFieldKey|
            (k == GridArgFieldKey::CellSizeX || k == GridArgFieldKey::CellSizeY || k == GridArgFieldKey::NumColumns
                || k == GridArgFieldKey::NumRows) ==> {
                &&& #[trigger] with_field_of(g, k, v).offset == g.offset
                &&& with_field_of(g, k, v).padding == g.padding
            },
{
}

} // verus!
