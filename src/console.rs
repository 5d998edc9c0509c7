//! The console grid: a fixed `width × height` buffer of cells and the
//! operations that paint into it.
use vstd::arithmetic::div_mod::{lemma_fundamental_div_mod, lemma_mod_bound};
use vstd::prelude::*;

use crate::color::{Color, ColorRegistry, DEFAULT_FORE};

verus! {

/// The background of a fresh console.
pub const DEFAULT_BACK: Color = (0, 0, 0, 255);

/// The glyph of a fresh console: a space.
pub const DEFAULT_GLYPH: u16 = 32;

/// One character position: a glyph code and two colours.
#[derive(Clone, Copy, PartialEq, Eq, Debug)]
pub struct Cell {
    pub glyph: u16,
    pub fore: Color,
    pub back: Color,
}

/// The cell a fresh console holds everywhere.
pub open spec fn blank_cell() -> Cell {
    Cell { glyph: DEFAULT_GLYPH, fore: DEFAULT_FORE, back: DEFAULT_BACK }
}

/// A cell with each given attribute replaced and the others kept.
pub open spec fn painted(c: Cell, glyph: Option<u16>, fore: Option<Color>, back: Option<Color>) -> Cell {
    Cell {
        glyph: match glyph {
            Some(g) => g,
            None => c.glyph,
        },
        fore: match fore {
            Some(f) => f,
            None => c.fore,
        },
        back: match back {
            Some(b) => b,
            None => c.back,
        },
    }
}

/// Whether `(px, py)` lies in the `w × h` area whose top-left cell is `(x, y)`.
pub open spec fn in_area(px: int, py: int, x: int, y: int, w: int, h: int) -> bool {
    x <= px < x + w && y <= py < y + h
}

/// Whether `(px, py)` lies on the border of that area.
pub open spec fn on_outline(px: int, py: int, x: int, y: int, w: int, h: int) -> bool {
    in_area(px, py, x, y, w, h) && (px == x || px == x + w - 1 || py == y || py == y + h - 1)
}

/// The area, or with `outline` only its border.
pub open spec fn in_region(outline: bool, px: int, py: int, x: int, y: int, w: int, h: int) -> bool {
    if outline {
        on_outline(px, py, x, y, w, h)
    } else {
        in_area(px, py, x, y, w, h)
    }
}

/// The contents of a console: its position, its size, its cells in row-major order and its
/// named colours.
pub struct ConsoleView {
    pub position: (i32, i32),
    pub width: nat,
    pub height: nat,
    pub cells: Seq<Cell>,
    pub colors: Map<Seq<char>, Color>,
}

impl ConsoleView {
    pub open spec fn in_bounds(self, x: int, y: int) -> bool {
        0 <= x < self.width && 0 <= y < self.height
    }

    /// The cell at column `x` of row `y`.
    pub open spec fn at(self, x: int, y: int) -> Cell {
        self.cells[y * self.width + x]
    }

    /// `after` is `self` with the cells of `region` painted with the given
    /// attributes and every other cell, the size and the colours unchanged.
    pub open spec fn painted_where(
        self,
        after: ConsoleView,
        region: spec_fn(int, int) -> bool,
        glyph: Option<u16>,
        fore: Option<Color>,
        back: Option<Color>,
    ) -> bool {
        &&& after.position == self.position
        &&& after.width == self.width
        &&& after.height == self.height
        &&& after.cells.len() == self.cells.len()
        &&& after.colors == self.colors
        &&& forall|px: int, py: int|
            after.in_bounds(px, py) ==> #[trigger] after.at(px, py) == if region(px, py) {
                painted(self.at(px, py), glyph, fore, back)
            } else {
                self.at(px, py)
            }
    }
}

/// A console: a grid of cells of fixed size, placed at a position, with the
/// colours that markup may name.
pub struct Console {
    x: i32,
    y: i32,
    width: u32,
    height: u32,
    cells: Vec<Cell>,
    colors: ColorRegistry,
}

impl View for Console {
    type V = ConsoleView;

    closed spec fn view(&self) -> ConsoleView {
        ConsoleView {
            position: (self.x, self.y),
            width: self.width as nat,
            height: self.height as nat,
            cells: self.cells@,
            colors: self.colors@,
        }
    }
}

proof fn lemma_cell_index(w: int, h: int, x: int, y: int, px: int, py: int)
    requires
        0 <= x < w,
        0 <= y < h,
        0 <= px < w,
        0 <= py < h,
    ensures
        0 <= y * w + x < w * h,
        (py * w + px == y * w + x) <==> (px == x && py == y),
{
    assert(0 <= y * w + x < w * h) by (nonlinear_arith)
        requires
            0 <= x < w,
            0 <= y < h,
    ;
    if py * w + px == y * w + x {
        if py < y {
            assert(py * w + px < y * w + x) by (nonlinear_arith)
                requires
                    py < y,
                    0 <= px < w,
                    0 <= x,
            ;
        }
        if py > y {
            assert(py * w + px > y * w + x) by (nonlinear_arith)
                requires
                    py > y,
                    0 <= x < w,
                    0 <= px,
            ;
        }
    }
}

/// Painting one more cell, outside the region painted so far, extends the
/// region by that cell.
proof fn lemma_paint_one_more(
    a: ConsoleView,
    b: ConsoleView,
    c: ConsoleView,
    done: spec_fn(int, int) -> bool,
    next: spec_fn(int, int) -> bool,
    x: int,
    y: int,
    glyph: Option<u16>,
    fore: Option<Color>,
    back: Option<Color>,
)
    requires
        a.painted_where(b, done, glyph, fore, back),
        b.painted_where(c, |px: int, py: int| px == x && py == y, glyph, fore, back),
        !done(x, y),
        forall|px: int, py: int|
            a.in_bounds(px, py) ==> #[trigger] next(px, py) == (done(px, py) || (px == x && py == y)),
    ensures
        a.painted_where(c, next, glyph, fore, back),
{
    assert forall|px: int, py: int| c.in_bounds(px, py) implies #[trigger] c.at(px, py) == if next(px, py) {
        painted(a.at(px, py), glyph, fore, back)
    } else {
        a.at(px, py)
    } by {
        assert(b.at(px, py) == (if done(px, py) {
            painted(a.at(px, py), glyph, fore, back)
        } else {
            a.at(px, py)
        }));
    }
}

/// The painted region may be described by any predicate that agrees with it
/// on the grid.
proof fn lemma_same_region(
    a: ConsoleView,
    b: ConsoleView,
    r1: spec_fn(int, int) -> bool,
    r2: spec_fn(int, int) -> bool,
    glyph: Option<u16>,
    fore: Option<Color>,
    back: Option<Color>,
)
    requires
        a.painted_where(b, r1, glyph, fore, back),
        forall|px: int, py: int| a.in_bounds(px, py) ==> #[trigger] r1(px, py) == r2(px, py),
    ensures
        a.painted_where(b, r2, glyph, fore, back),
{
    assert forall|px: int, py: int| b.in_bounds(px, py) implies #[trigger] b.at(px, py) == if r2(px, py) {
        painted(a.at(px, py), glyph, fore, back)
    } else {
        a.at(px, py)
    } by {
        assert(r1(px, py) == r2(px, py));
    }
}

impl Console {
    /// The console is well formed: one cell for each position.
    pub open spec fn wf(&self) -> bool {
        self@.cells.len() == self@.width * self@.height
    }

    /// A `width × height` console placed at `(x, y)`, every cell blank and no
    /// colour named.
    pub fn new(x: i32, y: i32, width: u32, height: u32) -> (r: Console)
        requires
            width * height <= usize::MAX,
        ensures
            r.wf(),
            r@.position == (x, y),
            r@.width == width,
            r@.height == height,
            r@.colors == Map::<Seq<char>, Color>::empty(),
            forall|px: int, py: int| r@.in_bounds(px, py) ==> #[trigger] r@.at(px, py) == blank_cell(),
    {
        let n: usize = (width as usize) * (height as usize);
        let blank = Cell { glyph: DEFAULT_GLYPH, fore: DEFAULT_FORE, back: DEFAULT_BACK };
        let mut cells: Vec<Cell> = Vec::new();
        let mut i: usize = 0;
        while i < n
            invariant
                i <= n,
                cells@.len() == i,
                forall|k: int| 0 <= k < i ==> cells@[k] == blank,
            decreases n - i,
        {
            cells.push(blank);
            i = i + 1;
        }
        let r = Console { x, y, width, height, cells, colors: ColorRegistry::new() };
        assert forall|px: int, py: int| r@.in_bounds(px, py) implies #[trigger] r@.at(px, py) == blank_cell() by {
            lemma_cell_index(width as int, height as int, px, py, px, py);
        }
        r
    }

    pub fn get_width(&self) -> (r: u32)
        ensures
            r == self@.width,
    {
        self.width
    }

    pub fn get_height(&self) -> (r: u32)
        ensures
            r == self@.height,
    {
        self.height
    }

    /// The position the console was placed at.
    pub fn position(&self) -> (r: (i32, i32))
        ensures
            r == self@.position,
    {
        (self.x, self.y)
    }

    /// The cell at `(x, y)`, or `None` outside the grid.
    pub fn get_cell(&self, x: i32, y: i32) -> (r: Option<Cell>)
        requires
            self.wf(),
        ensures
            r == (if self@.in_bounds(x as int, y as int) {
                Some(self@.at(x as int, y as int))
            } else {
                None::<Cell>
            }),
    {
        if x < 0 || y < 0 || x as u32 >= self.width || y as u32 >= self.height {
            return None;
        }
        let n = self.cells.len();
        proof {
            lemma_cell_index(self.width as int, self.height as int, x as int, y as int, x as int, y as int);
            assert(n == self.width * self.height);
        }
        let i: usize = (y as usize) * (self.width as usize) + (x as usize);
        Some(self.cells[i])
    }

    /// Binds a colour name for markup, replacing an earlier binding.
    pub fn register_color(&mut self, name: &str, value: Color)
        ensures
            final(self)@ == (ConsoleView { colors: old(self)@.colors.insert(name@, value), ..old(self)@ }),
    {
        self.colors.register(name, value);
    }

    /// The colour bound to `name`, if any.
    pub fn lookup_color(&self, name: &str) -> (r: Option<Color>)
        ensures
            r == (if self@.colors.contains_key(name@) {
                Some(self@.colors[name@])
            } else {
                None::<Color>
            }),
    {
        self.colors.lookup(name)
    }

    /// Paints one cell known to lie in the grid.
    pub(crate) fn paint_at(&mut self, x: u32, y: u32, glyph: Option<u16>, fore: Option<Color>, back: Option<Color>)
        requires
            old(self).wf(),
            x < old(self)@.width,
            y < old(self)@.height,
        ensures
            final(self).wf(),
            old(self)@.painted_where(
                final(self)@,
                |px: int, py: int| px == x && py == y,
                glyph,
                fore,
                back,
            ),
    {
        let n = self.cells.len();
        proof {
            lemma_cell_index(self.width as int, self.height as int, x as int, y as int, x as int, y as int);
            assert(n == self.width * self.height);
        }
        let i: usize = (y as usize) * (self.width as usize) + (x as usize);
        let c = self.cells[i];
        let g = match glyph {
            Some(g) => g,
            None => c.glyph,
        };
        let f = match fore {
            Some(f) => f,
            None => c.fore,
        };
        let b = match back {
            Some(b) => b,
            None => c.back,
        };
        self.cells.set(i, Cell { glyph: g, fore: f, back: b });
        proof {
            let w = self.width as int;
            let h = self.height as int;
            assert forall|px: int, py: int| #[trigger] self@.in_bounds(px, py) implies self@.at(px, py)
                == if px == x && py == y {
                painted(old(self)@.at(px, py), glyph, fore, back)
            } else {
                old(self)@.at(px, py)
            } by {
                lemma_cell_index(w, h, x as int, y as int, px, py);
                lemma_cell_index(w, h, px, py, px, py);
            }
        }
    }
    /// Paints the cells of the `w × h` area at `(x, y)` that lie in the grid,
    /// or, with `outline`, only those on its border.
    fn paint_region(
        &mut self,
        x: i32,
        y: i32,
        w: u32,
        h: u32,
        outline: bool,
        glyph: Option<u16>,
        fore: Option<Color>,
        back: Option<Color>,
    )
        requires
            old(self).wf(),
        ensures
            final(self).wf(),
            old(self)@.painted_where(
                final(self)@,
                |px: int, py: int| in_region(outline, px, py, x as int, y as int, w as int, h as int),
                glyph,
                fore,
                back,
            ),
    {
        let ghost orig = self@;
        let right: i64 = x as i64 + w as i64;
        let down: i64 = y as i64 + h as i64;
        let x0: i64 = if x < 0 { 0 } else { x as i64 };
        let y0: i64 = if y < 0 { 0 } else { y as i64 };
        let x1: i64 = if right < self.width as i64 { right } else { self.width as i64 };
        let y1: i64 = if down < self.height as i64 { down } else { self.height as i64 };
        let mut cy: i64 = y0;
        proof {
            lemma_same_region(orig, self@, |px: int, py: int| false, |px: int, py: int| in_region(outline, px, py, x as int, y as int, w as int, h as int) && py < cy, glyph, fore, back);
        }
        while cy < y1
            invariant
                self.wf(),
                y0 <= cy,
                0 <= y0,
                y <= y0,
                y1 <= self@.height,
                y1 <= down,
                0 <= x0,
                x <= x0,
                x1 <= self@.width,
                x1 <= right,
                x0 == x || x0 == 0,
                x1 == right || x1 == self@.width,
                right == x + w,
                down == y + h,
                self@.width == orig.width,
                self@.height == orig.height,
                orig.painted_where(self@, |px: int, py: int| in_region(outline, px, py, x as int, y as int, w as int, h as int) && py < cy, glyph, fore, back),
            decreases y1 - cy,
        {
            let mut cx: i64 = x0;
            proof {
                assert forall|px: int, py: int| orig.in_bounds(px, py) && #[trigger] in_region(outline, px, py, x as int, y as int, w as int, h as int)
                    implies !(py == cy && px < cx) by {}
                lemma_same_region(orig, self@, |px: int, py: int| in_region(outline, px, py, x as int, y as int, w as int, h as int) && py < cy,
                    |px: int, py: int| in_region(outline, px, py, x as int, y as int, w as int, h as int) && (py < cy || (py == cy && px < cx)), glyph, fore, back);
            }
            while cx < x1
                invariant
                    self.wf(),
                    y0 <= cy < y1,
                    0 <= y0,
                    y <= y0,
                    y1 <= self@.height,
                    y1 <= down,
                    x0 <= cx,
                    0 <= x0,
                    x <= x0,
                    x1 <= self@.width,
                    x1 <= right,
                    x0 == x || x0 == 0,
                    x1 == right || x1 == self@.width,
                    right == x + w,
                    down == y + h,
                    self@.width == orig.width,
                    self@.height == orig.height,
                    orig.painted_where(
                        self@,
                        |px: int, py: int| in_region(outline, px, py, x as int, y as int, w as int, h as int) && (py < cy || (py == cy && px < cx)),
                        glyph,
                        fore,
                        back,
                    ),
                decreases x1 - cx,
            {
                let ghost before = self@;
                let border = cx == x as i64 || cx == right - 1 || cy == y as i64 || cy == down - 1;
                if !outline || border {
                    self.paint_at(cx as u32, cy as u32, glyph, fore, back);
                    proof {
                        lemma_paint_one_more(orig, before, self@,
                            |px: int, py: int| in_region(outline, px, py, x as int, y as int, w as int, h as int) && (py < cy || (py == cy && px < cx)),
                            |px: int, py: int| in_region(outline, px, py, x as int, y as int, w as int, h as int) && (py < cy || (py == cy && px < cx + 1)),
                            cx as int, cy as int, glyph, fore, back);
                    }
                } else {
                    proof {
                        lemma_same_region(orig, self@,
                            |px: int, py: int| in_region(outline, px, py, x as int, y as int, w as int, h as int) && (py < cy || (py == cy && px < cx)),
                            |px: int, py: int| in_region(outline, px, py, x as int, y as int, w as int, h as int) && (py < cy || (py == cy && px < cx + 1)),
                            glyph, fore, back);
                    }
                }
                cx = cx + 1;
            }
            proof {
                assert forall|px: int, py: int| orig.in_bounds(px, py) && #[trigger] in_region(outline, px, py, x as int, y as int, w as int, h as int)
                    implies px < cx by {}
                lemma_same_region(orig, self@,
                    |px: int, py: int| in_region(outline, px, py, x as int, y as int, w as int, h as int) && (py < cy || (py == cy && px < cx)),
                    |px: int, py: int| in_region(outline, px, py, x as int, y as int, w as int, h as int) && py < cy + 1, glyph, fore, back);
            }
            cy = cy + 1;
        }
        proof {
            lemma_same_region(orig, self@, |px: int, py: int| in_region(outline, px, py, x as int, y as int, w as int, h as int) && py < cy,
                |px: int, py: int| in_region(outline, px, py, x as int, y as int, w as int, h as int), glyph, fore, back);
        }
    }

    /// Sets each given attribute of the cell at `(x, y)`; nothing happens
    /// outside the grid.
    pub fn set_cell(&mut self, x: i32, y: i32, glyph: Option<u16>, fore: Option<Color>, back: Option<Color>)
        requires
            old(self).wf(),
        ensures
            final(self).wf(),
            old(self)@.painted_where(final(self)@, |px: int, py: int| px == x && py == y, glyph, fore, back),
    {
        if x < 0 || y < 0 || x as u32 >= self.width || y as u32 >= self.height {
            proof {
                lemma_same_region(self@, self@, |px: int, py: int| false, |px: int, py: int| px == x && py == y, glyph, fore, back);
            }
            return;
        }
        self.paint_at(x as u32, y as u32, glyph, fore, back);
    }

    /// Sets the glyph of the cell at `(x, y)`; nothing happens outside the grid.
    pub fn ascii(&mut self, x: i32, y: i32, glyph: u16)
        requires
            old(self).wf(),
        ensures
            final(self).wf(),
            old(self)@.painted_where(final(self)@, |px: int, py: int| px == x && py == y, Some(glyph), None, None),
    {
        self.set_cell(x, y, Some(glyph), None, None);
    }

    /// Sets the foreground of the cell at `(x, y)`; nothing happens outside the grid.
    pub fn fore(&mut self, x: i32, y: i32, col: Color)
        requires
            old(self).wf(),
        ensures
            final(self).wf(),
            old(self)@.painted_where(final(self)@, |px: int, py: int| px == x && py == y, None, Some(col), None),
    {
        self.set_cell(x, y, None, Some(col), None);
    }

    /// Sets the background of the cell at `(x, y)`; nothing happens outside the grid.
    pub fn back(&mut self, x: i32, y: i32, col: Color)
        requires
            old(self).wf(),
        ensures
            final(self).wf(),
            old(self)@.painted_where(final(self)@, |px: int, py: int| px == x && py == y, None, None, Some(col)),
    {
        self.set_cell(x, y, None, None, Some(col));
    }

    /// Sets each given attribute of every cell of the `w × h` area at
    /// `(x, y)`, clipped to the grid.
    pub fn area(
        &mut self,
        x: i32,
        y: i32,
        w: u32,
        h: u32,
        fore: Option<Color>,
        back: Option<Color>,
        glyph: Option<u16>,
    )
        requires
            old(self).wf(),
        ensures
            final(self).wf(),
            old(self)@.painted_where(
                final(self)@,
                |px: int, py: int| in_area(px, py, x as int, y as int, w as int, h as int),
                glyph,
                fore,
                back,
            ),
    {
        self.paint_region(x, y, w, h, false, glyph, fore, back);
        proof {
            lemma_same_region(old(self)@, self@,
                |px: int, py: int| in_region(false, px, py, x as int, y as int, w as int, h as int),
                |px: int, py: int| in_area(px, py, x as int, y as int, w as int, h as int),
                glyph, fore, back);
        }
    }

    /// Sets each given attribute of the cells on the border of the `w × h`
    /// area at `(x, y)`, clipped to the grid; the inside is left alone.
    pub fn rectangle(
        &mut self,
        x: i32,
        y: i32,
        w: u32,
        h: u32,
        fore: Option<Color>,
        back: Option<Color>,
        glyph: Option<u16>,
    )
        requires
            old(self).wf(),
        ensures
            final(self).wf(),
            old(self)@.painted_where(
                final(self)@,
                |px: int, py: int| on_outline(px, py, x as int, y as int, w as int, h as int),
                glyph,
                fore,
                back,
            ),
    {
        self.paint_region(x, y, w, h, true, glyph, fore, back);
        proof {
            lemma_same_region(old(self)@, self@,
                |px: int, py: int| in_region(true, px, py, x as int, y as int, w as int, h as int),
                |px: int, py: int| on_outline(px, py, x as int, y as int, w as int, h as int),
                glyph, fore, back);
        }
    }
}

/// Two grids of the same size that agree on every cell are equal.
pub proof fn lemma_same_cells(a: ConsoleView, b: ConsoleView)
    requires
        a.position == b.position,
        a.width == b.width,
        a.height == b.height,
        a.colors == b.colors,
        a.cells.len() == a.width * a.height,
        b.cells.len() == b.width * b.height,
        forall|px: int, py: int| a.in_bounds(px, py) ==> #[trigger] a.at(px, py) == b.at(px, py),
    ensures
        a == b,
{
    let w = a.width as int;
    assert forall|i: int| 0 <= i < a.cells.len() implies a.cells[i] == b.cells[i] by {
        lemma_fundamental_div_mod(i, w);
        lemma_mod_bound(i, w);
        let px = i % w;
        let py = i / w;
        assert(py * w + px == i) by (nonlinear_arith)
            requires
                i == w * (i / w) + i % w,
                px == i % w,
                py == i / w,
        ;
        assert(0 <= py < a.height) by (nonlinear_arith)
            requires
                0 <= i < w * a.height,
                0 <= px < w,
                py * w + px == i,
        ;
        assert(a.at(px, py) == b.at(px, py));
    }
    assert(a.cells =~= b.cells);
}

/// A write to a single cell outside the grid leaves the console unchanged.
pub proof fn lemma_write_outside_keeps_grid(
    before: ConsoleView,
    after: ConsoleView,
    x: int,
    y: int,
    glyph: Option<u16>,
    fore: Option<Color>,
    back: Option<Color>,
)
    requires
        before.cells.len() == before.width * before.height,
        !before.in_bounds(x, y),
        before.painted_where(after, |px: int, py: int| px == x && py == y, glyph, fore, back),
    ensures
        after == before,
{
    assert forall|px: int, py: int| after.in_bounds(px, py) implies #[trigger] after.at(px, py) == before.at(px, py) by {}
    lemma_same_cells(after, before);
}

/// A painting operation whose region holds no cell of the grid, such as an
/// area lying wholly outside it, leaves the console unchanged.
pub proof fn lemma_paint_outside_keeps_grid(
    before: ConsoleView,
    after: ConsoleView,
    region: spec_fn(int, int) -> bool,
    glyph: Option<u16>,
    fore: Option<Color>,
    back: Option<Color>,
)
    requires
        before.cells.len() == before.width * before.height,
        forall|px: int, py: int| before.in_bounds(px, py) ==> !#[trigger] region(px, py),
        before.painted_where(after, region, glyph, fore, back),
    ensures
        after == before,
{
    assert forall|px: int, py: int| after.in_bounds(px, py) implies #[trigger] after.at(px, py) == before.at(px, py) by {
        assert(!region(px, py));
    }
    lemma_same_cells(after, before);
}

/// Filling an area and then drawing a rectangle on the same area: border
/// cells get the rectangle's attributes over the area's, inside cells keep
/// the area's, and cells outside the area are unchanged.
pub proof fn lemma_area_then_rectangle(
    a: ConsoleView,
    b: ConsoleView,
    c: ConsoleView,
    x: int,
    y: int,
    w: int,
    h: int,
    area_glyph: Option<u16>,
    area_fore: Option<Color>,
    area_back: Option<Color>,
    rect_glyph: Option<u16>,
    rect_fore: Option<Color>,
    rect_back: Option<Color>,
)
    requires
        a.painted_where(b, |px: int, py: int| in_area(px, py, x, y, w, h), area_glyph, area_fore, area_back),
        b.painted_where(c, |px: int, py: int| on_outline(px, py, x, y, w, h), rect_glyph, rect_fore, rect_back),
    ensures
        forall|px: int, py: int|
            #![trigger c.at(px, py)]
            c.in_bounds(px, py) ==> c.at(px, py) == if on_outline(px, py, x, y, w, h) {
                painted(painted(a.at(px, py), area_glyph, area_fore, area_back), rect_glyph, rect_fore, rect_back)
            } else if in_area(px, py, x, y, w, h) {
                painted(a.at(px, py), area_glyph, area_fore, area_back)
            } else {
                a.at(px, py)
            },
        forall|px: int, py: int|
            #![trigger c.at(px, py)]
            c.in_bounds(px, py) && on_outline(px, py, x, y, w, h) && rect_glyph is Some && rect_fore is Some
                && rect_back is Some ==> c.at(px, py) == painted(a.at(px, py), rect_glyph, rect_fore, rect_back),
{
    assert forall|px: int, py: int| #![trigger c.at(px, py)] c.in_bounds(px, py) implies c.at(px, py) == if on_outline(px, py, x, y, w, h) {
        painted(painted(a.at(px, py), area_glyph, area_fore, area_back), rect_glyph, rect_fore, rect_back)
    } else if in_area(px, py, x, y, w, h) {
        painted(a.at(px, py), area_glyph, area_fore, area_back)
    } else {
        a.at(px, py)
    } by {
        assert(b.at(px, py) == if in_area(px, py, x, y, w, h) {
            painted(a.at(px, py), area_glyph, area_fore, area_back)
        } else {
            a.at(px, py)
        });
    }
}

} // verus!
