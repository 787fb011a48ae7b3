use vstd::prelude::*;
use crate::error::Error;

verus! {

/// The mathematical content of a bitmap: `width` columns and one sequence of
/// pixels per row.
pub struct Grid {
    pub width: nat,
    pub rows: Seq<Seq<u8>>,
}

impl Grid {
    pub open spec fn height(self) -> nat {
        self.rows.len()
    }

    /// Every row has exactly `width` pixels.
    pub open spec fn wf(self) -> bool {
        forall|r: int| 0 <= r < self.rows.len() ==> (#[trigger] self.rows[r]).len() == self.width
    }

    /// The pixel in column `x` of row `y`; blank outside the grid.
    pub open spec fn pixel(self, x: int, y: int) -> u8 {
        if 0 <= y < self.rows.len() && 0 <= x < self.rows[y].len() {
            self.rows[y][x]
        } else {
            0u8
        }
    }

    /// A `width` by `height` grid whose pixels are given by `f(x, y)`.
    pub open spec fn from_fn(width: nat, height: nat, f: spec_fn(int, int) -> u8) -> Grid {
        Grid {
            width,
            rows: Seq::new(height, |y: int| Seq::new(width, |x: int| f(x, y))),
        }
    }

    /// A blank grid.
    pub open spec fn blank(width: nat, height: nat) -> Grid {
        Grid::from_fn(width, height, |x: int, y: int| 0u8)
    }

    /// Whether `(x, y)` lies in the rectangle that `other` covers when placed at `(ox, oy)`.
    pub open spec fn covers(other: Grid, ox: nat, oy: nat, x: int, y: int) -> bool {
        ox <= x < ox + other.width && oy <= y < oy + other.height()
    }

    /// `self` with `other` copied over it, its top-left corner at `(ox, oy)`.
    /// The result grows to hold both; what neither covers is blank.
    pub open spec fn blit(self, other: Grid, ox: nat, oy: nat) -> Grid {
        let width = if self.width >= ox + other.width { self.width } else { ox + other.width };
        let height = if self.height() >= oy + other.height() { self.height() } else { oy + other.height() };
        Grid::from_fn(
            width,
            height,
            |x: int, y: int|
                if Grid::covers(other, ox, oy, x, y) {
                    other.pixel(x - ox, y - oy)
                } else {
                    self.pixel(x, y)
                },
        )
    }

    /// `blit`, refused where the result would reach past what a coordinate
    /// can address.
    pub open spec fn try_blit(self, other: Grid, ox: nat, oy: nat) -> Result<Grid, Error> {
        if ox + other.width > usize::MAX || oy + other.height() > usize::MAX {
            Err(Error::FrameTooLarge)
        } else {
            Ok(self.blit(other, ox, oy))
        }
    }

    /// Thickness of the frame that a border style adds on each side:
    /// `(left, top, right, bottom)`.
    pub open spec fn margins(style: BorderStyle, padding: nat) -> (nat, nat, nat, nat) {
        match style {
            BorderStyle::Top => (0, padding + 1, 0, 0),
            BorderStyle::Bottom => (0, 0, 0, padding + 1),
            BorderStyle::All => (padding + 1, padding + 1, padding + 1, padding + 1),
        }
    }

    /// Whether `(x, y)` lies on the line that `style` draws around a
    /// `width` by `height` frame.
    pub open spec fn on_line(style: BorderStyle, width: nat, height: nat, x: int, y: int) -> bool {
        match style {
            BorderStyle::Top => y == 0,
            BorderStyle::Bottom => y == height - 1,
            BorderStyle::All => x == 0 || y == 0 || x == width - 1 || y == height - 1,
        }
    }

    /// `self` set inside a frame: a one-pixel line on the sides that `style`
    /// names, `padding` blank pixels between the line and the content.
    pub open spec fn with_border(self, style: BorderStyle, padding: nat) -> Grid {
        let (left, top, right, bottom) = Grid::margins(style, padding);
        let width = left + self.width + right;
        let height = top + self.height() + bottom;
        Grid::from_fn(
            width,
            height,
            |x: int, y: int|
                if Grid::on_line(style, width, height, x, y) {
                    1u8
                } else {
                    self.pixel(x - left, y - top)
                },
        )
    }

    /// `with_border`, refused where the frame would reach past what a
    /// coordinate can address.
    pub open spec fn try_with_border(self, style: BorderStyle, padding: nat) -> Result<Grid, Error> {
        let (left, top, right, bottom) = Grid::margins(style, padding);
        if left + self.width + right > usize::MAX || top + self.height() + bottom > usize::MAX {
            Err(Error::FrameTooLarge)
        } else {
            Ok(self.with_border(style, padding))
        }
    }

    /// The grid that `rows` spell out: as wide as the longest row, shorter
    /// rows padded with blanks.
    pub open spec fn from_rows(rows: Seq<Seq<u8>>) -> Grid {
        Grid::from_fn(
            Grid::longest(rows),
            rows.len(),
            |x: int, y: int| if 0 <= y < rows.len() && 0 <= x < rows[y].len() { rows[y][x] } else { 0u8 },
        )
    }

    /// Length of the longest of `rows`.
    pub open spec fn longest(rows: Seq<Seq<u8>>) -> nat
        decreases rows.len(),
    {
        if rows.len() == 0 {
            0
        } else {
            let rest = Grid::longest(rows.drop_last());
            if rows.last().len() > rest { rows.last().len() } else { rest }
        }
    }
}

/// Which sides of a bitmap `with_border` frames.
#[derive(Clone, Copy, Debug, PartialEq, Eq, Structural)]
pub enum BorderStyle {
    Top,
    Bottom,
    All,
}

/// A rectangular grid of pixels, one byte each.
#[derive(Clone, Debug, PartialEq, Eq)]
pub struct Bitmap {
    width: usize,
    rows: Vec<Vec<u8>>,
}

impl View for Bitmap {
    type V = Grid;

    closed spec fn view(&self) -> Grid {
        Grid { width: self.width as nat, rows: Seq::new(self.rows@.len(), |y: int| self.rows@[y]@) }
    }
}

impl Bitmap {
    /// The representation invariant: every stored row is `width` long.
    pub closed spec fn wf(&self) -> bool {
        forall|r: int| 0 <= r < self.rows@.len() ==> (#[trigger] self.rows@[r])@.len() == self.width
    }

    /// A well-formed bitmap has a well-formed view.
    pub proof fn lemma_view_wf(&self)
        requires
            self.wf(),
        ensures
            self@.wf(),
    {
    }

    /// A blank bitmap of the given size.
    pub fn new(width: usize, height: usize) -> (bitmap: Bitmap)
        ensures
            bitmap.wf(),
            bitmap@ == Grid::blank(width as nat, height as nat),
    {
        let mut rows: Vec<Vec<u8>> = Vec::new();
        let mut y: usize = 0;
        while y < height
            invariant
                y <= height,
                rows@.len() == y,
                forall|r: int| 0 <= r < y ==> (#[trigger] rows@[r])@ == Seq::new(width as nat, |x: int| 0u8),
            decreases height - y,
        {
            let row = Bitmap::blank_row(width);
            rows.push(row);
            y += 1;
        }
        let bitmap = Bitmap { width, rows };
        assert forall|r: int| 0 <= r < height implies #[trigger] bitmap@.rows[r] == Grid::blank(
            width as nat,
            height as nat,
        ).rows[r] by {
            assert(bitmap@.rows[r] =~= Grid::blank(width as nat, height as nat).rows[r]);
        }
        assert(bitmap@.rows =~= Grid::blank(width as nat, height as nat).rows);
        bitmap
    }

    fn blank_row(width: usize) -> (row: Vec<u8>)
        ensures
            row@ == Seq::new(width as nat, |x: int| 0u8),
    {
        let mut row: Vec<u8> = Vec::new();
        let mut x: usize = 0;
        while x < width
            invariant
                x <= width,
                row@.len() == x,
                forall|c: int| 0 <= c < x ==> row@[c] == 0u8,
            decreases width - x,
        {
            row.push(0u8);
            x += 1;
        }
        assert(row@ =~= Seq::new(width as nat, |x: int| 0u8));
        row
    }

    pub fn width(&self) -> (w: usize)
        ensures
            w == self@.width,
    {
        self.width
    }

    pub fn height(&self) -> (h: usize)
        ensures
            h == self@.height(),
    {
        self.rows.len()
    }

    /// The pixel in column `x` of row `y`; blank outside the bitmap.
    pub fn pixel(&self, x: usize, y: usize) -> (p: u8)
        ensures
            p == self@.pixel(x as int, y as int),
    {
        if y < self.rows.len() && x < self.rows[y].len() {
            self.rows[y][x]
        } else {
            0u8
        }
    }

    /// Copies `other` over this bitmap with its top-left corner at `offset`
    /// (column, row). The bitmap grows as far as needed to hold `other`.
    pub fn blit(&mut self, other: &Bitmap, offset: (usize, usize))
        requires
            old(self).wf(),
            other.wf(),
            offset.0 + other@.width <= usize::MAX,
            offset.1 + other@.height() <= usize::MAX,
        ensures
            final(self).wf(),
            final(self)@ == old(self)@.blit(other@, offset.0 as nat, offset.1 as nat),
    {
        let ox: usize = offset.0;
        let oy: usize = offset.1;
        let width: usize = if self.width >= ox + other.width { self.width } else { ox + other.width };
        let height: usize = if self.rows.len() >= oy + other.rows.len() {
            self.rows.len()
        } else {
            oy + other.rows.len()
        };
        let ghost goal = self@.blit(other@, ox as nat, oy as nat);
        let mut rows: Vec<Vec<u8>> = Vec::new();
        let mut y: usize = 0;
        while y < height
            invariant
                self.wf(),
                other.wf(),
                y <= height,
                goal == self@.blit(other@, ox as nat, oy as nat),
                goal.width == width,
                goal.height() == height,
                ox + other.width <= usize::MAX,
                oy + other.rows@.len() <= usize::MAX,
                rows@.len() == y,
                forall|r: int| 0 <= r < y ==> (#[trigger] rows@[r])@ == goal.rows[r],
            decreases height - y,
        {
            let mut row: Vec<u8> = Vec::new();
            let mut x: usize = 0;
            while x < width
                invariant
                    self.wf(),
                    other.wf(),
                    y < height,
                    x <= width,
                    goal == self@.blit(other@, ox as nat, oy as nat),
                    goal.width == width,
                    goal.height() == height,
                    ox + other.width <= usize::MAX,
                    oy + other.rows@.len() <= usize::MAX,
                    row@.len() == x,
                    forall|c: int| 0 <= c < x ==> row@[c] == goal.rows[y as int][c],
                decreases width - x,
            {
                let inside = ox <= x && x - ox < other.width && oy <= y && y - oy < other.rows.len();
                let p: u8 = if inside {
                    other.rows[y - oy][x - ox]
                } else {
                    self.pixel(x, y)
                };
                row.push(p);
                x += 1;
            }
            assert(row@ =~= goal.rows[y as int]);
            rows.push(row);
            y += 1;
        }
        self.width = width;
        self.rows = rows;
        assert(self@.rows =~= goal.rows);
    }

    /// Copies `other` over this bitmap as `blit` does, unless the result
    /// would reach past what a coordinate can address: then the bitmap stays
    /// as it is.
    pub fn try_blit(&mut self, other: &Bitmap, offset: (usize, usize)) -> (result: Result<(), Error>)
        requires
            old(self).wf(),
            other.wf(),
        ensures
            final(self).wf(),
            match old(self)@.try_blit(other@, offset.0 as nat, offset.1 as nat) {
                Ok(grid) => result == Ok::<(), Error>(()) && final(self)@ == grid,
                Err(e) => result == Err::<(), Error>(e) && final(self)@ == old(self)@,
            },
    {
        if offset.0 > usize::MAX - other.width() || offset.1 > usize::MAX - other.height() {
            return Err(Error::FrameTooLarge);
        }
        self.blit(other, offset);
        Ok(())
    }

    /// The bitmap that `rows` spell out, top row first: as wide as the
    /// longest row, shorter rows padded with blanks.
    pub fn from_slice(rows: &[&[u8]]) -> (bitmap: Bitmap)
        ensures
            bitmap.wf(),
            bitmap@ == Grid::from_rows(Seq::new(rows@.len(), |y: int| rows@[y]@)),
    {
        let ghost source = Seq::new(rows@.len(), |y: int| rows@[y]@);
        let ghost goal = Grid::from_rows(source);
        let mut width: usize = 0;
        let mut n: usize = 0;
        while n < rows.len()
            invariant
                n <= rows@.len(),
                source == Seq::new(rows@.len(), |y: int| rows@[y]@),
                width == Grid::longest(source.take(n as int)),
            decreases rows@.len() - n,
        {
            assert(source.take(n + 1).drop_last() =~= source.take(n as int));
            assert(source.take(n + 1).last() == rows@[n as int]@);
            let len: usize = rows[n].len();
            if len > width {
                width = len;
            }
            n += 1;
        }
        assert(source.take(n as int) =~= source);
        let mut built: Vec<Vec<u8>> = Vec::new();
        let mut y: usize = 0;
        while y < rows.len()
            invariant
                y <= rows@.len(),
                source == Seq::new(rows@.len(), |y: int| rows@[y]@),
                goal == Grid::from_rows(source),
                goal.width == width,
                built@.len() == y,
                forall|r: int| 0 <= r < y ==> (#[trigger] built@[r])@ == goal.rows[r],
            decreases rows@.len() - y,
        {
            let mut row: Vec<u8> = Vec::new();
            let mut x: usize = 0;
            while x < width
                invariant
                    y < rows@.len(),
                    x <= width,
                    source == Seq::new(rows@.len(), |y: int| rows@[y]@),
                    goal == Grid::from_rows(source),
                    goal.width == width,
                    row@.len() == x,
                    forall|c: int| 0 <= c < x ==> row@[c] == goal.rows[y as int][c],
                decreases width - x,
            {
                let p: u8 = if x < rows[y].len() { rows[y][x] } else { 0u8 };
                row.push(p);
                x += 1;
            }
            assert(row@ =~= goal.rows[y as int]);
            built.push(row);
            y += 1;
        }
        let bitmap = Bitmap { width, rows: built };
        assert(bitmap@.rows =~= goal.rows);
        bitmap
    }
}

/// Sets `bitmap` inside a frame: a one-pixel line on the sides that `style`
/// names, and `padding` blank pixels between the line and the content.
pub fn with_border(bitmap: Bitmap, style: BorderStyle, padding: usize) -> (result: Result<Bitmap, Error>)
    requires
        bitmap.wf(),
    ensures
        match bitmap@.try_with_border(style, padding as nat) {
            Ok(grid) => result matches Ok(framed) && framed.wf() && framed@ == grid,
            Err(e) => result matches Err(f) && f == e,
        },
{
    if padding == usize::MAX {
        return Err(Error::FrameTooLarge);
    }
    let band: usize = padding + 1;
    let (left, top, right, bottom): (usize, usize, usize, usize) = match style {
        BorderStyle::Top => (0, band, 0, 0),
        BorderStyle::Bottom => (0, 0, 0, band),
        BorderStyle::All => (band, band, band, band),
    };
    if left > usize::MAX - bitmap.width || left + bitmap.width > usize::MAX - right {
        return Err(Error::FrameTooLarge);
    }
    if top > usize::MAX - bitmap.rows.len() || top + bitmap.rows.len() > usize::MAX - bottom {
        return Err(Error::FrameTooLarge);
    }
    let width: usize = left + bitmap.width + right;
    let height: usize = top + bitmap.rows.len() + bottom;
    let ghost goal = bitmap@.with_border(style, padding as nat);
    let mut rows: Vec<Vec<u8>> = Vec::new();
    let mut y: usize = 0;
    while y < height
        invariant
            bitmap.wf(),
            y <= height,
            goal == bitmap@.with_border(style, padding as nat),
            (left as nat, top as nat, right as nat, bottom as nat) == Grid::margins(style, padding as nat),
            width == left + bitmap@.width + right,
            height == top + bitmap@.height() + bottom,
            rows@.len() == y,
            forall|r: int| 0 <= r < y ==> (#[trigger] rows@[r])@ == goal.rows[r],
        decreases height - y,
    {
        let mut row: Vec<u8> = Vec::new();
        let mut x: usize = 0;
        while x < width
            invariant
                bitmap.wf(),
                y < height,
                x <= width,
                goal == bitmap@.with_border(style, padding as nat),
                (left as nat, top as nat, right as nat, bottom as nat) == Grid::margins(style, padding as nat),
                width == left + bitmap@.width + right,
                height == top + bitmap@.height() + bottom,
                row@.len() == x,
                forall|c: int| 0 <= c < x ==> row@[c] == goal.rows[y as int][c],
            decreases width - x,
        {
            let line = match style {
                BorderStyle::Top => y == 0,
                BorderStyle::Bottom => y == height - 1,
                BorderStyle::All => x == 0 || y == 0 || x == width - 1 || y == height - 1,
            };
            let p: u8 = if line {
                1u8
            } else if x >= left && y >= top {
                bitmap.pixel(x - left, y - top)
            } else {
                0u8
            };
            row.push(p);
            x += 1;
        }
        assert(row@ =~= goal.rows[y as int]);
        rows.push(row);
        y += 1;
    }
    let framed = Bitmap { width, rows };
    assert(framed@.rows =~= goal.rows);
    Ok(framed)
}

} // verus!
