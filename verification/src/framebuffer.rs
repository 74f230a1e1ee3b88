//! The color and depth buffers that a frame is accumulated in.

use vstd::prelude::*;

verus! {

/// The depth stored in every cell of a cleared buffer: farther than, or as far
/// as, anything that can be drawn.
pub const FAR: i32 = 2_147_483_647;

/// What a framebuffer holds, as mathematical values. Cells are row-major from
/// the top-left corner: pixel `(x, y)` is cell `y * width + x`.
pub struct Canvas {
    pub width: nat,
    pub height: nat,
    pub colors: Seq<u32>,
    pub depths: Seq<i32>,
    pub background: u32,
    pub current: u32,
}

impl Canvas {
    /// Both buffers have one cell per pixel.
    pub open spec fn wf(self) -> bool {
        &&& self.colors.len() == self.width * self.height
        &&& self.depths.len() == self.width * self.height
    }

    /// The cell of pixel `(x, y)`.
    pub open spec fn cell(self, x: int, y: int) -> int {
        y * self.width + x
    }

    /// The canvas of a new framebuffer: black background, white draw color,
    /// every pixel black and far.
    pub open spec fn blank(width: nat, height: nat) -> Canvas {
        Canvas {
            width,
            height,
            colors: Seq::new(width * height, |i: int| 0u32),
            depths: Seq::new(width * height, |i: int| FAR),
            background: 0,
            current: 0xFF_FFFF,
        }
    }

    /// The canvas with every pixel reset to the background color and every
    /// depth to `FAR`.
    pub open spec fn cleared(self) -> Canvas {
        Canvas {
            colors: Seq::new(self.colors.len(), |i: int| self.background),
            depths: Seq::new(self.depths.len(), |i: int| FAR),
            ..self
        }
    }

    /// Whether a write of `depth` to pixel `(x, y)` passes the depth test:
    /// it must be strictly nearer than what is stored.
    pub open spec fn accepts(self, x: int, y: int, depth: i32) -> bool {
        depth < self.depths[self.cell(x, y)]
    }

    /// The canvas after a write of `depth` to pixel `(x, y)` in the current
    /// draw color: taken where the depth test passes, ignored otherwise.
    pub open spec fn plotted(self, x: int, y: int, depth: i32) -> Canvas {
        if self.accepts(x, y, depth) {
            Canvas {
                colors: self.colors.update(self.cell(x, y), self.current),
                depths: self.depths.update(self.cell(x, y), depth),
                ..self
            }
        } else {
            self
        }
    }

    /// The canvas with another draw color.
    pub open spec fn with_current(self, color: u32) -> Canvas {
        Canvas { current: color, ..self }
    }

    /// The canvas with another background color.
    pub open spec fn with_background(self, color: u32) -> Canvas {
        Canvas { background: color, ..self }
    }
}

/// A color buffer and a depth buffer of one size, with the color that the
/// next writes use and the color that a clear fills in.
pub struct Framebuffer {
    width: usize,
    height: usize,
    buffer: Vec<u32>,
    zbuffer: Vec<i32>,
    background_color: u32,
    current_color: u32,
}

impl View for Framebuffer {
    type V = Canvas;

    closed spec fn view(&self) -> Canvas {
        Canvas {
            width: self.width as nat,
            height: self.height as nat,
            colors: self.buffer@,
            depths: self.zbuffer@,
            background: self.background_color,
            current: self.current_color,
        }
    }
}

/// A pixel inside a `width` by `height` canvas has its cell inside the
/// buffers.
pub proof fn lemma_cell_in_range(width: int, height: int, x: int, y: int)
    requires
        0 <= x < width,
        0 <= y < height,
    ensures
        0 <= y * width + x < width * height,
{
    assert(y * width + x < width * height) by (nonlinear_arith)
        requires
            0 <= x < width,
            0 <= y < height,
    {
        assert((y + 1) * width <= height * width);
    }
    assert(0 <= y * width) by (nonlinear_arith)
        requires
            0 <= y,
            0 <= width,
    ;
}

impl Framebuffer {
    /// The invariant of a framebuffer: its canvas is well formed.
    pub open spec fn wf(&self) -> bool {
        self@.wf()
    }

    /// A framebuffer of the given size, black and far everywhere.
    pub fn new(width: usize, height: usize) -> (fb: Framebuffer)
        requires
            width * height <= usize::MAX,
        ensures
            fb.wf(),
            fb@ == Canvas::blank(width as nat, height as nat),
    {
        let n: usize = width * height;
        let mut buffer: Vec<u32> = Vec::new();
        let mut zbuffer: Vec<i32> = Vec::new();
        let mut i: usize = 0;
        while i < n
            invariant
                i <= n,
                buffer@.len() == i,
                zbuffer@.len() == i,
                forall|k: int| 0 <= k < i ==> buffer@[k] == 0u32,
                forall|k: int| 0 <= k < i ==> zbuffer@[k] == FAR,
            decreases n - i,
        {
            buffer.push(0);
            zbuffer.push(FAR);
            i += 1;
        }
        let fb = Framebuffer {
            width,
            height,
            buffer,
            zbuffer,
            background_color: 0,
            current_color: 0xFF_FFFF,
        };
        assert(fb@.colors =~= Canvas::blank(width as nat, height as nat).colors);
        assert(fb@.depths =~= Canvas::blank(width as nat, height as nat).depths);
        fb
    }

    /// The number of pixels in a row.
    pub fn width(&self) -> (w: usize)
        ensures
            w == self@.width,
    {
        self.width
    }

    /// The number of rows.
    pub fn height(&self) -> (h: usize)
        ensures
            h == self@.height,
    {
        self.height
    }

    /// The color buffer, row-major from the top-left corner.
    pub fn buffer(&self) -> (b: &Vec<u32>)
        ensures
            b@ == self@.colors,
    {
        &self.buffer
    }

    /// The packed color stored at pixel `(x, y)`.
    pub fn color_at(&self, x: usize, y: usize) -> (c: u32)
        requires
            self.wf(),
            x < self@.width,
            y < self@.height,
        ensures
            c == self@.colors[self@.cell(x as int, y as int)],
    {
        let n: usize = self.buffer.len();
        proof {
            lemma_cell_in_range(self.width as int, self.height as int, x as int, y as int);
            assert(n == self.width as int * self.height as int);
            assert(0 <= y as int * self.width as int) by (nonlinear_arith);
        }
        self.buffer[y * self.width + x]
    }

    /// The depth stored at pixel `(x, y)`.
    pub fn depth_at(&self, x: usize, y: usize) -> (d: i32)
        requires
            self.wf(),
            x < self@.width,
            y < self@.height,
        ensures
            d == self@.depths[self@.cell(x as int, y as int)],
    {
        let n: usize = self.buffer.len();
        proof {
            lemma_cell_in_range(self.width as int, self.height as int, x as int, y as int);
            assert(n == self.width as int * self.height as int);
            assert(0 <= y as int * self.width as int) by (nonlinear_arith);
        }
        self.zbuffer[y * self.width + x]
    }

    /// Resets every pixel to the background color and every depth to `FAR`.
    pub fn clear(&mut self)
        requires
            old(self).wf(),
        ensures
            final(self).wf(),
            final(self)@ == old(self)@.cleared(),
    {
        let n: usize = self.buffer.len();
        let mut i: usize = 0;
        while i < n
            invariant
                i <= n,
                self.buffer@.len() == n,
                self.zbuffer@.len() == n,
                self.width == old(self).width,
                self.height == old(self).height,
                self.background_color == old(self).background_color,
                self.current_color == old(self).current_color,
                old(self).buffer@.len() == n,
                old(self).zbuffer@.len() == n,
                forall|k: int| 0 <= k < i ==> self.buffer@[k] == self.background_color,
                forall|k: int| 0 <= k < i ==> self.zbuffer@[k] == FAR,
            decreases n - i,
        {
            let bg: u32 = self.background_color;
            self.buffer.set(i, bg);
            self.zbuffer.set(i, FAR);
            i += 1;
        }
        assert(self@.colors =~= old(self)@.cleared().colors);
        assert(self@.depths =~= old(self)@.cleared().depths);
    }

    /// Writes the current draw color at pixel `(x, y)` if `depth` is strictly
    /// nearer than the depth stored there, and stores `depth`; otherwise
    /// leaves the framebuffer as it is. A tie keeps what was drawn first.
    pub fn point(&mut self, x: usize, y: usize, depth: i32)
        requires
            old(self).wf(),
            x < old(self)@.width,
            y < old(self)@.height,
        ensures
            final(self).wf(),
            final(self)@ == old(self)@.plotted(x as int, y as int, depth),
    {
        let n: usize = self.buffer.len();
        proof {
            lemma_cell_in_range(self.width as int, self.height as int, x as int, y as int);
            assert(n == self.width as int * self.height as int);
            assert(0 <= y as int * self.width as int) by (nonlinear_arith);
        }
        let index: usize = y * self.width + x;
        if depth < self.zbuffer[index] {
            let color: u32 = self.current_color;
            self.buffer.set(index, color);
            self.zbuffer.set(index, depth);
        }
    }

    /// Sets the color that a clear fills in.
    pub fn set_background_color(&mut self, color: u32)
        ensures
            final(self)@ == old(self)@.with_background(color),
    {
        self.background_color = color;
    }

    /// Sets the color that the following writes use.
    pub fn set_current_color(&mut self, color: u32)
        ensures
            final(self)@ == old(self)@.with_current(color),
    {
        self.current_color = color;
    }
}

/// One write to a canvas: a pixel, a depth and a packed color.
pub struct Plot {
    pub x: int,
    pub y: int,
    pub depth: i32,
    pub color: u32,
}

impl Canvas {
    /// Pixel `(x, y)` lies on the canvas.
    pub open spec fn has_pixel(self, x: int, y: int) -> bool {
        0 <= x < self.width && 0 <= y < self.height
    }

    /// The canvas after one write: the draw color is set, then the pixel is
    /// written under the depth test.
    pub open spec fn painted(self, plot: Plot) -> Canvas {
        self.with_current(plot.color).plotted(plot.x, plot.y, plot.depth)
    }

    /// The canvas after a sequence of writes, in order.
    pub open spec fn painted_all(self, plots: Seq<Plot>) -> Canvas
        decreases plots.len(),
    {
        if plots.len() == 0 {
            self
        } else {
            self.painted_all(plots.drop_last()).painted(plots.last())
        }
    }

    /// Whether the write `plots[i]` passes the depth test when its turn
    /// comes, after the writes before it.
    pub open spec fn accepted(self, plots: Seq<Plot>, i: int) -> bool {
        self.painted_all(plots.take(i)).accepts(plots[i].x, plots[i].y, plots[i].depth)
    }
}

/// Clearing twice is clearing once.
pub proof fn lemma_clear_idempotent(canvas: Canvas)
    ensures
        canvas.cleared().cleared() == canvas.cleared(),
{
    assert(canvas.cleared().cleared().colors =~= canvas.cleared().colors);
    assert(canvas.cleared().cleared().depths =~= canvas.cleared().depths);
}

/// A cleared canvas does not depend on what was drawn before: canvases of
/// one size and background are equal once cleared, whatever their draw color
/// but for that color itself.
pub proof fn lemma_clear_forgets(a: Canvas, b: Canvas)
    requires
        a.wf(),
        b.wf(),
        a.width == b.width,
        a.height == b.height,
        a.background == b.background,
    ensures
        a.cleared().colors == b.cleared().colors,
        a.cleared().depths == b.cleared().depths,
{
    assert(a.cleared().colors =~= b.cleared().colors);
    assert(a.cleared().depths =~= b.cleared().depths);
}

/// What one write does to a well-formed canvas. The pixel keeps the nearer
/// of its depth and the write's; its color changes only if the write is
/// strictly nearer; no other pixel changes; and a write that fails the depth
/// test changes nothing at all.
pub proof fn lemma_plot(canvas: Canvas, x: int, y: int, depth: i32)
    requires
        canvas.wf(),
        canvas.has_pixel(x, y),
    ensures
        canvas.plotted(x, y, depth).wf(),
        canvas.plotted(x, y, depth).width == canvas.width,
        canvas.plotted(x, y, depth).height == canvas.height,
        canvas.plotted(x, y, depth).background == canvas.background,
        canvas.plotted(x, y, depth).current == canvas.current,
        0 <= canvas.cell(x, y) < canvas.depths.len(),
        canvas.accepts(x, y, depth) ==> canvas.plotted(x, y, depth).depths[canvas.cell(x, y)]
            == depth && canvas.plotted(x, y, depth).colors[canvas.cell(x, y)] == canvas.current,
        !canvas.accepts(x, y, depth) ==> canvas.plotted(x, y, depth) == canvas,
        forall|k: int|
            0 <= k < canvas.depths.len() && k != canvas.cell(x, y) ==> canvas.plotted(
                x,
                y,
                depth,
            ).depths[k] == canvas.depths[k] && canvas.plotted(x, y, depth).colors[k]
                == canvas.colors[k],
        forall|k: int|
            0 <= k < canvas.depths.len() ==> canvas.plotted(x, y, depth).depths[k]
                <= canvas.depths[k],
{
    lemma_cell_in_range(canvas.width as int, canvas.height as int, x, y);
}

/// Depth never regresses: over any run of writes on the canvas, the depth
/// stored in a cell after more writes is at most what it was after fewer.
pub proof fn lemma_depth_never_regresses(
    canvas: Canvas,
    plots: Seq<Plot>,
    earlier: int,
    later: int,
    k: int,
)
    requires
        canvas.wf(),
        forall|i: int| 0 <= i < plots.len() ==> canvas.has_pixel(plots[i].x, plots[i].y),
        0 <= earlier <= later <= plots.len(),
        0 <= k < canvas.depths.len(),
    ensures
        canvas.painted_all(plots.take(later)).wf(),
        canvas.painted_all(plots.take(later)).width == canvas.width,
        canvas.painted_all(plots.take(later)).height == canvas.height,
        canvas.painted_all(plots.take(later)).depths[k] <= canvas.painted_all(
            plots.take(earlier),
        ).depths[k],
    decreases later,
{
    if later == 0 {
        assert(plots.take(0).len() == 0);
    } else {
        let before = canvas.painted_all(plots.take(later - 1));
        let plot = plots[later - 1];
        assert(plots.take(later).drop_last() =~= plots.take(later - 1));
        assert(plots.take(later).last() == plot);
        assert(canvas.painted_all(plots.take(later)) == before.painted(plot));
        if earlier == later {
            lemma_depth_never_regresses(canvas, plots, later - 1, later - 1, k);
        } else {
            lemma_depth_never_regresses(canvas, plots, earlier, later - 1, k);
        }
        lemma_plot(before.with_current(plot.color), plot.x, plot.y, plot.depth);
    }
}

/// A write that fails the depth test leaves the canvas as it was, but for
/// the draw color.
pub proof fn lemma_rejected_write_changes_nothing(canvas: Canvas, plots: Seq<Plot>, i: int)
    requires
        0 <= i < plots.len(),
        !canvas.accepted(plots, i),
    ensures
        canvas.painted_all(plots.take(i + 1)).colors == canvas.painted_all(plots.take(i)).colors,
        canvas.painted_all(plots.take(i + 1)).depths == canvas.painted_all(plots.take(i)).depths,
{
    assert(plots.take(i + 1).drop_last() =~= plots.take(i));
    assert(plots.take(i + 1).last() == plots[i]);
}

/// Depth monotonicity: of two writes to one pixel that both pass the depth
/// test, the later one is strictly nearer than the earlier one.
pub proof fn lemma_accepted_writes_get_nearer(canvas: Canvas, plots: Seq<Plot>, i: int, j: int)
    requires
        canvas.wf(),
        forall|n: int| 0 <= n < plots.len() ==> canvas.has_pixel(plots[n].x, plots[n].y),
        0 <= i < j < plots.len(),
        plots[i].x == plots[j].x,
        plots[i].y == plots[j].y,
        canvas.accepted(plots, i),
        canvas.accepted(plots, j),
    ensures
        plots[j].depth < plots[i].depth,
{
    let before = canvas.painted_all(plots.take(i));
    let plot = plots[i];
    lemma_cell_in_range(canvas.width as int, canvas.height as int, plot.x, plot.y);
    let k = canvas.cell(plot.x, plot.y);
    lemma_depth_never_regresses(canvas, plots, i, i, k);
    assert(plots.take(i + 1).drop_last() =~= plots.take(i));
    assert(plots.take(i + 1).last() == plot);
    lemma_plot(before.with_current(plot.color), plot.x, plot.y, plot.depth);
    assert(canvas.painted_all(plots.take(i + 1)).depths[k] == plot.depth);
    lemma_depth_never_regresses(canvas, plots, i + 1, j, k);
}

/// The depth stored in a cell is the least accepted so far: after any run of
/// writes on the canvas it is at most what the cell held before and at most
/// the depth of every write to the cell, and it is one of these.
pub proof fn lemma_stored_depth_is_least(canvas: Canvas, plots: Seq<Plot>, k: int)
    requires
        canvas.wf(),
        forall|i: int| 0 <= i < plots.len() ==> canvas.has_pixel(plots[i].x, plots[i].y),
        0 <= k < canvas.depths.len(),
    ensures
        canvas.painted_all(plots).depths[k] <= canvas.depths[k],
        forall|i: int|
            0 <= i < plots.len() && canvas.cell(plots[i].x, plots[i].y) == k
                ==> canvas.painted_all(plots).depths[k] <= (#[trigger] plots[i]).depth,
        canvas.painted_all(plots).depths[k] == canvas.depths[k] || exists|i: int|
            0 <= i < plots.len() && canvas.cell(plots[i].x, plots[i].y) == k
                && canvas.painted_all(plots).depths[k] == (#[trigger] plots[i]).depth,
    decreases plots.len(),
{
    let n = plots.len() as int;
    assert(plots.take(n) =~= plots);
    assert(plots.take(0).len() == 0);
    lemma_depth_never_regresses(canvas, plots, 0, n, k);
    if n > 0 {
        let rest = plots.drop_last();
        let plot = plots.last();
        let before = canvas.painted_all(rest);
        assert(plots.take(n - 1) =~= rest);
        lemma_depth_never_regresses(canvas, plots, n - 1, n - 1, k);
        lemma_stored_depth_is_least(canvas, rest, k);
        lemma_plot(before.with_current(plot.color), plot.x, plot.y, plot.depth);
        let after = canvas.painted_all(plots).depths[k];
        assert(forall|i: int| 0 <= i < rest.len() ==> rest[i] == plots[i]);
        if canvas.cell(plot.x, plot.y) == k && before.accepts(plot.x, plot.y, plot.depth) {
            assert(after == plots[n - 1].depth);
        } else {
            assert(after == before.depths[k]);
            if before.depths[k] != canvas.depths[k] {
                let i = choose|i: int|
                    0 <= i < rest.len() && canvas.cell(rest[i].x, rest[i].y) == k
                        && before.depths[k] == (#[trigger] rest[i]).depth;
                assert(plots[i] == rest[i]);
            }
        }
    }
}

} // verus!
