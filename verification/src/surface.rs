//! The scratch surface that every redraw is drawn on.
//!
//! A surface is a grid of cells, each holding a colour or nothing, and an
//! origin that says where on the display its top left cell goes. A redraw
//! makes a surface as large as the region it touches, draws on it, and hands
//! it over as one batch in which the empty cells show the background.
use crate::color::Color;
use vstd::arithmetic::div_mod::lemma_fundamental_div_mod_converse;
use vstd::prelude::*;

verus! {

/// What a surface is: its size, its origin and its cells, row by row.
pub struct SurfaceView {
    pub width: nat,
    pub height: nat,
    pub left: int,
    pub top: int,
    pub cells: Seq<Option<Color>>,
}

impl SurfaceView {
    /// There is one cell for each place of the grid.
    pub open spec fn wf(self) -> bool {
        self.cells.len() == self.width * self.height
    }

    /// The place lies on the grid.
    pub open spec fn covers(self, x: int, y: int) -> bool {
        0 <= x < self.width && 0 <= y < self.height
    }

    /// The cell at a place counted from the surface's own top left corner;
    /// nothing outside the grid.
    pub open spec fn at(self, x: int, y: int) -> Option<Color> {
        if self.covers(x, y) {
            self.cells[y * self.width + x]
        } else {
            None
        }
    }

    /// The cell that the surface puts at a point of the display.
    pub open spec fn get(self, x: int, y: int) -> Option<Color> {
        self.at(x - self.left, y - self.top)
    }

    /// The surface at the origin whose cell at each place is `cell` of it.
    pub open spec fn grid(
        width: nat,
        height: nat,
        cell: spec_fn(int, int) -> Option<Color>,
    ) -> SurfaceView {
        SurfaceView {
            width,
            height,
            left: 0,
            top: 0,
            cells: Seq::new(width * height, |i: int| cell(i % (width as int), i / (width as int))),
        }
    }

    /// A surface of empty cells.
    pub open spec fn blank(width: nat, height: nat) -> SurfaceView {
        Self::grid(width, height, |x: int, y: int| None)
    }

    /// The same surface with every cell of one colour.
    pub open spec fn cleared(self, color: Color) -> SurfaceView {
        SurfaceView { cells: Seq::new(self.cells.len(), |i: int| Some(color)), ..self }
    }

    /// The part of the surface inside a rectangle given in the surface's
    /// own places. Where the rectangle reaches beyond the grid the cells
    /// are empty. The result lies at the origin.
    pub open spec fn cropped(self, x: int, y: int, width: nat, height: nat) -> SurfaceView {
        Self::grid(width, height, |cx: int, cy: int| self.at(x + cx, y + cy))
    }

    /// The same cells with another origin.
    pub open spec fn placed_at(self, x: int, y: int) -> SurfaceView {
        SurfaceView { left: x, top: y, ..self }
    }

    /// The surface after `other` was drawn on it: each cell that `other`
    /// fills at a place of this grid takes its colour, the rest stay.
    pub open spec fn overlaid(self, other: SurfaceView) -> SurfaceView {
        SurfaceView {
            cells: Seq::new(
                self.cells.len(),
                |i: int|
                    match other.get(i % (self.width as int), i / (self.width as int)) {
                        Some(color) => Some(color),
                        None => self.cells[i],
                    },
            ),
            ..self
        }
    }

    /// The surface turned to the left by `shift` columns, the columns that
    /// leave on the left coming back on the right: column `x` holds what
    /// column `(x + shift) mod width` held.
    pub open spec fn wrapped(self, shift: nat) -> SurfaceView {
        SurfaceView {
            cells: Seq::new(
                self.cells.len(),
                |i: int|
                    self.at(
                        (i % (self.width as int) + shift) % (self.width as int),
                        i / (self.width as int),
                    ),
            ),
            ..self
        }
    }

    /// The colours of the cells, row by row, with the background in the
    /// place of each empty cell.
    pub open spec fn flattened(self, background: Color) -> Seq<Color> {
        Seq::new(
            self.cells.len(),
            |i: int|
                match self.cells[i] {
                    Some(color) => color,
                    None => background,
                },
        )
    }

    /// The batch that shows the surface on the display.
    pub open spec fn composite(self, background: Color) -> BlitView {
        BlitView {
            x: self.left,
            y: self.top,
            width: self.width,
            height: self.height,
            colors: self.flattened(background),
        }
    }
}

/// What a batch is: a rectangle of the display and one colour for each of
/// its cells, row by row.
pub struct BlitView {
    pub x: int,
    pub y: int,
    pub width: nat,
    pub height: nat,
    pub colors: Seq<Color>,
}

impl BlitView {
    /// There is one colour for each cell of the rectangle.
    pub open spec fn wf(self) -> bool {
        self.colors.len() == self.width * self.height
    }

    /// The batch covers the given rectangle, with one colour for each of
    /// its cells.
    pub open spec fn fills(self, x: int, y: int, width: nat, height: nat) -> bool {
        &&& self.x == x
        &&& self.y == y
        &&& self.width == width
        &&& self.height == height
        &&& self.colors.len() == width * height
    }
}

/// One batched write to the display.
#[derive(Debug, Clone, PartialEq, Eq)]
pub struct Blit {
    pub x: i32,
    pub y: i32,
    pub width: u32,
    pub height: u32,
    pub colors: Vec<Color>,
}

impl View for Blit {
    type V = BlitView;

    open spec fn view(&self) -> BlitView {
        BlitView {
            x: self.x as int,
            y: self.y as int,
            width: self.width as nat,
            height: self.height as nat,
            colors: self.colors@,
        }
    }
}

impl DeepView for Blit {
    type V = BlitView;

    open spec fn deep_view(&self) -> BlitView {
        self@
    }
}

/// A grid of cells that hold a colour or nothing, with an origin.
#[derive(Debug)]
pub struct Surface {
    width: u32,
    height: u32,
    left: i32,
    top: i32,
    pixels: Vec<Option<Color>>,
}

impl View for Surface {
    type V = SurfaceView;

    closed spec fn view(&self) -> SurfaceView {
        SurfaceView {
            width: self.width as nat,
            height: self.height as nat,
            left: self.left as int,
            top: self.top as int,
            cells: self.pixels@,
        }
    }
}

/// The place of a cell in a row-major grid determines its column and row.
pub proof fn lemma_cell_index(width: int, x: int, y: int)
    requires
        0 <= x < width,
        0 <= y,
    ensures
        (y * width + x) % width == x,
        (y * width + x) / width == y,
        y * width + x >= 0,
{
    lemma_fundamental_div_mod_converse(y * width + x, width, y, x);
    assert(y * width >= 0) by (nonlinear_arith)
        requires
            y >= 0,
            width > 0,
    ;
}

/// A place on the grid has its cell among the cells.
pub proof fn lemma_cell_in_range(width: int, height: int, x: int, y: int)
    requires
        0 <= x < width,
        0 <= y < height,
    ensures
        0 <= y * width + x < width * height,
{
    assert(0 <= y * width + x < width * height) by (nonlinear_arith)
        requires
            0 <= x < width,
            0 <= y < height,
    ;
}

/// A cropped surface, cell by cell: the cell at a place is the cell of the
/// surface at that place in the rectangle.
pub proof fn lemma_cropped_at(
    surface: SurfaceView,
    left: int,
    top: int,
    width: nat,
    height: nat,
    x: int,
    y: int,
)
    ensures
        surface.cropped(left, top, width, height).wf(),
        surface.cropped(left, top, width, height).at(x, y) == if 0 <= x < width && 0 <= y
            < height {
            surface.at(left + x, top + y)
        } else {
            None
        },
{
    if 0 <= x < width && 0 <= y < height {
        lemma_cell_index(width as int, x, y);
        lemma_cell_in_range(width as int, height as int, x, y);
    }
}

/// A surface on which another was drawn, cell by cell: where the other
/// surface puts a colour the cell has it, and elsewhere the cell is as it
/// was.
pub proof fn lemma_overlaid_at(surface: SurfaceView, other: SurfaceView, x: int, y: int)
    requires
        surface.wf(),
    ensures
        surface.overlaid(other).wf(),
        surface.overlaid(other).at(x, y) == if surface.covers(x, y) && other.get(x, y) is Some {
            other.get(x, y)
        } else {
            surface.at(x, y)
        },
{
    if surface.covers(x, y) {
        lemma_cell_index(surface.width as int, x, y);
        lemma_cell_in_range(surface.width as int, surface.height as int, x, y);
    }
}

/// A turned surface, cell by cell: column `x` holds what column `x + shift`
/// held, counted round the width. No cell is lost and none is made up.
pub proof fn lemma_wrapped_at(surface: SurfaceView, shift: nat, x: int, y: int)
    requires
        surface.wf(),
        surface.covers(x, y),
    ensures
        surface.wrapped(shift).wf(),
        surface.wrapped(shift).at(x, y) == surface.at((x + shift) % (surface.width as int), y),
        surface.covers((x + shift) % (surface.width as int), y),
{
    lemma_cell_index(surface.width as int, x, y);
    lemma_cell_in_range(surface.width as int, surface.height as int, x, y);
}

/// A surface turned by nothing, or by its whole width, is the surface
/// itself.
pub proof fn lemma_wrapped_full_turn(surface: SurfaceView)
    requires
        surface.wf(),
    ensures
        surface.wrapped(0) == surface,
        surface.wrapped(surface.width) == surface,
{
    let width = surface.width as int;
    assert forall|i: int| 0 <= i < surface.cells.len() implies surface.wrapped(0).cells[i]
        == surface.cells[i] && surface.wrapped(surface.width).cells[i] == surface.cells[i] by {
        lemma_index_on_grid(width, surface.height as int, i);
        let x = i % width;
        let y = i / width;
        assert((x + 0) % width == x) by {
            lemma_fundamental_div_mod_converse(x, width, 0, x);
        }
        assert((x + width) % width == x) by {
            lemma_fundamental_div_mod_converse(x + width, width, 1, x);
        }
    }
    assert(surface.wrapped(0).cells =~= surface.cells);
    assert(surface.wrapped(surface.width).cells =~= surface.cells);
}

/// A batch, colour by colour: the colour for a place is the colour of the
/// cell there, or the background where the cell is empty.
pub proof fn lemma_composite_at(surface: SurfaceView, background: Color, x: int, y: int)
    requires
        surface.wf(),
        surface.covers(x, y),
    ensures
        surface.composite(background).colors.len() == surface.width * surface.height,
        surface.composite(background).colors[y * surface.width + x] == match surface.at(x, y) {
            Some(color) => color,
            None => background,
        },
{
    lemma_cell_in_range(surface.width as int, surface.height as int, x, y);
}

/// A cell of a grid has a column and a row on the grid.
proof fn lemma_index_on_grid(width: int, height: int, i: int)
    requires
        0 <= i < width * height,
        0 <= width,
        0 <= height,
    ensures
        width > 0,
        0 <= i % width < width,
        0 <= i / width < height,
        (i / width) * width + i % width == i,
{
    assert(width > 0) by (nonlinear_arith)
        requires
            0 <= i < width * height,
            0 <= width,
    ;
    vstd::arithmetic::div_mod::lemma_fundamental_div_mod(i, width);
    assert(i / width < height) by (nonlinear_arith)
        requires
            width > 0,
            0 <= i < width * height,
            i == width * (i / width) + i % width,
            0 <= i % width < width,
    ;
    assert(0 <= i / width) by (nonlinear_arith)
        requires
            width > 0,
            0 <= i,
            i == width * (i / width) + i % width,
            0 <= i % width < width,
    ;
    assert((i / width) * width == width * (i / width)) by (nonlinear_arith);
}

/// The cell after the last one of a row is the first one of the next row.
proof fn lemma_next_cell(width: int, x: int, y: int)
    requires
        x + 1 == width,
    ensures
        (y + 1) * width == y * width + x + 1,
{
    assert((y + 1) * width == y * width + width) by (nonlinear_arith);
}

/// The cells of a surface can be counted in a `usize`.
proof fn lemma_cells_are_counted(cells: &Vec<Option<Color>>)
    ensures
        cells@.len() <= usize::MAX,
{
    assert(cells@.len() == cells.len());
}

/// The place of a point in the cells of a grid of the given size whose top
/// left corner lies at `(left, top)`; `None` for a point outside the grid.
pub fn point_to_index(width: u32, height: u32, left: i32, top: i32, x: i32, y: i32) -> (index:
    Option<usize>)
    requires
        width * height <= usize::MAX,
    ensures
        index == if 0 <= x - left < width && 0 <= y - top < height {
            Some(((y - top) * width + (x - left)) as usize)
        } else {
            None::<usize>
        },
{
    let dx: i64 = x as i64 - left as i64;
    let dy: i64 = y as i64 - top as i64;
    if 0 <= dx && dx < width as i64 && 0 <= dy && dy < height as i64 {
        proof {
            lemma_cell_in_range(width as int, height as int, dx as int, dy as int);
            assert(dy * width <= dy * width + dx);
        }
        Some(dy as usize * width as usize + dx as usize)
    } else {
        None
    }
}

impl Surface {
    /// The cells are as many as the size says.
    #[verifier::type_invariant]
    spec fn consistent(self) -> bool {
        self.pixels@.len() == self.width * self.height
    }

    /// A surface of empty cells at the origin.
    pub fn new(width: u32, height: u32) -> (surface: Surface)
        requires
            width * height <= usize::MAX,
        ensures
            surface@ == SurfaceView::blank(width as nat, height as nat),
            surface@.wf(),
    {
        let count: usize = width as usize * height as usize;
        let mut pixels: Vec<Option<Color>> = Vec::new();
        let mut i: usize = 0;
        while i < count
            invariant
                i <= count,
                pixels@.len() == i,
                forall|k: int| 0 <= k < i ==> pixels@[k] == None::<Color>,
            decreases count - i,
        {
            pixels.push(None);
            i += 1;
        }
        proof {
            assert(pixels@ =~= SurfaceView::blank(width as nat, height as nat).cells);
        }
        Surface { width, height, left: 0, top: 0, pixels }
    }

    /// A surface at the origin with the given cells, row by row; `None`
    /// where the cells are not as many as the size says.
    pub fn from_cells(width: u32, height: u32, cells: Vec<Option<Color>>) -> (surface: Option<
        Surface,
    >)
        ensures
            surface is Some <==> cells@.len() == width * height,
            surface is Some ==> surface->Some_0@ == (SurfaceView {
                width: width as nat,
                height: height as nat,
                left: 0,
                top: 0,
                cells: cells@,
            }),
            surface is Some ==> surface->Some_0@.wf(),
    {
        assert(width * height <= 0xFFFF_FFFF * 0xFFFF_FFFF) by (nonlinear_arith)
            requires
                width <= 0xFFFF_FFFF,
                height <= 0xFFFF_FFFF,
        ;
        if cells.len() as u64 == width as u64 * height as u64 {
            Some(Surface { width, height, left: 0, top: 0, pixels: cells })
        } else {
            None
        }
    }

    /// The number of columns.
    pub fn width(&self) -> (width: u32)
        ensures
            width == self@.width,
            self@.wf(),
    {
        proof {
            use_type_invariant(self);
        }
        self.width
    }

    /// The number of rows.
    pub fn height(&self) -> (height: u32)
        ensures
            height == self@.height,
    {
        self.height
    }

    /// The column of the display where the surface begins.
    pub fn left(&self) -> (left: i32)
        ensures
            left == self@.left,
    {
        self.left
    }

    /// The row of the display where the surface begins.
    pub fn top(&self) -> (top: i32)
        ensures
            top == self@.top,
    {
        self.top
    }

    /// The cells, row by row.
    pub fn cells(&self) -> (cells: &Vec<Option<Color>>)
        ensures
            cells@ == self@.cells,
            self@.wf(),
    {
        proof {
            use_type_invariant(self);
        }
        &self.pixels
    }

    /// The colour that the surface puts at a point of the display, if it
    /// puts one there.
    pub fn get_pixel(&self, x: i32, y: i32) -> (pixel: Option<Color>)
        ensures
            pixel == self@.get(x as int, y as int),
    {
        proof {
            use_type_invariant(self);
            lemma_cells_are_counted(&self.pixels);
        }
        match point_to_index(self.width, self.height, self.left, self.top, x, y) {
            Some(index) => {
                proof {
                    lemma_cell_in_range(
                        self.width as int,
                        self.height as int,
                        x - self.left,
                        y - self.top,
                    );
                }
                self.pixels[index]
            },
            None => None,
        }
    }

    /// Gives every cell the one colour.
    pub fn clear(&mut self, color: Color)
        ensures
            final(self)@ == old(self)@.cleared(color),
            final(self)@.wf(),
    {
        proof {
            use_type_invariant(&*self);
        }
        let count: usize = self.pixels.len();
        let mut pixels: Vec<Option<Color>> = Vec::new();
        let mut i: usize = 0;
        while i < count
            invariant
                i <= count,
                pixels@.len() == i,
                forall|k: int| 0 <= k < i ==> pixels@[k] == Some(color),
            decreases count - i,
        {
            pixels.push(Some(color));
            i += 1;
        }
        proof {
            assert(pixels@ =~= old(self)@.cleared(color).cells);
        }
        self.pixels = pixels;
    }

    /// The cell at a place counted from the surface's own corner.
    fn sample(&self, x: i64, y: i64) -> (cell: Option<Color>)
        ensures
            cell == self@.at(x as int, y as int),
    {
        proof {
            use_type_invariant(self);
            lemma_cells_are_counted(&self.pixels);
        }
        if 0 <= x && x < self.width as i64 && 0 <= y && y < self.height as i64 {
            proof {
                lemma_cell_in_range(self.width as int, self.height as int, x as int, y as int);
                assert(y * self.width <= y * self.width + x);
            }
            self.pixels[y as usize * self.width as usize + x as usize]
        } else {
            None
        }
    }

    /// The part of the surface inside a rectangle, as a surface of its own
    /// at the origin. The rectangle is given in the surface's own places
    /// and may reach beyond the grid: the cells there are empty. A
    /// rectangle without width or height gives nothing.
    pub fn crop(&self, x: i32, y: i32, width: u32, height: u32) -> (cropped: Option<Surface>)
        requires
            width * height <= usize::MAX,
        ensures
            cropped is None <==> width == 0 || height == 0,
            cropped is Some ==> cropped->Some_0@ == self@.cropped(
                x as int,
                y as int,
                width as nat,
                height as nat,
            ),
            cropped is Some ==> cropped->Some_0@.wf(),
    {
        if width == 0 || height == 0 {
            return None;
        }
        let ghost target = self@.cropped(x as int, y as int, width as nat, height as nat);
        let mut pixels: Vec<Option<Color>> = Vec::new();
        let mut cx: u32 = 0;
        let mut cy: u32 = 0;
        proof {
            assert(0int * width == 0);
        }
        while cy < height
            invariant
                width > 0,
                cx < width,
                cy <= height,
                cy == height ==> cx == 0,
                target == self@.cropped(x as int, y as int, width as nat, height as nat),
                target.cells.len() == width * height,
                pixels@.len() == cy * width + cx,
                forall|k: int| 0 <= k < pixels@.len() ==> pixels@[k] == target.cells[k],
            decreases height - cy, width - cx,
        {
            let cell = self.sample(x as i64 + cx as i64, y as i64 + cy as i64);
            proof {
                lemma_cell_index(width as int, cx as int, cy as int);
                lemma_cell_in_range(width as int, height as int, cx as int, cy as int);
            }
            pixels.push(cell);
            proof {
                if cx + 1 == width {
                    lemma_next_cell(width as int, cx as int, cy as int);
                }
            }
            cx += 1;
            if cx == width {
                cx = 0;
                cy += 1;
            }
        }
        proof {
            assert(height * width == width * height) by (nonlinear_arith);
            assert(pixels@ =~= target.cells);
        }
        Some(Surface { width, height, left: 0, top: 0, pixels })
    }

    /// Draws another surface on this one. The other surface's origin says
    /// where, counted from this surface's own corner; only its filled cells
    /// are drawn, and what falls outside this grid is dropped.
    pub fn draw(&mut self, other: &Surface)
        ensures
            final(self)@ == old(self)@.overlaid(other@),
            final(self)@.wf(),
    {
        proof {
            use_type_invariant(&*self);
            lemma_cells_are_counted(&self.pixels);
        }
        let width: u32 = self.width;
        let height: u32 = self.height;
        let ghost target = old(self)@.overlaid(other@);
        if width == 0 || height == 0 {
            proof {
                assert(width * height == 0) by (nonlinear_arith)
                    requires
                        width == 0 || height == 0,
                ;
                assert(self@.cells =~= target.cells);
            }
            return ;
        }
        let mut pixels: Vec<Option<Color>> = Vec::new();
        let mut cx: u32 = 0;
        let mut cy: u32 = 0;
        proof {
            assert(0int * width == 0);
        }
        while cy < height
            invariant
                width > 0,
                cx < width,
                cy <= height,
                cy == height ==> cx == 0,
                width == self.width,
                height == self.height,
                *self == *old(self),
                self.pixels@.len() == width * height,
                target == old(self)@.overlaid(other@),
                target.cells.len() == width * height,
                pixels@.len() == cy * width + cx,
                forall|k: int| 0 <= k < pixels@.len() ==> pixels@[k] == target.cells[k],
            decreases height - cy, width - cx,
        {
            proof {
                lemma_cell_index(width as int, cx as int, cy as int);
                lemma_cell_in_range(width as int, height as int, cx as int, cy as int);
            }
            let drawn = other.sample(
                cx as i64 - other.left as i64,
                cy as i64 - other.top as i64,
            );
            let cell = match drawn {
                Some(color) => Some(color),
                None => self.pixels[pixels.len()],
            };
            pixels.push(cell);
            proof {
                if cx + 1 == width {
                    lemma_next_cell(width as int, cx as int, cy as int);
                }
            }
            cx += 1;
            if cx == width {
                cx = 0;
                cy += 1;
            }
        }
        proof {
            assert(height * width == width * height) by (nonlinear_arith);
            assert(pixels@ =~= target.cells);
        }
        self.pixels = pixels;
    }

    /// The surface turned to the left by `shift` columns: what leaves on
    /// the left comes back on the right, so that no cell is lost. The cells
    /// are read from this surface and written to a new one.
    pub fn wrapped(&self, shift: u32) -> (turned: Surface)
        ensures
            turned@ == self@.wrapped(shift as nat),
            turned@.wf(),
    {
        proof {
            use_type_invariant(self);
            lemma_cells_are_counted(&self.pixels);
        }
        let width: u32 = self.width;
        let height: u32 = self.height;
        let ghost target = self@.wrapped(shift as nat);
        let mut pixels: Vec<Option<Color>> = Vec::new();
        if width == 0 || height == 0 {
            proof {
                assert(width * height == 0) by (nonlinear_arith)
                    requires
                        width == 0 || height == 0,
                ;
                assert(pixels@ =~= target.cells);
            }
            return Surface { width, height, left: self.left, top: self.top, pixels };
        }
        let mut cx: u32 = 0;
        let mut cy: u32 = 0;
        proof {
            assert(0int * width == 0);
        }
        while cy < height
            invariant
                width > 0,
                cx < width,
                cy <= height,
                cy == height ==> cx == 0,
                width == self.width,
                height == self.height,
                target == self@.wrapped(shift as nat),
                target.cells.len() == width * height,
                pixels@.len() == cy * width + cx,
                forall|k: int| 0 <= k < pixels@.len() ==> pixels@[k] == target.cells[k],
            decreases height - cy, width - cx,
        {
            proof {
                lemma_cell_index(width as int, cx as int, cy as int);
                lemma_cell_in_range(width as int, height as int, cx as int, cy as int);
            }
            let from: u64 = (cx as u64 + shift as u64) % (width as u64);
            let cell = self.sample(from as i64, cy as i64);
            pixels.push(cell);
            proof {
                if cx + 1 == width {
                    lemma_next_cell(width as int, cx as int, cy as int);
                }
            }
            cx += 1;
            if cx == width {
                cx = 0;
                cy += 1;
            }
        }
        proof {
            assert(height * width == width * height) by (nonlinear_arith);
            assert(pixels@ =~= target.cells);
        }
        Surface { width, height, left: self.left, top: self.top, pixels }
    }

    /// Says where on the display the surface goes. The cells are not
    /// touched.
    pub fn place_at(self, x: i32, y: i32) -> (placed: Surface)
        ensures
            placed@ == self@.placed_at(x as int, y as int),
            placed@.wf(),
    {
        proof {
            use_type_invariant(&self);
        }
        Surface { width: self.width, height: self.height, left: x, top: y, pixels: self.pixels }
    }
}

/// The batch that shows a surface on the display: its rectangle, and for
/// each cell its colour or, where the cell is empty, the background.
pub fn draw_canvas_with_background(canvas: &Surface, background: Color) -> (blit: Blit)
    ensures
        blit@ == canvas@.composite(background),
        blit@.wf(),
{
    let cells = canvas.cells();
    let mut colors: Vec<Color> = Vec::new();
    let mut i: usize = 0;
    while i < cells.len()
        invariant
            i <= cells.len(),
            cells@ == canvas@.cells,
            colors@.len() == i,
            forall|k: int| 0 <= k < i ==> colors@[k] == canvas@.flattened(background)[k],
        decreases cells.len() - i,
    {
        let color: Color = match cells[i] {
            Some(color) => color,
            None => background,
        };
        colors.push(color);
        i += 1;
    }
    proof {
        assert(colors@ =~= canvas@.flattened(background));
    }
    Blit { x: canvas.left(), y: canvas.top(), width: canvas.width(), height: canvas.height(), colors }
}

} // verus!
