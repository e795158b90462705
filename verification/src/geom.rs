use vstd::prelude::*;
use vstd::arithmetic::mul::{lemma_mul_inequality, lemma_mul_nonnegative, lemma_mul_upper_bound};
use vstd::arithmetic::div_mod::lemma_div_multiples_vanish;
use crate::model::{Square, BOARD_SIZE};

verus! {

/// Rows of the logical grid: the board plus one hand row above and below.
pub const GRID_ROWS: usize = 6;

/// A clickable screen area: an axis-aligned rectangle (max exclusive) or a
/// filled disc.
#[derive(PartialEq, Eq, Structural, Clone, Copy, Debug)]
pub enum Shape {
    Rect { x0: u32, y0: u32, x1: u32, y1: u32 },
    Circle { cx: u32, cy: u32, radius: u32 },
}

/// Squared euclidean distance between two points.
pub open spec fn sq_dist(ax: int, ay: int, bx: int, by: int) -> int {
    (ax - bx) * (ax - bx) + (ay - by) * (ay - by)
}

impl Shape {
    /// Whether the point lies in the shape; a rectangle holds its minimum
    /// edges and not its maximum ones, a disc holds its boundary.
    pub open spec fn spec_contains(self, x: int, y: int) -> bool {
        match self {
            Shape::Rect { x0, y0, x1, y1 } => x0 <= x < x1 && y0 <= y < y1,
            Shape::Circle { cx, cy, radius } => sq_dist(x, y, cx as int, cy as int) <= (radius
                as int) * (radius as int),
        }
    }

    pub fn contains(&self, x: u32, y: u32) -> (b: bool)
        ensures
            b == self.spec_contains(x as int, y as int),
    {
        match *self {
            Shape::Rect { x0, y0, x1, y1 } => x0 <= x && x < x1 && y0 <= y && y < y1,
            Shape::Circle { cx, cy, radius } => {
                let dx: u64 = if x >= cx {
                    (x - cx) as u64
                } else {
                    (cx - x) as u64
                };
                let dy: u64 = if y >= cy {
                    (y - cy) as u64
                } else {
                    (cy - y) as u64
                };
                proof {
                    lemma_mul_upper_bound(dx as int, u32::MAX as int, dx as int, u32::MAX as int);
                    lemma_mul_upper_bound(dy as int, u32::MAX as int, dy as int, u32::MAX as int);
                    lemma_mul_upper_bound(
                        radius as int,
                        u32::MAX as int,
                        radius as int,
                        u32::MAX as int,
                    );
                    assert(dx as int * dx as int + dy as int * dy as int == sq_dist(
                        x as int,
                        y as int,
                        cx as int,
                        cy as int,
                    )) by (nonlinear_arith)
                        requires
                            dx == if x >= cx {
                                x - cx
                            } else {
                                cx - x
                            },
                            dy == if y >= cy {
                                y - cy
                            } else {
                                cy - y
                            },
                    ;
                }
                let d2: u128 = (dx * dx) as u128 + (dy * dy) as u128;
                let r2: u128 = (radius as u64 * radius as u64) as u128;
                d2 <= r2
            },
        }
    }
}

/// Per-frame screen geometry: the side of one logical cell in pixels, and
/// the offsets that center the grid in the available canvas. Recomputed
/// every frame from the current canvas size, never cached across resizes.
#[derive(PartialEq, Eq, Structural, Clone, Copy, Debug)]
pub struct Mapper {
    pub square_size: u32,
    pub off_x: u32,
    pub off_y: u32,
    pub canvas_w: u32,
    pub canvas_h: u32,
}

impl Mapper {
    /// The geometry the view owes a canvas: cells sized so the whole
    /// N x (N+2) grid fits undistorted, centered in the canvas.
    pub open spec fn spec_new(w: u32, h: u32) -> Mapper {
        let s = if h as int / 6 < w as int / 4 {
            h as int / 6
        } else {
            w as int / 4
        };
        Mapper {
            square_size: s as u32,
            off_x: ((w - 4 * s) / 2) as u32,
            off_y: ((h - 6 * s) / 2) as u32,
            canvas_w: w,
            canvas_h: h,
        }
    }

    /// The whole grid fits in the canvas.
    pub open spec fn wf(self) -> bool {
        &&& self.off_x + 4 * self.square_size <= self.canvas_w
        &&& self.off_y + 6 * self.square_size <= self.canvas_h
    }

    pub fn new(w: u32, h: u32) -> (m: Mapper)
        ensures
            m == Mapper::spec_new(w, h),
            m.wf(),
    {
        let s: u32 = if h / 6 < w / 4 {
            h / 6
        } else {
            w / 4
        };
        assert(4 * (w as int / 4) <= w);
        assert(6 * (h as int / 6) <= h);
        let off_x: u32 = (w - 4 * s) / 2;
        let off_y: u32 = (h - 6 * s) / 2;
        Mapper { square_size: s, off_x, off_y, canvas_w: w, canvas_h: h }
    }

    /// Pixel x of the left edge of logical column `c`.
    pub open spec fn spec_grid_x(self, c: int) -> int {
        self.off_x + c * self.square_size
    }

    /// Pixel y of the top edge of logical row `r` (row 0 is the upper hand
    /// row; board rows are logical rows 1 to N).
    pub open spec fn spec_grid_y(self, r: int) -> int {
        self.off_y + r * self.square_size
    }

    /// Map a logical grid point (in whole cells) to its screen pixel.
    pub fn to_screen(&self, c: u32, r: u32) -> (p: (u32, u32))
        requires
            self.wf(),
            c <= 4,
            r <= GRID_ROWS,
        ensures
            p.0 == self.spec_grid_x(c as int),
            p.1 == self.spec_grid_y(r as int),
    {
        proof {
            lemma_mul_inequality(c as int, 4, self.square_size as int);
            lemma_mul_inequality(r as int, 6, self.square_size as int);
        }
        (self.off_x + c * self.square_size, self.off_y + r * self.square_size)
    }

    /// The rectangle of one board square on screen.
    pub open spec fn spec_square_rect(self, sq: Square) -> Shape {
        Shape::Rect {
            x0: self.spec_grid_x(sq.col as int) as u32,
            y0: self.spec_grid_y(sq.row as int + 1) as u32,
            x1: (self.spec_grid_x(sq.col as int) + self.square_size) as u32,
            y1: (self.spec_grid_y(sq.row as int + 1) + self.square_size) as u32,
        }
    }

    pub fn square_rect(&self, sq: Square) -> (r: Shape)
        requires
            self.wf(),
            sq.wf(),
        ensures
            r == self.spec_square_rect(sq),
    {
        let (x0, y0) = self.to_screen(sq.col as u32, sq.row as u32 + 1);
        proof {
            lemma_mul_inequality(sq.col as int, 3, self.square_size as int);
            lemma_mul_inequality(sq.row as int + 1, 5, self.square_size as int);
        }
        Shape::Rect { x0, y0, x1: x0 + self.square_size, y1: y0 + self.square_size }
    }

    /// Pixel center of one board square.
    pub open spec fn spec_board_center(self, sq: Square) -> (int, int) {
        (
            self.spec_grid_x(sq.col as int) + self.square_size / 2,
            self.spec_grid_y(sq.row as int + 1) + self.square_size / 2,
        )
    }

    pub fn board_center(&self, sq: Square) -> (p: (u32, u32))
        requires
            self.wf(),
            sq.wf(),
        ensures
            p.0 == self.spec_board_center(sq).0,
            p.1 == self.spec_board_center(sq).1,
    {
        let (x0, y0) = self.to_screen(sq.col as u32, sq.row as u32 + 1);
        proof {
            lemma_mul_inequality(sq.col as int, 3, self.square_size as int);
            lemma_mul_inequality(sq.row as int + 1, 5, self.square_size as int);
        }
        (x0 + self.square_size / 2, y0 + self.square_size / 2)
    }

    /// Pixel center of one hand slot: slot `slot` of the color with table
    /// index `color_index`; index 0 gets the hand row above the board,
    /// index 1 the row below.
    pub open spec fn spec_hand_center(self, color_index: int, slot: int) -> (int, int) {
        (
            self.spec_grid_x(slot + 1),
            if color_index == 0 {
                self.spec_grid_y(0) + self.square_size / 2
            } else {
                self.spec_grid_y(5) + self.square_size / 2
            },
        )
    }

    pub fn hand_center(&self, color_index: usize, slot: usize) -> (p: (u32, u32))
        requires
            self.wf(),
            color_index < 2,
            slot < BOARD_SIZE,
        ensures
            p.0 == self.spec_hand_center(color_index as int, slot as int).0,
            p.1 == self.spec_hand_center(color_index as int, slot as int).1,
    {
        let (x, _) = self.to_screen(slot as u32 + 1, 0);
        let (_, y0) = if color_index == 0 {
            self.to_screen(0, 0)
        } else {
            self.to_screen(0, 5)
        };
        proof {
            lemma_mul_inequality(5, 6, self.square_size as int);
        }
        (x, y0 + self.square_size / 2)
    }

    /// The inverse map, for diagnostics only: the logical cell of the whole
    /// N x (N+2) grid a pixel falls in, or none when it lies outside the
    /// grid (or the grid is degenerate).
    pub open spec fn spec_to_logical_cell(self, x: int, y: int) -> Option<(u32, u32)> {
        if self.square_size == 0 {
            None
        } else {
            let c = (x - self.off_x) / self.square_size as int;
            let r = (y - self.off_y) / self.square_size as int;
            if self.off_x <= x && self.off_y <= y && c < 4 && r < GRID_ROWS {
                Some((c as u32, r as u32))
            } else {
                None
            }
        }
    }

    /// The diagnostic map really inverts `to_screen`: the pixel a grid
    /// cell maps to maps back to that cell, whenever the grid is not
    /// degenerate.
    pub proof fn lemma_to_logical_cell_inverts_to_screen(self, c: int, r: int)
        requires
            self.square_size > 0,
            0 <= c < 4,
            0 <= r < GRID_ROWS,
        ensures
            self.spec_to_logical_cell(self.spec_grid_x(c), self.spec_grid_y(r)) == Some(
                (c as u32, r as u32),
            ),
    {
        let s = self.square_size as int;
        lemma_mul_nonnegative(c, s);
        lemma_mul_nonnegative(r, s);
        lemma_div_multiples_vanish(c, s);
        lemma_div_multiples_vanish(r, s);
        assert(c * s == s * c);
        assert(r * s == s * r);
    }

    pub fn to_logical_cell(&self, x: u32, y: u32) -> (cell: Option<(u32, u32)>)
        requires
            self.wf(),
        ensures
            cell == self.spec_to_logical_cell(x as int, y as int),
    {
        if self.square_size == 0 || x < self.off_x || y < self.off_y {
            return None;
        }
        let c: u32 = (x - self.off_x) / self.square_size;
        let r: u32 = (y - self.off_y) / self.square_size;
        if c < 4 && r < GRID_ROWS as u32 {
            Some((c, r))
        } else {
            None
        }
    }
}

} // verus!
