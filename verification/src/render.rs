use vstd::prelude::*;
use vstd::arithmetic::mul::lemma_mul_inequality;
use vstd::arithmetic::div_mod::{lemma_div_is_ordered, lemma_div_multiples_vanish};
use crate::geom::Mapper;
use crate::model::{
    Color, Location, LocatedPiece, Piece, SelectionState, Snapshot, Square, KIND_COUNT,
    SQUARE_COUNT,
};
use crate::regions::{spec_hand_color, spec_piece_radius, spec_square_at, piece_radius};
use crate::style::{Rgb, StrokeSpec, Style};

verus! {

/// A draw primitive, in paint order back to front: everything the view
/// tells the host toolkit to put on screen.
#[derive(PartialEq, Eq, Structural, Clone, Copy, Debug)]
pub enum DrawCmd {
    FillRect { x0: u32, y0: u32, x1: u32, y1: u32, color: Rgb },
    Circle { cx: u32, cy: u32, radius: u32, fill: Rgb, stroke: StrokeSpec },
    FillCircle { cx: u32, cy: u32, radius: u32, color: Rgb },
}

/// Radius in pixels of a legal-destination marker dot.
pub open spec fn spec_marker_radius(style: Style, s: u32) -> int {
    style.available_move_radius_tenths * s / 20
}

pub fn marker_radius(style: &Style, s: u32) -> (r: u32)
    requires
        style.wf(),
    ensures
        r as int == spec_marker_radius(*style, s),
{
    let t: u64 = style.available_move_radius_tenths as u64;
    proof {
        lemma_mul_inequality(t as int, 10, s as int);
        lemma_div_is_ordered(t as int * s as int, 10 * s as int, 20);
        lemma_div_multiples_vanish(s as int, 20);
        lemma_div_is_ordered(10 * s as int, 20 * s as int, 20);
    }
    ((t * s as u64) / 20) as u32
}

/// The checkered fill of the board square at index `k`: two fixed colors
/// by the parity of column plus row.
pub open spec fn spec_square_cmd(m: Mapper, style: Style, k: int) -> DrawCmd {
    let sq = spec_square_at(k);
    DrawCmd::FillRect {
        x0: m.spec_grid_x(sq.col as int) as u32,
        y0: m.spec_grid_y(sq.row as int + 1) as u32,
        x1: (m.spec_grid_x(sq.col as int) + m.square_size) as u32,
        y1: (m.spec_grid_y(sq.row as int + 1) + m.square_size) as u32,
        color: if sq.col % 2 == sq.row % 2 {
            style.light_square_color
        } else {
            style.dark_square_color
        },
    }
}

/// The circle of the topmost board piece `p` at square index `i`, stroked
/// with the highlight stroke exactly when that located piece is the
/// current selection.
pub open spec fn spec_board_piece_cmd(
    m: Mapper,
    style: Style,
    sel: SelectionState,
    i: int,
    p: Piece,
) -> DrawCmd {
    DrawCmd::Circle {
        cx: m.spec_board_center(spec_square_at(i)).0 as u32,
        cy: m.spec_board_center(spec_square_at(i)).1 as u32,
        radius: spec_piece_radius(style, p.kind, m.square_size) as u32,
        fill: style.piece_fill_color@[p.color.spec_index()],
        stroke: if sel == SelectionState::Selected(
            LocatedPiece { piece: p, location: Location::OnBoard(spec_square_at(i)) },
        ) {
            style.selected_piece_stroke
        } else {
            style.piece_stroke
        },
    }
}

/// The circles of the topmost board pieces of the squares before index
/// `i`, in square order, occupied squares only.
pub open spec fn spec_piece_cmds_upto(
    snap: Snapshot,
    m: Mapper,
    style: Style,
    sel: SelectionState,
    i: int,
) -> Seq<DrawCmd>
    decreases i,
{
    if i <= 0 {
        Seq::empty()
    } else {
        spec_piece_cmds_upto(snap, m, style, sel, i - 1) + match snap.board_tops@[i - 1] {
            Some(p) => seq![spec_board_piece_cmd(m, style, sel, i - 1, p)],
            None => Seq::empty(),
        }
    }
}

/// The circle of the topmost hand piece `p` in slot `j` of hand row `ci`.
pub open spec fn spec_hand_piece_cmd(
    m: Mapper,
    style: Style,
    sel: SelectionState,
    ci: int,
    j: int,
    p: Piece,
) -> DrawCmd {
    DrawCmd::Circle {
        cx: m.spec_hand_center(ci, j).0 as u32,
        cy: m.spec_hand_center(ci, j).1 as u32,
        radius: spec_piece_radius(style, p.kind, m.square_size) as u32,
        fill: style.piece_fill_color@[p.color.spec_index()],
        stroke: if sel == SelectionState::Selected(
            LocatedPiece { piece: p, location: Location::InHand(spec_hand_color(ci), j as usize) },
        ) {
            style.selected_piece_stroke
        } else {
            style.piece_stroke
        },
    }
}

/// The circles of the topmost hand pieces of the slots before flat index
/// `k`, occupied slots only.
pub open spec fn spec_hand_cmds_upto(
    snap: Snapshot,
    m: Mapper,
    style: Style,
    sel: SelectionState,
    k: int,
) -> Seq<DrawCmd>
    decreases k,
{
    if k <= 0 {
        Seq::empty()
    } else {
        spec_hand_cmds_upto(snap, m, style, sel, k - 1) + match snap.spec_hand_tops(
            spec_hand_color((k - 1) / 4),
        )[(k - 1) % 4] {
            Some(p) => seq![spec_hand_piece_cmd(m, style, sel, (k - 1) / 4, (k - 1) % 4, p)],
            None => Seq::empty(),
        }
    }
}

/// The marker dot drawn on one legal destination square.
pub open spec fn spec_marker_cmd(m: Mapper, style: Style, sq: Square) -> DrawCmd {
    DrawCmd::FillCircle {
        cx: m.spec_board_center(sq).0 as u32,
        cy: m.spec_board_center(sq).1 as u32,
        radius: spec_marker_radius(style, m.square_size) as u32,
        color: style.available_move_color,
    }
}

/// Pure renderer for one frame: the injected style table plus the frame's
/// geometry. It mutates nothing; every method returns draw primitives.
pub struct GamePainter {
    pub style: Style,
    pub mapper: Mapper,
}

impl GamePainter {
    pub open spec fn wf(self) -> bool {
        self.style.wf() && self.mapper.wf()
    }

    pub fn new(style: Style, mapper: Mapper) -> (gp: GamePainter)
        requires
            style.wf(),
            mapper.wf(),
        ensures
            gp.style == style,
            gp.mapper == mapper,
            gp.wf(),
    {
        GamePainter { style, mapper }
    }

    /// Whether this located piece is the one currently selected.
    pub fn is_selected(&self, piece: LocatedPiece, selected_piece: Option<LocatedPiece>) -> (r:
        bool)
        ensures
            r == (selected_piece == Some(piece)),
    {
        match selected_piece {
            Some(sel) => sel.location == piece.location && sel.piece == piece.piece,
            None => false,
        }
    }

    /// The sixteen board squares, checkered by the parity of their
    /// coordinates.
    pub fn paint_board(&self) -> (r: Vec<DrawCmd>)
        requires
            self.wf(),
        ensures
            r@ == Seq::new(
                SQUARE_COUNT as nat,
                |k: int| spec_square_cmd(self.mapper, self.style, k),
            ),
    {
        let mut r: Vec<DrawCmd> = Vec::new();
        for k in 0..SQUARE_COUNT
            invariant
                self.wf(),
                r@ =~= Seq::new(k as nat, |t: int| spec_square_cmd(self.mapper, self.style, t)),
        {
            let sq = Square::from_pos(k % 4, k / 4);
            assert(sq == spec_square_at(k as int));
            let color = if sq.col % 2 == sq.row % 2 {
                self.style.light_square_color
            } else {
                self.style.dark_square_color
            };
            let (x0, y0) = self.mapper.to_screen(sq.col as u32, sq.row as u32 + 1);
            proof {
                lemma_mul_inequality(sq.col as int, 3, self.mapper.square_size as int);
                lemma_mul_inequality(sq.row as int + 1, 5, self.mapper.square_size as int);
            }
            r.push(
                DrawCmd::FillRect {
                    x0,
                    y0,
                    x1: x0 + self.mapper.square_size,
                    y1: y0 + self.mapper.square_size,
                    color,
                },
            );
            assert(r@ =~= Seq::new(
                (k + 1) as nat,
                |t: int| spec_square_cmd(self.mapper, self.style, t),
            ));
        }
        r
    }

    /// A filled circle for the topmost piece of every occupied board
    /// stack, stroked with the highlight stroke exactly on the selected
    /// piece.
    pub fn paint_pieces(&self, snap: &Snapshot, sel: SelectionState) -> (r: Vec<DrawCmd>)
        requires
            self.wf(),
            snap.wf(),
        ensures
            r@ == spec_piece_cmds_upto(*snap, self.mapper, self.style, sel, SQUARE_COUNT as int),
    {
        let mut r: Vec<DrawCmd> = Vec::new();
        assert(r@ =~= spec_piece_cmds_upto(*snap, self.mapper, self.style, sel, 0));
        for i in 0..SQUARE_COUNT
            invariant
                self.wf(),
                snap.wf(),
                r@ =~= spec_piece_cmds_upto(*snap, self.mapper, self.style, sel, i as int),
        {
            let sq = Square::from_pos(i % 4, i / 4);
            assert(sq == spec_square_at(i as int));
            assert(sq.spec_idx() == i as int);
            match snap.top_at(sq) {
                Some(p) => {
                    let (cx, cy) = self.mapper.board_center(sq);
                    let radius = piece_radius(&self.style, p.kind, self.mapper.square_size);
                    let stroke = if self.is_selected(
                        LocatedPiece { piece: p, location: Location::OnBoard(sq) },
                        match sel {
                            SelectionState::Idle => None,
                            SelectionState::Selected(lp) => Some(lp),
                        },
                    ) {
                        self.style.selected_piece_stroke
                    } else {
                        self.style.piece_stroke
                    };
                    r.push(
                        DrawCmd::Circle {
                            cx,
                            cy,
                            radius,
                            fill: self.style.piece_fill_color[p.color.index()],
                            stroke,
                        },
                    );
                    assert(r@ =~= spec_piece_cmds_upto(
                        *snap,
                        self.mapper,
                        self.style,
                        sel,
                        i as int + 1,
                    ));
                },
                None => {
                    assert(r@ =~= spec_piece_cmds_upto(
                        *snap,
                        self.mapper,
                        self.style,
                        sel,
                        i as int + 1,
                    ));
                },
            }
        }
        r
    }

    /// A filled circle for the topmost piece of every occupied hand slot,
    /// Black's row above the board and White's below, highlighted exactly
    /// on the selected piece.
    pub fn paint_hands(&self, snap: &Snapshot, sel: SelectionState) -> (r: Vec<DrawCmd>)
        requires
            self.wf(),
            snap.wf(),
        ensures
            r@ == spec_hand_cmds_upto(*snap, self.mapper, self.style, sel, 2 * KIND_COUNT as int),
    {
        let mut r: Vec<DrawCmd> = Vec::new();
        assert(r@ =~= spec_hand_cmds_upto(*snap, self.mapper, self.style, sel, 0));
        for k in 0..2 * KIND_COUNT
            invariant
                self.wf(),
                snap.wf(),
                r@ =~= spec_hand_cmds_upto(*snap, self.mapper, self.style, sel, k as int),
        {
            let ci = k / 4;
            let j = k % 4;
            let color = if ci == 0 {
                Color::Black
            } else {
                Color::White
            };
            assert(color == spec_hand_color(k as int / 4));
            match snap.hand_top(color, j) {
                Some(p) => {
                    let (cx, cy) = self.mapper.hand_center(ci, j);
                    let radius = piece_radius(&self.style, p.kind, self.mapper.square_size);
                    let stroke = if self.is_selected(
                        LocatedPiece { piece: p, location: Location::InHand(color, j) },
                        match sel {
                            SelectionState::Idle => None,
                            SelectionState::Selected(lp) => Some(lp),
                        },
                    ) {
                        self.style.selected_piece_stroke
                    } else {
                        self.style.piece_stroke
                    };
                    r.push(
                        DrawCmd::Circle {
                            cx,
                            cy,
                            radius,
                            fill: self.style.piece_fill_color[p.color.index()],
                            stroke,
                        },
                    );
                    assert(r@ =~= spec_hand_cmds_upto(
                        *snap,
                        self.mapper,
                        self.style,
                        sel,
                        k as int + 1,
                    ));
                },
                None => {
                    assert(r@ =~= spec_hand_cmds_upto(
                        *snap,
                        self.mapper,
                        self.style,
                        sel,
                        k as int + 1,
                    ));
                },
            }
        }
        r
    }

    /// One marker dot per legal destination square. `legal` answers, per
    /// square index, the rules engine's legality query for the selected
    /// piece; with no selection nothing is drawn and the engine is never
    /// queried.
    pub fn paint_available_moves(&self, sel: SelectionState, legal: &Vec<bool>) -> (r: Vec<
        DrawCmd,
    >)
        requires
            self.wf(),
            sel is Selected ==> legal@.len() == SQUARE_COUNT,
        ensures
            sel is Idle ==> r@ == Seq::<DrawCmd>::empty(),
            sel is Selected ==> r@ == marker_squares_spec(legal@).map_values(
                |sq: Square| spec_marker_cmd(self.mapper, self.style, sq),
            ),
    {
        match sel {
            SelectionState::Idle => Vec::new(),
            SelectionState::Selected(_) => {
                let squares = marker_squares(legal);
                let mut r: Vec<DrawCmd> = Vec::new();
                let n = squares.len();
                let ghost mapped = marker_squares_spec(legal@).map_values(
                    |sq: Square| spec_marker_cmd(self.mapper, self.style, sq),
                );
                for i in 0..n
                    invariant
                        self.wf(),
                        n == squares@.len(),
                        squares@ == marker_squares_spec(legal@),
                        forall|t: int| 0 <= t < n ==> (#[trigger] squares@[t]).wf(),
                        mapped == marker_squares_spec(legal@).map_values(
                            |sq: Square| spec_marker_cmd(self.mapper, self.style, sq),
                        ),
                        r@ =~= mapped.take(i as int),
                {
                    let sq = squares[i];
                    let (cx, cy) = self.mapper.board_center(sq);
                    let radius = marker_radius(&self.style, self.mapper.square_size);
                    r.push(
                        DrawCmd::FillCircle {
                            cx,
                            cy,
                            radius,
                            color: self.style.available_move_color,
                        },
                    );
                    assert(r@ =~= mapped.take(i as int + 1));
                }
                assert(r@ =~= mapped);
                r
            },
        }
    }
}

/// The squares the legality vector marks, in board order.
pub open spec fn marker_squares_spec(legal: Seq<bool>) -> Seq<Square>
    decreases legal.len(),
{
    if legal.len() == 0 {
        Seq::empty()
    } else {
        marker_squares_spec(legal.drop_last()) + if legal.last() {
            seq![spec_square_at(legal.len() - 1)]
        } else {
            Seq::empty()
        }
    }
}

proof fn lemma_marker_squares_exact_upto(legal: Seq<bool>, k: int)
    requires
        legal.len() == SQUARE_COUNT,
        0 <= k <= SQUARE_COUNT,
    ensures
        forall|t: int|
            0 <= t < marker_squares_spec(legal.take(k)).len() ==> (#[trigger] marker_squares_spec(
                legal.take(k),
            )[t]).wf() && marker_squares_spec(legal.take(k))[t].spec_idx() < k && legal[
                marker_squares_spec(legal.take(k))[t].spec_idx()],
        forall|sq: Square|
            sq.wf() && sq.spec_idx() < k ==> (marker_squares_spec(legal.take(k)).contains(sq)
                <==> legal[sq.spec_idx()]),
    decreases k,
{
    if k > 0 {
        lemma_marker_squares_exact_upto(legal, k - 1);
        assert(legal.take(k).drop_last() =~= legal.take(k - 1));
        let prev = marker_squares_spec(legal.take(k - 1));
        let cur = marker_squares_spec(legal.take(k));
        assert(spec_square_at(k - 1).wf());
        assert(spec_square_at(k - 1).spec_idx() == k - 1);
        assert forall|sq: Square| sq.wf() && sq.spec_idx() < k implies (cur.contains(sq)
            <==> legal[sq.spec_idx()]) by {
            if sq.spec_idx() < k - 1 {
                if prev.contains(sq) {
                    let w = choose|w: int| 0 <= w < prev.len() && prev[w] == sq;
                    assert(cur[w] == sq);
                }
                if cur.contains(sq) {
                    let w = choose|w: int| 0 <= w < cur.len() && cur[w] == sq;
                    if w < prev.len() {
                        assert(prev[w] == sq);
                    }
                }
            } else {
                assert(sq == spec_square_at(k - 1));
                if legal[k - 1] {
                    assert(cur[cur.len() - 1] == sq);
                    assert(cur.contains(sq));
                } else {
                    if cur.contains(sq) {
                        let w = choose|w: int| 0 <= w < cur.len() && cur[w] == sq;
                        assert(prev[w] == sq);
                    }
                }
            }
        }
    }
}

/// The rendered legal-destination markers for a selected piece stand on
/// exactly the squares the legality vector marks: one marker per square
/// with a true entry, and none elsewhere.
pub proof fn lemma_marker_squares_exact(legal: Seq<bool>)
    requires
        legal.len() == SQUARE_COUNT,
    ensures
        forall|sq: Square|
            sq.wf() ==> (marker_squares_spec(legal).contains(sq) <==> legal[sq.spec_idx()]),
{
    lemma_marker_squares_exact_upto(legal, SQUARE_COUNT as int);
    assert(legal.take(SQUARE_COUNT as int) =~= legal);
}

/// The set of legal destination squares: exactly those whose entry of the
/// legality vector is true, each well formed, in board order.
pub fn marker_squares(legal: &Vec<bool>) -> (r: Vec<Square>)
    requires
        legal@.len() == SQUARE_COUNT,
    ensures
        r@ == marker_squares_spec(legal@),
        forall|t: int| 0 <= t < r@.len() ==> (#[trigger] r@[t]).wf(),
        forall|sq: Square| sq.wf() ==> (r@.contains(sq) <==> legal@[sq.spec_idx()]),
{
    let mut r: Vec<Square> = Vec::new();
    assert(legal@.take(0) =~= Seq::<bool>::empty());
    for k in 0..SQUARE_COUNT
        invariant
            legal@.len() == SQUARE_COUNT,
            r@ =~= marker_squares_spec(legal@.take(k as int)),
            forall|t: int|
                0 <= t < r@.len() ==> (#[trigger] r@[t]).wf() && legal@[r@[t].spec_idx()]
                    && r@[t].spec_idx() < k,
            forall|sq: Square|
                sq.wf() && sq.spec_idx() < k ==> (r@.contains(sq) <==> legal@[sq.spec_idx()]),
    {
        let ghost prev = r@;
        if legal[k] {
            let sq = Square::from_pos(k % 4, k / 4);
            assert(sq == spec_square_at(k as int));
            assert(sq.spec_idx() == k as int);
            r.push(sq);
        }
        proof {
            assert(legal@.take(k as int + 1).drop_last() =~= legal@.take(k as int));
            assert(r@ =~= marker_squares_spec(legal@.take(k as int + 1)));
            assert forall|sq: Square| sq.wf() && sq.spec_idx() < k + 1 implies (r@.contains(sq)
                <==> legal@[sq.spec_idx()]) by {
                if sq.spec_idx() < k {
                    if prev.contains(sq) {
                        let w = choose|w: int| 0 <= w < prev.len() && prev[w] == sq;
                        assert(r@[w] == sq);
                    }
                    if r@.contains(sq) {
                        let w = choose|w: int| 0 <= w < r@.len() && r@[w] == sq;
                        assert(w < prev.len());
                        assert(prev[w] == sq);
                    }
                } else {
                    assert(sq.spec_idx() == k as int);
                    assert(sq.col == k as int % 4 && sq.row == k as int / 4);
                    assert(sq == spec_square_at(k as int));
                    if legal@[k as int] {
                        assert(r@[r@.len() - 1] == sq);
                        assert(r@.contains(sq));
                    } else {
                        if r@.contains(sq) {
                            let w = choose|w: int| 0 <= w < r@.len() && r@[w] == sq;
                            assert(legal@[r@[w].spec_idx()]);
                        }
                    }
                }
            }
        }
    }
    proof {
        assert(legal@.take(SQUARE_COUNT as int) =~= legal@);
    }
    r
}

} // verus!
