use vstd::prelude::*;
use vstd::arithmetic::mul::lemma_mul_inequality;
use vstd::arithmetic::div_mod::{lemma_div_is_ordered, lemma_div_multiples_vanish};
use crate::geom::{Mapper, Shape};
use crate::model::{
    Color, Hit, Location, LocatedPiece, Piece, PieceKind, Snapshot, Square, KIND_COUNT,
    SQUARE_COUNT,
};
use crate::style::Style;

verus! {

/// What a clickable region stands for. The priority order of the resolver
/// is background < board square < piece on board < piece in hand.
#[derive(PartialEq, Eq, Structural, Clone, Copy, Debug)]
pub enum RegionKind {
    Background,
    BoardSquare(Square),
    BoardPiece(LocatedPiece),
    HandPiece(LocatedPiece),
}

/// Stable identity of a region, derived from its kind and indices alone,
/// never from per-frame data, so the host toolkit attributes clicks to the
/// same region across frames while the layout is unchanged.
#[derive(PartialEq, Eq, Structural, Clone, Copy, Debug)]
pub struct RegionId {
    pub layer: u32,
    pub a: u32,
    pub b: u32,
}

impl RegionKind {
    pub open spec fn wf(self) -> bool {
        match self {
            RegionKind::Background => true,
            RegionKind::BoardSquare(sq) => sq.wf(),
            RegionKind::BoardPiece(lp) => lp.wf() && lp.location is OnBoard,
            RegionKind::HandPiece(lp) => lp.wf() && lp.location is InHand,
        }
    }

    /// A piece region stands for the topmost piece of the stack or slot it
    /// was built from, a square region for a real board square.
    pub open spec fn consistent_with(self, snap: Snapshot) -> bool {
        match self {
            RegionKind::Background => true,
            RegionKind::BoardSquare(sq) => sq.wf(),
            RegionKind::BoardPiece(lp) => match lp.location {
                Location::OnBoard(sq) => sq.wf() && snap.spec_top_at(sq) == Some(lp.piece),
                Location::InHand(_, _) => false,
            },
            RegionKind::HandPiece(lp) => match lp.location {
                Location::InHand(c, j) => 0 <= j < KIND_COUNT && snap.spec_hand_tops(c)[j as int]
                    == Some(lp.piece),
                Location::OnBoard(_) => false,
            },
        }
    }

    /// Resolution priority: later-drawn, smaller, more specific regions
    /// take precedence over the larger ones they are drawn atop.
    pub open spec fn spec_priority(self) -> int {
        match self {
            RegionKind::Background => 0,
            RegionKind::BoardSquare(_) => 1,
            RegionKind::BoardPiece(_) => 2,
            RegionKind::HandPiece(_) => 3,
        }
    }

    pub fn priority(self) -> (p: u32)
        ensures
            p == self.spec_priority(),
    {
        match self {
            RegionKind::Background => 0,
            RegionKind::BoardSquare(_) => 1,
            RegionKind::BoardPiece(_) => 2,
            RegionKind::HandPiece(_) => 3,
        }
    }

    /// The identity owed to the region: its kind's discriminant and its
    /// indices. The piece value itself takes no part.
    pub open spec fn spec_id(self) -> RegionId {
        match self {
            RegionKind::Background => RegionId { layer: 0, a: 0, b: 0 },
            RegionKind::BoardSquare(sq) => RegionId { layer: 1, a: sq.col as u32, b: sq.row as u32 },
            RegionKind::BoardPiece(lp) => match lp.location {
                Location::OnBoard(sq) => RegionId { layer: 2, a: sq.col as u32, b: sq.row as u32 },
                Location::InHand(_, _) => RegionId { layer: 2, a: 0, b: 0 },
            },
            RegionKind::HandPiece(lp) => match lp.location {
                Location::InHand(c, j) => RegionId { layer: 3, a: c.spec_index() as u32, b: j as u32 },
                Location::OnBoard(_) => RegionId { layer: 3, a: 0, b: 0 },
            },
        }
    }

    pub fn id(self) -> (r: RegionId)
        requires
            self.wf(),
        ensures
            r == self.spec_id(),
    {
        match self {
            RegionKind::Background => RegionId { layer: 0, a: 0, b: 0 },
            RegionKind::BoardSquare(sq) => RegionId {
                layer: 1,
                a: sq.col as u32,
                b: sq.row as u32,
            },
            RegionKind::BoardPiece(lp) => match lp.location {
                Location::OnBoard(sq) => RegionId { layer: 2, a: sq.col as u32, b: sq.row as u32 },
                Location::InHand(_, _) => RegionId { layer: 2, a: 0, b: 0 },
            },
            RegionKind::HandPiece(lp) => match lp.location {
                Location::InHand(c, j) => RegionId { layer: 3, a: c.index() as u32, b: j as u32 },
                Location::OnBoard(_) => RegionId { layer: 3, a: 0, b: 0 },
            },
        }
    }
}

/// Two well-formed region kinds with the same identity name the same
/// place: the same kind of region at the same square or slot. (The piece
/// value is deliberately not part of the identity.)
pub proof fn lemma_region_id_names_one_place(k1: RegionKind, k2: RegionKind)
    requires
        k1.wf(),
        k2.wf(),
        k1.spec_id() == k2.spec_id(),
    ensures
        match (k1, k2) {
            (RegionKind::Background, RegionKind::Background) => true,
            (RegionKind::BoardSquare(s1), RegionKind::BoardSquare(s2)) => s1 == s2,
            (RegionKind::BoardPiece(l1), RegionKind::BoardPiece(l2)) => l1.location == l2.location,
            (RegionKind::HandPiece(l1), RegionKind::HandPiece(l2)) => l1.location == l2.location,
            _ => false,
        },
{
}

/// One clickable region of a frame: what it stands for and where it is.
#[derive(PartialEq, Eq, Structural, Clone, Copy, Debug)]
pub struct Region {
    pub kind: RegionKind,
    pub shape: Shape,
}

/// The board square at row-major index `i`.
pub open spec fn spec_square_at(i: int) -> Square {
    Square { col: (i % 4) as u8, row: (i / 4) as u8 }
}

/// Radius in pixels of the circle of a piece of the given kind: half of
/// the configured diameter ratio of one square's side.
pub open spec fn spec_piece_radius(style: Style, kind: PieceKind, s: u32) -> int {
    style.piece_radius_tenths@[kind.spec_index()] * s / 20
}

pub fn piece_radius(style: &Style, kind: PieceKind, s: u32) -> (r: u32)
    requires
        style.wf(),
    ensures
        r as int == spec_piece_radius(*style, kind, s),
{
    let t: u64 = style.piece_radius_tenths[kind.index()] as u64;
    proof {
        lemma_mul_inequality(t as int, 10, s as int);
        lemma_div_is_ordered(t as int * s as int, 10 * s as int, 20);
        lemma_div_multiples_vanish(s as int, 20);
        lemma_div_is_ordered(10 * s as int, 20 * s as int, 20);
    }
    ((t * s as u64) / 20) as u32
}

/// The full-canvas background region, lowest priority.
pub open spec fn spec_background_region(m: Mapper) -> Region {
    Region {
        kind: RegionKind::Background,
        shape: Shape::Rect { x0: 0, y0: 0, x1: m.canvas_w, y1: m.canvas_h },
    }
}

/// The rectangular region of the board square at index `i`.
pub open spec fn spec_square_region(m: Mapper, i: int) -> Region {
    Region {
        kind: RegionKind::BoardSquare(spec_square_at(i)),
        shape: m.spec_square_rect(spec_square_at(i)),
    }
}

/// The circular region of the topmost board piece `p` at square index `i`.
pub open spec fn spec_board_piece_region(m: Mapper, style: Style, i: int, p: Piece) -> Region {
    Region {
        kind: RegionKind::BoardPiece(
            LocatedPiece { piece: p, location: Location::OnBoard(spec_square_at(i)) },
        ),
        shape: Shape::Circle {
            cx: m.spec_board_center(spec_square_at(i)).0 as u32,
            cy: m.spec_board_center(spec_square_at(i)).1 as u32,
            radius: spec_piece_radius(style, p.kind, m.square_size) as u32,
        },
    }
}

/// The color whose hand row has table index `ci`: Black above the board,
/// White below.
pub open spec fn spec_hand_color(ci: int) -> Color {
    if ci == 0 {
        Color::Black
    } else {
        Color::White
    }
}

/// The circular region of the topmost hand piece `p` in slot `j` of the
/// hand with row index `ci`.
pub open spec fn spec_hand_piece_region(
    m: Mapper,
    style: Style,
    ci: int,
    j: int,
    p: Piece,
) -> Region {
    Region {
        kind: RegionKind::HandPiece(
            LocatedPiece { piece: p, location: Location::InHand(spec_hand_color(ci), j as usize) },
        ),
        shape: Shape::Circle {
            cx: m.spec_hand_center(ci, j).0 as u32,
            cy: m.spec_hand_center(ci, j).1 as u32,
            radius: spec_piece_radius(style, p.kind, m.square_size) as u32,
        },
    }
}

/// Regions of the topmost board pieces of the squares before index `i`,
/// in square order, occupied squares only.
pub open spec fn spec_board_piece_regions_upto(
    snap: Snapshot,
    m: Mapper,
    style: Style,
    i: int,
) -> Seq<Region>
    decreases i,
{
    if i <= 0 {
        Seq::empty()
    } else {
        spec_board_piece_regions_upto(snap, m, style, i - 1) + match snap.board_tops@[i - 1] {
            Some(p) => seq![spec_board_piece_region(m, style, i - 1, p)],
            None => Seq::empty(),
        }
    }
}

/// Regions of the topmost hand pieces of the slots before flat index `k`
/// (`k / 4` names the hand row, `k % 4` the slot), occupied slots only.
pub open spec fn spec_hand_piece_regions_upto(
    snap: Snapshot,
    m: Mapper,
    style: Style,
    k: int,
) -> Seq<Region>
    decreases k,
{
    if k <= 0 {
        Seq::empty()
    } else {
        spec_hand_piece_regions_upto(snap, m, style, k - 1) + match snap.spec_hand_tops(
            spec_hand_color((k - 1) / 4),
        )[(k - 1) % 4] {
            Some(p) => seq![spec_hand_piece_region(m, style, (k - 1) / 4, (k - 1) % 4, p)],
            None => Seq::empty(),
        }
    }
}

/// Every clickable region of one frame, in z-order from back to front:
/// the background, the sixteen board squares, the visible board pieces,
/// then the visible hand pieces.
pub open spec fn spec_catalog(snap: Snapshot, m: Mapper, style: Style) -> Seq<Region> {
    seq![spec_background_region(m)] + Seq::new(SQUARE_COUNT as nat, |i: int| spec_square_region(m, i))
        + spec_board_piece_regions_upto(snap, m, style, SQUARE_COUNT as int)
        + spec_hand_piece_regions_upto(snap, m, style, 2 * KIND_COUNT as int)
}

/// Build the frame's clickable regions from the engine snapshot and the
/// frame's geometry.
pub fn build_regions(snap: &Snapshot, m: &Mapper, style: &Style) -> (r: Vec<Region>)
    requires
        snap.wf(),
        m.wf(),
        style.wf(),
    ensures
        r@ == spec_catalog(*snap, *m, *style),
        forall|i: int|
            0 <= i < r@.len() ==> (#[trigger] r@[i].kind).wf() && r@[i].kind.consistent_with(*snap),
{
    let mut r: Vec<Region> = Vec::new();
    r.push(
        Region {
            kind: RegionKind::Background,
            shape: Shape::Rect { x0: 0, y0: 0, x1: m.canvas_w, y1: m.canvas_h },
        },
    );
    let ghost base0: Seq<Region> = seq![spec_background_region(*m)];
    assert(r@ =~= base0);
    for i in 0..SQUARE_COUNT
        invariant
            snap.wf(),
            m.wf(),
            style.wf(),
            r@ =~= base0 + Seq::new(i as nat, |j: int| spec_square_region(*m, j)),
            forall|t: int|
                0 <= t < r@.len() ==> (#[trigger] r@[t].kind).wf() && r@[t].kind.consistent_with(
                    *snap,
                ),
    {
        let sq = Square::from_pos(i % 4, i / 4);
        assert(sq == spec_square_at(i as int));
        r.push(Region { kind: RegionKind::BoardSquare(sq), shape: m.square_rect(sq) });
        assert(r@ =~= base0 + Seq::new((i + 1) as nat, |j: int| spec_square_region(*m, j)));
    }
    let ghost base1: Seq<Region> = base0 + Seq::new(
        SQUARE_COUNT as nat,
        |j: int| spec_square_region(*m, j),
    );
    for i in 0..SQUARE_COUNT
        invariant
            snap.wf(),
            m.wf(),
            style.wf(),
            r@ =~= base1 + spec_board_piece_regions_upto(*snap, *m, *style, i as int),
            forall|t: int|
                0 <= t < r@.len() ==> (#[trigger] r@[t].kind).wf() && r@[t].kind.consistent_with(
                    *snap,
                ),
    {
        let sq = Square::from_pos(i % 4, i / 4);
        assert(sq == spec_square_at(i as int));
        assert(sq.spec_idx() == i as int);
        match snap.top_at(sq) {
            Some(p) => {
                let (cx, cy) = m.board_center(sq);
                let radius = piece_radius(style, p.kind, m.square_size);
                r.push(
                    Region {
                        kind: RegionKind::BoardPiece(
                            LocatedPiece { piece: p, location: Location::OnBoard(sq) },
                        ),
                        shape: Shape::Circle { cx, cy, radius },
                    },
                );
                assert(r@ =~= base1 + spec_board_piece_regions_upto(
                    *snap,
                    *m,
                    *style,
                    i as int + 1,
                ));
            },
            None => {
                assert(r@ =~= base1 + spec_board_piece_regions_upto(
                    *snap,
                    *m,
                    *style,
                    i as int + 1,
                ));
            },
        }
    }
    let ghost base2: Seq<Region> = base1 + spec_board_piece_regions_upto(
        *snap,
        *m,
        *style,
        SQUARE_COUNT as int,
    );
    for k in 0..2 * KIND_COUNT
        invariant
            snap.wf(),
            m.wf(),
            style.wf(),
            r@ =~= base2 + spec_hand_piece_regions_upto(*snap, *m, *style, k as int),
            forall|t: int|
                0 <= t < r@.len() ==> (#[trigger] r@[t].kind).wf() && r@[t].kind.consistent_with(
                    *snap,
                ),
    {
        let ci = k / 4;
        let j = k % 4;
        let color = if ci == 0 {
            Color::Black
        } else {
            Color::White
        };
        assert(color == spec_hand_color(k as int / 4));
        match snap.hand_top(color, j) {
            Some(p) => {
                let (cx, cy) = m.hand_center(ci, j);
                let radius = piece_radius(style, p.kind, m.square_size);
                r.push(
                    Region {
                        kind: RegionKind::HandPiece(
                            LocatedPiece { piece: p, location: Location::InHand(color, j) },
                        ),
                        shape: Shape::Circle { cx, cy, radius },
                    },
                );
                assert(r@ =~= base2 + spec_hand_piece_regions_upto(
                    *snap,
                    *m,
                    *style,
                    k as int + 1,
                ));
            },
            None => {
                assert(r@ =~= base2 + spec_hand_piece_regions_upto(
                    *snap,
                    *m,
                    *style,
                    k as int + 1,
                ));
            },
        }
    }
    proof {
        assert(r@ =~= spec_catalog(*snap, *m, *style));
    }
    r
}

/// The board square a board-piece region stands on (a dummy square for
/// any other region).
spec fn piece_region_square(r: Region) -> Square {
    match r.kind {
        RegionKind::BoardPiece(lp) => match lp.location {
            Location::OnBoard(sq) => sq,
            Location::InHand(_, _) => Square { col: 0, row: 0 },
        },
        _ => Square { col: 0, row: 0 },
    }
}

/// The flat slot index a hand-piece region stands on: hand row times the
/// slot count plus the slot (or -1 for any other region).
spec fn hand_region_flat(r: Region) -> int {
    match r.kind {
        RegionKind::HandPiece(lp) => match lp.location {
            Location::InHand(c, j) => c.spec_index() * 4 + j,
            Location::OnBoard(_) => -1,
        },
        _ => -1,
    }
}

proof fn lemma_board_piece_regions_shape(snap: Snapshot, m: Mapper, style: Style, i: int)
    requires
        snap.wf(),
        0 <= i <= SQUARE_COUNT,
    ensures
        forall|t: int|
            0 <= t < spec_board_piece_regions_upto(snap, m, style, i).len() ==> {
                let r = #[trigger] spec_board_piece_regions_upto(snap, m, style, i)[t];
                r.kind is BoardPiece && piece_region_square(r).wf() && piece_region_square(
                    r,
                ).spec_idx() < i
            },
        forall|t1: int, t2: int|
            0 <= t1 < t2 < spec_board_piece_regions_upto(snap, m, style, i).len()
                ==> piece_region_square(
                #[trigger] spec_board_piece_regions_upto(snap, m, style, i)[t1],
            ).spec_idx() < piece_region_square(
                #[trigger] spec_board_piece_regions_upto(snap, m, style, i)[t2],
            ).spec_idx(),
    decreases i,
{
    if i > 0 {
        lemma_board_piece_regions_shape(snap, m, style, i - 1);
    }
}

proof fn lemma_hand_piece_regions_shape(snap: Snapshot, m: Mapper, style: Style, k: int)
    requires
        snap.wf(),
        0 <= k <= 2 * KIND_COUNT,
    ensures
        forall|t: int|
            0 <= t < spec_hand_piece_regions_upto(snap, m, style, k).len() ==> {
                let r = #[trigger] spec_hand_piece_regions_upto(snap, m, style, k)[t];
                r.kind is HandPiece && 0 <= hand_region_flat(r) < k
            },
        forall|t1: int, t2: int|
            0 <= t1 < t2 < spec_hand_piece_regions_upto(snap, m, style, k).len()
                ==> hand_region_flat(
                #[trigger] spec_hand_piece_regions_upto(snap, m, style, k)[t1],
            ) < hand_region_flat(#[trigger] spec_hand_piece_regions_upto(snap, m, style, k)[t2]),
    decreases k,
{
    if k > 0 {
        lemma_hand_piece_regions_shape(snap, m, style, k - 1);
    }
}

/// No two regions of one frame's catalog share an identity, so the host
/// toolkit can attribute a click to exactly one region and never confuses
/// two regions while the layout is unchanged.
pub proof fn lemma_catalog_ids_distinct(snap: Snapshot, m: Mapper, style: Style)
    requires
        snap.wf(),
    ensures
        forall|i: int, j: int|
            0 <= i < j < spec_catalog(snap, m, style).len() ==> (#[trigger] spec_catalog(
                snap,
                m,
                style,
            )[i]).kind.spec_id() != (#[trigger] spec_catalog(snap, m, style)[j]).kind.spec_id(),
{
    let cat = spec_catalog(snap, m, style);
    let bg = seq![spec_background_region(m)];
    let squares = Seq::new(SQUARE_COUNT as nat, |i: int| spec_square_region(m, i));
    let pieces = spec_board_piece_regions_upto(snap, m, style, SQUARE_COUNT as int);
    let hands = spec_hand_piece_regions_upto(snap, m, style, 2 * KIND_COUNT as int);
    lemma_board_piece_regions_shape(snap, m, style, SQUARE_COUNT as int);
    lemma_hand_piece_regions_shape(snap, m, style, 2 * KIND_COUNT as int);
    assert forall|i: int, j: int| 0 <= i < j < cat.len() implies (#[trigger] cat[i]).kind.spec_id()
        != (#[trigger] cat[j]).kind.spec_id() by {
        let sq_start: int = 1;
        let pieces_start = sq_start + squares.len() as int;
        let hands_start = pieces_start + pieces.len() as int;
        assert(cat.len() == hands_start + hands.len());
        if i >= pieces_start && i < hands_start {
            assert(cat[i] == pieces[i - pieces_start]);
        }
        if j >= pieces_start && j < hands_start {
            assert(cat[j] == pieces[j - pieces_start]);
        }
        if i >= hands_start {
            assert(cat[i] == hands[i - hands_start]);
        }
        if j >= hands_start {
            assert(cat[j] == hands[j - hands_start]);
        }
        if i >= sq_start && i < pieces_start {
            assert(cat[i] == squares[i - sq_start]);
        }
        if j >= sq_start && j < pieces_start {
            assert(cat[j] == squares[j - sq_start]);
        }
        if i == 0 {
            assert(cat[i] == bg[0]);
        }
        // Regions of different classes differ in the identity's layer;
        // within a class the identity recovers the square or slot, and
        // those are strictly ordered by construction.
        if sq_start <= i < pieces_start && sq_start <= j < pieces_start {
            let a = i - sq_start;
            let b = j - sq_start;
            assert(spec_square_at(a).spec_idx() == a);
            assert(spec_square_at(b).spec_idx() == b);
        } else if pieces_start <= i < hands_start && pieces_start <= j < hands_start {
            let s1 = piece_region_square(pieces[i - pieces_start]);
            let s2 = piece_region_square(pieces[j - pieces_start]);
            assert(s1.spec_idx() < s2.spec_idx());
        } else if i >= hands_start && j >= hands_start {
            let f1 = hand_region_flat(hands[i - hands_start]);
            let f2 = hand_region_flat(hands[j - hands_start]);
            assert(f1 < f2);
        }
    }
}

/// The best region for a point among the regions seen so far: a region
/// containing the point replaces the best only with a strictly higher
/// priority, so among equal priorities the earliest built wins.
pub open spec fn spec_best(rs: Seq<Region>, x: int, y: int) -> Option<RegionKind>
    decreases rs.len(),
{
    if rs.len() == 0 {
        None
    } else {
        let prev = spec_best(rs.drop_last(), x, y);
        let last = rs.last();
        if last.shape.spec_contains(x, y) && (prev is None || last.kind.spec_priority()
            > prev->Some_0.spec_priority()) {
            Some(last.kind)
        } else {
            prev
        }
    }
}

/// The resolver's one activated region is frontmost: when nothing fires,
/// no region contains the point at all; when a region fires, some region
/// of that kind contains the point and no containing region outranks it.
/// So a click on a piece never also registers on the square beneath it.
pub proof fn lemma_resolved_hit_is_frontmost(rs: Seq<Region>, x: int, y: int)
    ensures
        spec_best(rs, x, y) is None ==> forall|i: int|
            0 <= i < rs.len() ==> !(#[trigger] rs[i].shape).spec_contains(x, y),
        spec_best(rs, x, y) matches Some(k) ==> {
            &&& exists|i: int|
                0 <= i < rs.len() && (#[trigger] rs[i].kind) == k && rs[i].shape.spec_contains(
                    x,
                    y,
                )
            &&& forall|i: int|
                0 <= i < rs.len() && (#[trigger] rs[i].shape).spec_contains(x, y)
                    ==> rs[i].kind.spec_priority() <= k.spec_priority()
        },
    decreases rs.len(),
{
    if rs.len() > 0 {
        let init = rs.drop_last();
        lemma_resolved_hit_is_frontmost(init, x, y);
        assert(forall|i: int| 0 <= i < rs.len() - 1 ==> init[i] == rs[i]);
        let prev = spec_best(init, x, y);
        let last = rs.last();
        match spec_best(rs, x, y) {
            None => {
                assert forall|i: int| 0 <= i < rs.len() implies !(#[trigger] rs[i].shape)
                    .spec_contains(x, y) by {
                    if i < rs.len() - 1 {
                        assert(!init[i].shape.spec_contains(x, y));
                    }
                }
            },
            Some(k) => {
                if last.shape.spec_contains(x, y) && (prev is None || last.kind.spec_priority()
                    > prev->Some_0.spec_priority()) {
                    assert(rs[rs.len() - 1].kind == k && rs[rs.len() - 1].shape.spec_contains(
                        x,
                        y,
                    ));
                    assert forall|i: int|
                        0 <= i < rs.len() && (#[trigger] rs[i].shape).spec_contains(x, y) implies
                        rs[i].kind.spec_priority() <= k.spec_priority() by {
                        if i < rs.len() - 1 {
                            assert(init[i].shape.spec_contains(x, y));
                        }
                    }
                } else {
                    assert(prev == Some(k));
                    let w = choose|w: int|
                        0 <= w < init.len() && (#[trigger] init[w].kind) == k
                            && init[w].shape.spec_contains(x, y);
                    assert(rs[w].kind == k && rs[w].shape.spec_contains(x, y));
                    assert forall|i: int|
                        0 <= i < rs.len() && (#[trigger] rs[i].shape).spec_contains(x, y) implies
                        rs[i].kind.spec_priority() <= k.spec_priority() by {
                        if i < rs.len() - 1 {
                            assert(init[i].shape.spec_contains(x, y));
                        }
                    }
                }
            },
        }
    }
}

/// A click inside the canvas always activates some region: the
/// full-canvas background region is the floor, so only coordinates outside
/// the canvas resolve to no hit at all.
pub proof fn lemma_click_in_canvas_always_hits(
    snap: Snapshot,
    m: Mapper,
    style: Style,
    x: int,
    y: int,
)
    requires
        0 <= x < m.canvas_w,
        0 <= y < m.canvas_h,
    ensures
        spec_resolve(spec_catalog(snap, m, style), x, y) != Hit::NoHit,
{
    let cat = spec_catalog(snap, m, style);
    assert(cat[0] == spec_background_region(m));
    assert(cat[0].shape.spec_contains(x, y));
    lemma_resolved_hit_is_frontmost(cat, x, y);
    assert(spec_best(cat, x, y) is Some);
}

/// The hit a resolved region kind reports.
pub open spec fn spec_hit_of(k: RegionKind) -> Hit {
    match k {
        RegionKind::Background => Hit::Background,
        RegionKind::BoardSquare(sq) => Hit::BoardSquare(sq),
        RegionKind::BoardPiece(lp) => Hit::BoardPiece(lp),
        RegionKind::HandPiece(lp) => Hit::HandPiece(lp),
    }
}

/// The at most one activated region of a click at `(x, y)`.
pub open spec fn spec_resolve(rs: Seq<Region>, x: int, y: int) -> Hit {
    match spec_best(rs, x, y) {
        None => Hit::NoHit,
        Some(k) => spec_hit_of(k),
    }
}

/// Resolve the frame's click against the regions in a single pass: of all
/// regions containing the point, the one of highest priority fires, ties
/// going to the earliest built — so a click on a piece never also
/// registers on the square underneath it. A point outside every region
/// (malformed or out-of-range coordinates included) resolves to no hit.
pub fn resolve_click(regions: &Vec<Region>, x: u32, y: u32) -> (h: Hit)
    ensures
        h == spec_resolve(regions@, x as int, y as int),
        h == Hit::NoHit || exists|j: int|
            0 <= j < regions@.len() && h == spec_hit_of(#[trigger] regions@[j].kind),
{
    let mut best: Option<RegionKind> = None;
    let n = regions.len();
    assert(regions@.take(0) =~= Seq::<Region>::empty());
    for idx in 0..n
        invariant
            n == regions@.len(),
            best == spec_best(regions@.take(idx as int), x as int, y as int),
            best matches Some(k) ==> exists|j: int|
                0 <= j < idx && k == (#[trigger] regions@[j].kind),
    {
        let reg = regions[idx];
        let better = match best {
            None => true,
            Some(k) => reg.kind.priority() > k.priority(),
        };
        proof {
            assert(regions@.take(idx as int + 1).drop_last() =~= regions@.take(idx as int));
            assert(regions@.take(idx as int + 1).last() == regions@[idx as int]);
        }
        if reg.shape.contains(x, y) && better {
            best = Some(reg.kind);
        }
    }
    assert(regions@.take(n as int) =~= regions@);
    match best {
        None => Hit::NoHit,
        Some(k) => match k {
            RegionKind::Background => Hit::Background,
            RegionKind::BoardSquare(sq) => Hit::BoardSquare(sq),
            RegionKind::BoardPiece(lp) => Hit::BoardPiece(lp),
            RegionKind::HandPiece(lp) => Hit::HandPiece(lp),
        },
    }
}

} // verus!
