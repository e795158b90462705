use vstd::prelude::*;
use crate::geom::Mapper;
use crate::machine::{selection_consistent, spec_step, BoardView, PendingAction};
use crate::model::{
    hit_consistent, Hit, Location, Piece, SelectionState, Snapshot, KIND_COUNT, SQUARE_COUNT,
};
use crate::regions::{build_regions, resolve_click, spec_catalog, spec_hit_of, spec_resolve};
use crate::render::{
    marker_squares_spec, spec_hand_cmds_upto, spec_marker_cmd, spec_piece_cmds_upto,
    spec_square_cmd, DrawCmd, GamePainter,
};
use crate::style::Style;

verus! {

/// Which legality predicate of the rules engine the frame's markers need:
/// `canMove` for a selection that sits on the board, `canPlace` for one
/// that sits in the hand — never both for one selection.
#[derive(PartialEq, Eq, Structural, Clone, Copy, Debug)]
pub enum LegalityQuery {
    CanMove(Piece),
    CanPlace(Piece),
}

/// The hit the frame's click resolves to: the pointer position against the
/// catalog the snapshot and canvas size give, or no hit without a click.
pub open spec fn spec_frame_hit(
    snap: Snapshot,
    style: Style,
    w: u32,
    h: u32,
    click: Option<(u32, u32)>,
) -> Hit {
    match click {
        None => Hit::NoHit,
        Some(p) => spec_resolve(
            spec_catalog(snap, Mapper::spec_new(w, h), style),
            p.0 as int,
            p.1 as int,
        ),
    }
}

impl BoardView {
    /// One frame's input handling, start to finish: recompute the frame's
    /// geometry from the canvas size, build the clickable regions, resolve
    /// the click (if any) to at most one activated region, and step the
    /// selection state machine on it. Hands back the at most one action the
    /// rules engine should run, to be settled through `settle`.
    pub fn step_click(
        &mut self,
        snap: &Snapshot,
        style: &Style,
        w: u32,
        h: u32,
        click: Option<(u32, u32)>,
    ) -> (pending: Option<PendingAction>)
        requires
            old(self).wf(),
            snap.wf(),
            style.wf(),
        ensures
            final(self).wf(),
            (final(self).selection, pending) == spec_step(
                old(self).selection,
                *snap,
                spec_frame_hit(*snap, *style, w, h, click),
            ),
            hit_consistent(*snap, spec_frame_hit(*snap, *style, w, h, click)),
            pending is Some ==> (pending->Some_0.target.wf() && final(self).selection == old(
                self,
            ).selection),
            selection_consistent(old(self).selection, *snap) ==> selection_consistent(
                final(self).selection,
                *snap,
            ),
    {
        let hit: Hit = match click {
            None => Hit::NoHit,
            Some(p) => {
                let m = Mapper::new(w, h);
                let regions = build_regions(snap, &m, style);
                let resolved = resolve_click(&regions, p.0, p.1);
                proof {
                    if resolved != Hit::NoHit {
                        let j = choose|j: int|
                            0 <= j < regions@.len() && resolved == spec_hit_of(regions@[j].kind);
                        assert(regions@[j].kind.wf());
                        assert(regions@[j].kind.consistent_with(*snap));
                        assert(resolved.wf());
                        assert(hit_consistent(*snap, resolved));
                    }
                }
                resolved
            },
        };
        self.handle_hit(snap, hit)
    }

    /// The one legality query the frame's markers need, by the origin of
    /// the current selection; none when nothing is selected.
    pub fn marker_query(&self) -> (q: Option<LegalityQuery>)
        ensures
            q == (match self.selection {
                SelectionState::Idle => None::<LegalityQuery>,
                SelectionState::Selected(lp) => match lp.location {
                    Location::OnBoard(_) => Some(LegalityQuery::CanMove(lp.piece)),
                    Location::InHand(_, _) => Some(LegalityQuery::CanPlace(lp.piece)),
                },
            }),
    {
        match self.selection {
            SelectionState::Idle => None,
            SelectionState::Selected(lp) => match lp.location {
                Location::OnBoard(_) => Some(LegalityQuery::CanMove(lp.piece)),
                Location::InHand(_, _) => Some(LegalityQuery::CanPlace(lp.piece)),
            },
        }
    }
}

/// Every draw primitive one frame owes the host, back to front: checkered
/// board squares, visible board pieces, visible hand pieces, and one
/// marker dot per legal destination of the selected piece.
pub open spec fn spec_render_frame(
    snap: Snapshot,
    m: Mapper,
    style: Style,
    sel: SelectionState,
    legal: Seq<bool>,
) -> Seq<DrawCmd> {
    Seq::new(SQUARE_COUNT as nat, |k: int| spec_square_cmd(m, style, k)) + spec_piece_cmds_upto(
        snap,
        m,
        style,
        sel,
        SQUARE_COUNT as int,
    ) + spec_hand_cmds_upto(snap, m, style, sel, 2 * KIND_COUNT as int) + if sel
        is Selected {
        marker_squares_spec(legal).map_values(|sq| spec_marker_cmd(m, style, sq))
    } else {
        Seq::empty()
    }
}

/// Render one frame, reflecting the (already updated) selection: pure,
/// mutating nothing. `legal` answers the frame's `marker_query` per square
/// index; it is ignored while nothing is selected.
pub fn render_frame(
    painter: &GamePainter,
    snap: &Snapshot,
    sel: SelectionState,
    legal: &Vec<bool>,
) -> (r: Vec<DrawCmd>)
    requires
        painter.wf(),
        snap.wf(),
        sel is Selected ==> legal@.len() == SQUARE_COUNT,
    ensures
        r@ == spec_render_frame(*snap, painter.mapper, painter.style, sel, legal@),
{
    let mut r = painter.paint_board();
    let mut pieces = painter.paint_pieces(snap, sel);
    let mut hands = painter.paint_hands(snap, sel);
    let mut markers = painter.paint_available_moves(sel, legal);
    r.append(&mut pieces);
    r.append(&mut hands);
    r.append(&mut markers);
    proof {
        assert(r@ =~= spec_render_frame(*snap, painter.mapper, painter.style, sel, legal@));
    }
    r
}

} // verus!
