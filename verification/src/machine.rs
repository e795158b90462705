use vstd::prelude::*;
use crate::model::{
    hit_consistent, Action, GameStatus, Hit, Location, LocatedPiece, SelectionState, Snapshot,
    Square, KIND_COUNT,
};

verus! {

/// What the state machine decides for the frame's resolved click: keep the
/// selection, clear it, change it, or ask the rules engine for an action.
#[derive(PartialEq, Eq, Structural, Clone, Copy, Debug)]
pub enum Decision {
    Keep,
    ToIdle,
    ToSelected(LocatedPiece),
    Attempt { action: Action, target: Square },
}

/// An action the view wants the rules engine to run, together with the
/// square it aims at; the host executes it and reports back through
/// `BoardView::settle`.
#[derive(PartialEq, Eq, Structural, Clone, Copy, Debug)]
pub struct PendingAction {
    pub action: Action,
    pub target: Square,
}

/// The engine command a selected piece asks for when aimed at `to`: a move
/// when it sits on the board, a placement when it sits in the hand.
pub open spec fn spec_action_for(s: LocatedPiece, to: Square) -> Action {
    match s.location {
        Location::OnBoard(from) => Action::Move { from, to },
        Location::InHand(_, index) => Action::PlaceFromHand { index, to },
    }
}

/// The transition table of the selection state machine, evaluated against
/// the single resolved hit of the frame. `snap` supplies the rules engine's
/// answers: whose turn it is, and the topmost piece of a clicked square.
pub open spec fn spec_decide(st: SelectionState, hit: Hit, snap: Snapshot) -> Decision {
    match hit {
        Hit::NoHit => Decision::Keep,
        Hit::Background => Decision::ToIdle,
        Hit::BoardSquare(t) => match st {
            SelectionState::Idle => match snap.spec_top_at(t) {
                Some(p) => if p.color == snap.turn {
                    Decision::ToSelected(LocatedPiece { piece: p, location: Location::OnBoard(t) })
                } else {
                    Decision::Keep
                },
                None => Decision::Keep,
            },
            SelectionState::Selected(s) => if s.location == Location::OnBoard(t) {
                Decision::Keep
            } else {
                Decision::Attempt { action: spec_action_for(s, t), target: t }
            },
        },
        Hit::BoardPiece(lp) => match st {
            SelectionState::Idle => if lp.piece.color == snap.turn {
                Decision::ToSelected(lp)
            } else {
                Decision::Keep
            },
            SelectionState::Selected(s) => match lp.location {
                Location::OnBoard(t) => if s.location == Location::OnBoard(t) {
                    Decision::Keep
                } else {
                    Decision::Attempt { action: spec_action_for(s, t), target: t }
                },
                Location::InHand(_, _) => Decision::Keep,
            },
        },
        Hit::HandPiece(lp) => if lp.piece.color == snap.turn {
            Decision::ToSelected(lp)
        } else {
            Decision::Keep
        },
    }
}

/// The selection a decision leaves behind; an attempt leaves the selection
/// in place until the engine's answer settles it.
pub open spec fn spec_apply(st: SelectionState, d: Decision) -> SelectionState {
    match d {
        Decision::Keep => st,
        Decision::ToIdle => SelectionState::Idle,
        Decision::ToSelected(lp) => SelectionState::Selected(lp),
        Decision::Attempt { .. } => st,
    }
}

/// One full step of the machine for one frame: ignored while the game is
/// over, otherwise the decision's new selection plus the action it asks
/// the engine for (at most one per frame).
pub open spec fn spec_step(st: SelectionState, snap: Snapshot, hit: Hit) -> (
    SelectionState,
    Option<PendingAction>,
) {
    if snap.status != GameStatus::Ongoing {
        (st, None)
    } else {
        let d = spec_decide(st, hit, snap);
        (
            spec_apply(st, d),
            match d {
                Decision::Attempt { action, target } => Some(PendingAction { action, target }),
                _ => None,
            },
        )
    }
}

/// How the selection settles once the host has run a pending action: a
/// success always clears it; a failure reselects the target's topmost piece
/// when that piece belongs to the side to move, and otherwise leaves the
/// selection untouched. `snap` is the snapshot the action was decided on,
/// still valid on failure because a failed action changes nothing.
pub open spec fn spec_settle(
    st: SelectionState,
    pending: PendingAction,
    ok: bool,
    snap: Snapshot,
) -> SelectionState {
    if ok {
        SelectionState::Idle
    } else {
        match snap.spec_top_at(pending.target) {
            Some(q) => if q.color == snap.turn {
                SelectionState::Selected(
                    LocatedPiece { piece: q, location: Location::OnBoard(pending.target) },
                )
            } else {
                st
            },
            None => st,
        }
    }
}

/// The selection state machine: owns the single piece of interest of the
/// session. Exactly one per active session; created idle, stepped by one
/// resolved click per frame, reset when the session is replaced.
pub struct BoardView {
    pub selection: SelectionState,
}

impl BoardView {
    pub open spec fn wf(self) -> bool {
        self.selection.wf()
    }

    pub fn new() -> (v: BoardView)
        ensures
            v.selection == SelectionState::Idle,
            v.wf(),
    {
        BoardView { selection: SelectionState::Idle }
    }

    /// Interpret the frame's resolved hit against the engine's answers:
    /// update the selection, or hand back the one action the engine should
    /// run. While the game is over every click is ignored, until `reset`.
    pub fn handle_hit(&mut self, snap: &Snapshot, hit: Hit) -> (pending: Option<PendingAction>)
        requires
            old(self).wf(),
            snap.wf(),
            hit.wf(),
        ensures
            final(self).wf(),
            (final(self).selection, pending) == spec_step(old(self).selection, *snap, hit),
            pending is Some ==> (pending->Some_0.target.wf() && final(self).selection == old(
                self,
            ).selection),
            selection_consistent(old(self).selection, *snap) && hit_consistent(*snap, hit)
                ==> selection_consistent(final(self).selection, *snap),
    {
        if !matches!(snap.status, GameStatus::Ongoing) {
            return None;
        }
        match hit {
            Hit::NoHit => None,
            Hit::Background => {
                self.selection = SelectionState::Idle;
                None
            },
            Hit::BoardSquare(t) => match self.selection {
                SelectionState::Idle => {
                    match snap.top_at(t) {
                        Some(p) => if p.color == snap.turn {
                            self.selection = SelectionState::Selected(
                                LocatedPiece { piece: p, location: Location::OnBoard(t) },
                            );
                            None
                        } else {
                            None
                        },
                        None => None,
                    }
                },
                SelectionState::Selected(s) => if s.location == Location::OnBoard(t) {
                    None
                } else {
                    Some(PendingAction { action: action_for(s, t), target: t })
                },
            },
            Hit::BoardPiece(lp) => match self.selection {
                SelectionState::Idle => {
                    if lp.piece.color == snap.turn {
                        self.selection = SelectionState::Selected(lp);
                    }
                    None
                },
                SelectionState::Selected(s) => match lp.location {
                    Location::OnBoard(t) => if s.location == Location::OnBoard(t) {
                        None
                    } else {
                        Some(PendingAction { action: action_for(s, t), target: t })
                    },
                    Location::InHand(_, _) => None,
                },
            },
            Hit::HandPiece(lp) => {
                if lp.piece.color == snap.turn {
                    self.selection = SelectionState::Selected(lp);
                }
                None
            },
        }
    }

    /// Record the engine's answer to a pending action. On success the
    /// selection clears; on failure it reselects a friendly piece on the
    /// target square, or stays as it was.
    pub fn settle(&mut self, snap: &Snapshot, pending: PendingAction, ok: bool)
        requires
            old(self).wf(),
            snap.wf(),
            pending.target.wf(),
        ensures
            final(self).wf(),
            final(self).selection == spec_settle(old(self).selection, pending, ok, *snap),
            selection_consistent(old(self).selection, *snap) ==> selection_consistent(
                final(self).selection,
                *snap,
            ),
    {
        if ok {
            self.selection = SelectionState::Idle;
            return;
        }
        match snap.top_at(pending.target) {
            Some(q) => if q.color == snap.turn {
                self.selection = SelectionState::Selected(
                    LocatedPiece { piece: q, location: Location::OnBoard(pending.target) },
                );
            },
            None => {},
        }
    }

    /// Clear the selection, as a session restart does.
    pub fn reset(&mut self)
        ensures
            final(self).selection == SelectionState::Idle,
            final(self).wf(),
    {
        self.selection = SelectionState::Idle;
    }
}

impl Default for BoardView {
    /// A fresh view starts with nothing selected, alongside a new session.
    fn default() -> (v: BoardView)
        ensures
            v.selection == SelectionState::Idle,
            v.wf(),
    {
        BoardView { selection: SelectionState::Idle }
    }
}

/// Executable twin of `spec_action_for`.
pub fn action_for(s: LocatedPiece, to: Square) -> (a: Action)
    ensures
        a == spec_action_for(s, to),
{
    match s.location {
        Location::OnBoard(from) => Action::Move { from, to },
        Location::InHand(_, index) => Action::PlaceFromHand { index, to },
    }
}

/// A resolved background click always clears the selection, whatever the
/// prior state, and asks the engine for nothing — so board and hand
/// contents cannot change on that frame.
pub proof fn lemma_background_click_resets(st: SelectionState, snap: Snapshot)
    requires
        snap.status == GameStatus::Ongoing,
    ensures
        spec_step(st, snap, Hit::Background).0 == SelectionState::Idle,
        spec_step(st, snap, Hit::Background).1 == None::<PendingAction>,
{
}

/// From `Idle`, no click ever asks the engine for an action: selecting a
/// piece (or failing to) never mutates board or hand contents.
pub proof fn lemma_selecting_never_acts(snap: Snapshot, hit: Hit)
    ensures
        spec_step(SelectionState::Idle, snap, hit).1 == None::<PendingAction>,
{
}

/// A pending action that the engine ran successfully always settles the
/// selection to `Idle` — and that one action was the only engine call the
/// frame asked for, since a step hands back at most one pending action.
pub proof fn lemma_successful_action_resets(
    st: SelectionState,
    pending: PendingAction,
    snap: Snapshot,
)
    ensures
        spec_settle(st, pending, true, snap) == SelectionState::Idle,
{
}

/// From `Idle`, a resolved click on a piece whose color is not the side to
/// move leaves the machine at `Idle` and asks for nothing.
pub proof fn lemma_wrong_color_never_selects(snap: Snapshot, lp: LocatedPiece, hit: Hit)
    requires
        hit == Hit::BoardPiece(lp) || hit == Hit::HandPiece(lp),
        lp.piece.color != snap.turn,
    ensures
        spec_step(SelectionState::Idle, snap, hit).0 == SelectionState::Idle,
        spec_step(SelectionState::Idle, snap, hit).1 == None::<PendingAction>,
{
}

/// Re-clicking the exact currently selected piece (or its own square)
/// leaves the selection unchanged and asks the engine for nothing: neither
/// a move onto itself nor a deselection.
pub proof fn lemma_reclick_selected_is_noop(s: LocatedPiece, snap: Snapshot, hit: Hit)
    requires
        hit.wf(),
        hit == Hit::BoardPiece(s) || hit == Hit::HandPiece(s) || (s.location is OnBoard
            && hit == Hit::BoardSquare(s.location->OnBoard_0)),
        s.piece.color == snap.turn,
    ensures
        spec_step(SelectionState::Selected(s), snap, hit).0 == SelectionState::Selected(s),
        spec_step(SelectionState::Selected(s), snap, hit).1 == None::<PendingAction>,
{
}

/// A failed action whose target square holds no piece of the side to move
/// leaves the selection exactly as it was: the user keeps their context.
pub proof fn lemma_failed_action_keeps_selection(
    st: SelectionState,
    pending: PendingAction,
    snap: Snapshot,
)
    requires
        match snap.spec_top_at(pending.target) {
            Some(q) => q.color != snap.turn,
            None => true,
        },
    ensures
        spec_settle(st, pending, false, snap) == st,
{
}

/// The selection invariant of the view: a selected piece was the side to
/// move when it was selected, and still names the topmost piece of a real,
/// non-empty board stack or hand slot of the snapshot.
pub open spec fn selection_consistent(st: SelectionState, snap: Snapshot) -> bool {
    match st {
        SelectionState::Idle => true,
        SelectionState::Selected(lp) => lp.piece.color == snap.turn && match lp.location {
            Location::OnBoard(sq) => sq.wf() && snap.spec_top_at(sq) == Some(lp.piece),
            Location::InHand(c, j) => 0 <= j < KIND_COUNT && snap.spec_hand_tops(c)[j as int]
                == Some(lp.piece),
        },
    }
}

/// A step on a hit that reports the snapshot truly keeps the selection
/// invariant; a step never touches the snapshot, so a selection can never
/// come to point at an emptied slot or a vanished piece.
pub proof fn lemma_step_keeps_selection_consistent(
    st: SelectionState,
    snap: Snapshot,
    hit: Hit,
)
    requires
        selection_consistent(st, snap),
        hit_consistent(snap, hit),
    ensures
        selection_consistent(spec_step(st, snap, hit).0, snap),
{
}

/// Settling a pending action keeps the selection invariant: a success
/// clears the selection (so it holds of any snapshot at all), and a
/// failure leaves the engine's state — and so the snapshot — unchanged.
pub proof fn lemma_settle_keeps_selection_consistent(
    st: SelectionState,
    pending: PendingAction,
    ok: bool,
    snap: Snapshot,
)
    requires
        selection_consistent(st, snap),
        pending.target.wf(),
    ensures
        selection_consistent(spec_settle(st, pending, ok, snap), snap),
        ok ==> spec_settle(st, pending, ok, snap) == SelectionState::Idle,
{
}

/// Once the engine reports the game over, every click is ignored: no state
/// transition and no engine action, until a restart resets the view.
pub proof fn lemma_frozen_ignores_clicks(st: SelectionState, snap: Snapshot, hit: Hit)
    requires
        snap.status != GameStatus::Ongoing,
    ensures
        spec_step(st, snap, hit).0 == st,
        spec_step(st, snap, hit).1 == None::<PendingAction>,
{
}

} // verus!
