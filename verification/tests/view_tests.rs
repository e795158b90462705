use gobblet_gui::frame::{render_frame, LegalityQuery};
use gobblet_gui::geom::{Mapper, Shape};
use gobblet_gui::machine::{action_for, BoardView, PendingAction};
use gobblet_gui::model::{
    Action, Color, GameStatus, Hit, Location, LocatedPiece, Piece, PieceKind, SelectionState,
    Snapshot, Square,
};
use gobblet_gui::regions::{build_regions, resolve_click, RegionId, RegionKind};
use gobblet_gui::render::{marker_squares, DrawCmd, GamePainter};
use gobblet_gui::style::{Rgb, Style};

fn piece(color: Color, kind: PieceKind) -> Piece {
    Piece { color, kind }
}

fn sq(col: u8, row: u8) -> Square {
    Square { col, row }
}

fn empty_board() -> Vec<Option<Piece>> {
    vec![None; 16]
}

fn empty_hand() -> Vec<Option<Piece>> {
    vec![None; 4]
}

fn full_hand(color: Color) -> Vec<Option<Piece>> {
    vec![
        Some(piece(color, PieceKind::Tiny)),
        Some(piece(color, PieceKind::Small)),
        Some(piece(color, PieceKind::Medium)),
        Some(piece(color, PieceKind::Big)),
    ]
}

fn empty_snapshot(turn: Color) -> Snapshot {
    Snapshot {
        board_tops: empty_board(),
        black_hand_tops: empty_hand(),
        white_hand_tops: empty_hand(),
        turn,
        status: GameStatus::Ongoing,
    }
}

fn initial_snapshot(turn: Color) -> Snapshot {
    Snapshot {
        board_tops: empty_board(),
        black_hand_tops: full_hand(Color::Black),
        white_hand_tops: full_hand(Color::White),
        turn,
        status: GameStatus::Ongoing,
    }
}

// Canvas 400 x 600 gives square_size 100 with no offsets: board square
// (col, row) spans x in [100*col, 100*col+100) and y in [100*row+100,
// 100*row+200); hand rows sit at y 0..100 (Black) and 500..600 (White).
const W: u32 = 400;
const H: u32 = 600;

fn style() -> Style {
    Style::default()
}

// --- Selection state machine scenarios ---

#[test]
fn place_from_hand_scenario() {
    // Board 4x4, Idle, turn White: click the White hand slot holding the
    // small piece, then an empty square; the placement succeeds and the
    // selection resets.
    let snap = initial_snapshot(Color::White);
    let mut view = BoardView::new();
    // White's hand row is the bottom one; its slot 0 holds the smallest
    // piece and centers at x = (0+1)*100 = 100, y = 550.
    let pending = view.step_click(&snap, &style(), W, H, Some((100, 550)));
    assert!(pending.is_none());
    assert_eq!(
        view.selection,
        SelectionState::Selected(LocatedPiece {
            piece: piece(Color::White, PieceKind::Tiny),
            location: Location::InHand(Color::White, 0),
        })
    );
    // Click empty square (1,1): its pixel center is (150, 250).
    let pending = view.step_click(&snap, &style(), W, H, Some((150, 250)));
    let expected = PendingAction {
        action: Action::PlaceFromHand { index: 0, to: sq(1, 1) },
        target: sq(1, 1),
    };
    assert_eq!(pending, Some(expected));
    // The engine accepts the placement; the selection clears.
    view.settle(&snap, expected, true);
    assert_eq!(view.selection, SelectionState::Idle);
    // The engine now reports that piece as the square's topmost piece; the
    // next frame draws it at the square's center.
    let mut after = snap.clone();
    after.board_tops[5] = Some(piece(Color::White, PieceKind::Tiny));
    after.white_hand_tops[0] = None;
    after.turn = Color::Black;
    let painter = GamePainter::new(style(), Mapper::new(W, H));
    let cmds = render_frame(&painter, &after, view.selection, &vec![]);
    assert!(cmds.contains(&DrawCmd::Circle {
        cx: 150,
        cy: 250,
        radius: 10,
        fill: Rgb { red: 250, green: 250, blue: 250 },
        stroke: style().piece_stroke,
    }));
}

#[test]
fn background_click_deselects() {
    // Selected(OnBoard(a1)) holding a piece; a background click resets the
    // selection to Idle and asks the engine for nothing, so the board and
    // hands stay as they were.
    let mut snap = empty_snapshot(Color::Black);
    snap.board_tops[0] = Some(piece(Color::Black, PieceKind::Big));
    let before = snap.clone();
    let mut view = BoardView::new();
    // Click the piece at square (0,0), centered at (50, 150).
    let pending = view.step_click(&snap, &style(), W, H, Some((50, 150)));
    assert!(pending.is_none());
    assert_eq!(
        view.selection,
        SelectionState::Selected(LocatedPiece {
            piece: piece(Color::Black, PieceKind::Big),
            location: Location::OnBoard(sq(0, 0)),
        })
    );
    // (399, 1) lies in the canvas but outside every square and circle.
    let pending = view.step_click(&snap, &style(), W, H, Some((399, 1)));
    assert!(pending.is_none());
    assert_eq!(view.selection, SelectionState::Idle);
    assert_eq!(snap, before);
}

#[test]
fn background_click_from_idle_stays_idle() {
    let snap = initial_snapshot(Color::White);
    let mut view = BoardView::new();
    let pending = view.step_click(&snap, &style(), W, H, Some((399, 1)));
    assert!(pending.is_none());
    assert_eq!(view.selection, SelectionState::Idle);
}

#[test]
fn selecting_asks_engine_for_nothing() {
    // Idle -> Selected mutates no board or hand contents: the step hands
    // the host no action to run.
    let mut snap = empty_snapshot(Color::White);
    snap.board_tops[10] = Some(piece(Color::White, PieceKind::Medium));
    let before = snap.clone();
    let mut view = BoardView::new();
    // Square (2,2) centers at (250, 350).
    let pending = view.step_click(&snap, &style(), W, H, Some((250, 350)));
    assert!(pending.is_none());
    assert_eq!(
        view.selection,
        SelectionState::Selected(LocatedPiece {
            piece: piece(Color::White, PieceKind::Medium),
            location: Location::OnBoard(sq(2, 2)),
        })
    );
    assert_eq!(snap, before);
}

#[test]
fn wrong_color_piece_never_selects() {
    // From Idle, clicking a piece whose color is not the side to move
    // leaves the view Idle, on the board and in the hand alike.
    let mut snap = initial_snapshot(Color::White);
    snap.board_tops[3] = Some(piece(Color::Black, PieceKind::Tiny));
    let mut view = BoardView::new();
    // The Black board piece at square (3,0), centered at (350, 150).
    let pending = view.step_click(&snap, &style(), W, H, Some((350, 150)));
    assert!(pending.is_none());
    assert_eq!(view.selection, SelectionState::Idle);
    // A Black hand piece: slot 3 of the top row, centered at (400, 50) —
    // click just inside its circle.
    let pending = view.step_click(&snap, &style(), W, H, Some((390, 50)));
    assert!(pending.is_none());
    assert_eq!(view.selection, SelectionState::Idle);
}

#[test]
fn reclick_selected_piece_is_noop() {
    // Re-clicking the exact currently selected piece keeps the selection
    // and asks the engine for nothing: no move onto itself, no deselect.
    let mut snap = empty_snapshot(Color::Black);
    snap.board_tops[5] = Some(piece(Color::Black, PieceKind::Small));
    let mut view = BoardView::new();
    let pending = view.step_click(&snap, &style(), W, H, Some((150, 250)));
    assert!(pending.is_none());
    let selected = view.selection;
    assert!(matches!(selected, SelectionState::Selected(_)));
    // Click the same piece again, slightly off center but inside it.
    let pending = view.step_click(&snap, &style(), W, H, Some((160, 255)));
    assert!(pending.is_none());
    assert_eq!(view.selection, selected);
    // A click on the piece's own square outside the circle is a no-op too.
    let pending = view.step_click(&snap, &style(), W, H, Some((101, 201)));
    assert!(pending.is_none());
    assert_eq!(view.selection, selected);
}

#[test]
fn reclick_selected_hand_piece_is_noop() {
    let snap = initial_snapshot(Color::Black);
    let mut view = BoardView::new();
    // Black hand slot 0 (tiny), centered at (100, 50).
    let pending = view.step_click(&snap, &style(), W, H, Some((100, 50)));
    assert!(pending.is_none());
    let selected = view.selection;
    assert_eq!(
        selected,
        SelectionState::Selected(LocatedPiece {
            piece: piece(Color::Black, PieceKind::Tiny),
            location: Location::InHand(Color::Black, 0),
        })
    );
    let pending = view.step_click(&snap, &style(), W, H, Some((100, 50)));
    assert!(pending.is_none());
    assert_eq!(view.selection, selected);
}

#[test]
fn successful_move_resets_to_idle() {
    // From Selected, a click whose execute succeeds always yields Idle,
    // and the frame asked for exactly that one action.
    let mut snap = empty_snapshot(Color::White);
    snap.board_tops[0] = Some(piece(Color::White, PieceKind::Big));
    let mut view = BoardView::new();
    let pending = view.step_click(&snap, &style(), W, H, Some((50, 150)));
    assert!(pending.is_none());
    // Move to square (3,3), centered at (350, 450).
    let pending = view.step_click(&snap, &style(), W, H, Some((350, 450)));
    let expected = PendingAction {
        action: Action::Move { from: sq(0, 0), to: sq(3, 3) },
        target: sq(3, 3),
    };
    assert_eq!(pending, Some(expected));
    view.settle(&snap, expected, true);
    assert_eq!(view.selection, SelectionState::Idle);
}

#[test]
fn failed_move_keeps_selection_when_target_unfriendly() {
    // A selected piece with no legal destination: the attempted move
    // fails and, with no friendly piece on the target, the selection is
    // left exactly as it was.
    let mut snap = empty_snapshot(Color::Black);
    snap.board_tops[0] = Some(piece(Color::Black, PieceKind::Tiny));
    let mut view = BoardView::new();
    view.step_click(&snap, &style(), W, H, Some((50, 150)));
    let selected = view.selection;
    let pending = view.step_click(&snap, &style(), W, H, Some((250, 350)));
    let expected = PendingAction {
        action: Action::Move { from: sq(0, 0), to: sq(2, 2) },
        target: sq(2, 2),
    };
    assert_eq!(pending, Some(expected));
    view.settle(&snap, expected, false);
    assert_eq!(view.selection, selected);
}

#[test]
fn failed_move_reselects_friendly_target() {
    // A failed move onto a square whose topmost piece belongs to the side
    // to move reselects that piece instead.
    let mut snap = empty_snapshot(Color::Black);
    snap.board_tops[0] = Some(piece(Color::Black, PieceKind::Tiny));
    snap.board_tops[10] = Some(piece(Color::Black, PieceKind::Big));
    let mut view = BoardView::new();
    view.step_click(&snap, &style(), W, H, Some((50, 150)));
    // Click the big friendly piece on square (2,2): a move is attempted
    // (gobbling a friendly piece is the engine's call), and on failure the
    // target's piece is reselected.
    let pending = view.step_click(&snap, &style(), W, H, Some((250, 350)));
    let expected = PendingAction {
        action: Action::Move { from: sq(0, 0), to: sq(2, 2) },
        target: sq(2, 2),
    };
    assert_eq!(pending, Some(expected));
    view.settle(&snap, expected, false);
    assert_eq!(
        view.selection,
        SelectionState::Selected(LocatedPiece {
            piece: piece(Color::Black, PieceKind::Big),
            location: Location::OnBoard(sq(2, 2)),
        })
    );
}

#[test]
fn hand_click_while_selected_reselects() {
    // From Selected, clicking an own hand piece reselects it without any
    // move attempt; an opponent hand piece changes nothing.
    let mut snap = initial_snapshot(Color::White);
    snap.board_tops[0] = Some(piece(Color::White, PieceKind::Tiny));
    let mut view = BoardView::new();
    view.step_click(&snap, &style(), W, H, Some((50, 150)));
    assert!(matches!(view.selection, SelectionState::Selected(_)));
    // White hand slot 3 (big), centered at (400, 550): click inside it.
    let pending = view.step_click(&snap, &style(), W, H, Some((390, 550)));
    assert!(pending.is_none());
    assert_eq!(
        view.selection,
        SelectionState::Selected(LocatedPiece {
            piece: piece(Color::White, PieceKind::Big),
            location: Location::InHand(Color::White, 3),
        })
    );
    // A Black hand piece (slot 0, centered (100, 50)) is not the side to
    // move: the selection stays.
    let selected = view.selection;
    let pending = view.step_click(&snap, &style(), W, H, Some((100, 50)));
    assert!(pending.is_none());
    assert_eq!(view.selection, selected);
}

#[test]
fn won_game_freezes_clicks_until_reset() {
    // Status Won(Black): pointer clicks produce no transition and no
    // action until a restart resets the view to Idle.
    let mut snap = initial_snapshot(Color::White);
    snap.board_tops[0] = Some(piece(Color::White, PieceKind::Big));
    let mut view = BoardView::new();
    let pending = view.step_click(&snap, &style(), W, H, Some((50, 150)));
    assert!(pending.is_none());
    let selected = view.selection;
    snap.status = GameStatus::Won(Color::Black);
    // Clicks of every kind are ignored now.
    for click in [(50, 150), (399, 1), (200, 550), (250, 350)] {
        let pending = view.step_click(&snap, &style(), W, H, Some(click));
        assert!(pending.is_none());
        assert_eq!(view.selection, selected);
    }
    // The host restarts: a fresh engine session reports Ongoing and the
    // view resets to Idle.
    view.reset();
    assert_eq!(view.selection, SelectionState::Idle);
    let fresh = initial_snapshot(Color::White);
    assert_eq!(fresh.status, GameStatus::Ongoing);
}

#[test]
fn empty_square_click_from_idle_does_nothing() {
    let snap = empty_snapshot(Color::White);
    let mut view = BoardView::new();
    let pending = view.step_click(&snap, &style(), W, H, Some((150, 250)));
    assert!(pending.is_none());
    assert_eq!(view.selection, SelectionState::Idle);
}

#[test]
fn click_outside_canvas_is_no_hit() {
    let mut snap = initial_snapshot(Color::White);
    snap.board_tops[0] = Some(piece(Color::White, PieceKind::Big));
    let mut view = BoardView::new();
    view.step_click(&snap, &style(), W, H, Some((50, 150)));
    let selected = view.selection;
    // x == canvas width lies outside the background rectangle.
    let pending = view.step_click(&snap, &style(), W, H, Some((400, 300)));
    assert!(pending.is_none());
    assert_eq!(view.selection, selected);
    // So does a frame without any click.
    let pending = view.step_click(&snap, &style(), W, H, None);
    assert!(pending.is_none());
    assert_eq!(view.selection, selected);
}

#[test]
fn resized_canvas_remaps_clicks() {
    // Geometry is recomputed from the canvas size every frame: after a
    // resize the same board square sits under different pixels.
    let mut snap = empty_snapshot(Color::White);
    snap.board_tops[0] = Some(piece(Color::White, PieceKind::Big));
    let mut view = BoardView::new();
    // On a 800x600 canvas the grid shifts right by 200 pixels, so the
    // piece on square (0,0) centers at (250, 150).
    let pending = view.step_click(&snap, &style(), 800, 600, Some((250, 150)));
    assert!(pending.is_none());
    assert!(matches!(view.selection, SelectionState::Selected(_)));
    // (50, 150) lies left of the shifted grid: background, deselect.
    let pending = view.step_click(&snap, &style(), 800, 600, Some((50, 150)));
    assert!(pending.is_none());
    assert_eq!(view.selection, SelectionState::Idle);
}

// --- Hit resolution and regions ---

#[test]
fn piece_click_beats_square_underneath() {
    let mut snap = empty_snapshot(Color::White);
    snap.board_tops[5] = Some(piece(Color::White, PieceKind::Big));
    let m = Mapper::new(W, H);
    let regions = build_regions(&snap, &m, &style());
    // The exact center of square (1,1) lies inside both the square's
    // rectangle and the piece's circle: only the piece fires.
    let hit = resolve_click(&regions, 150, 250);
    assert_eq!(
        hit,
        Hit::BoardPiece(LocatedPiece {
            piece: piece(Color::White, PieceKind::Big),
            location: Location::OnBoard(sq(1, 1)),
        })
    );
    // A corner of the same square outside the circle fires the square.
    let hit = resolve_click(&regions, 101, 201);
    assert_eq!(hit, Hit::BoardSquare(sq(1, 1)));
    // A point in the canvas outside every square and circle fires the
    // background.
    let hit = resolve_click(&regions, 399, 1);
    assert_eq!(hit, Hit::Background);
    // A point outside the canvas fires nothing.
    let hit = resolve_click(&regions, 400, 300);
    assert_eq!(hit, Hit::NoHit);
}

#[test]
fn hand_piece_click_resolves_to_hand_region() {
    let snap = initial_snapshot(Color::White);
    let m = Mapper::new(W, H);
    let regions = build_regions(&snap, &m, &style());
    let hit = resolve_click(&regions, 200, 550);
    assert_eq!(
        hit,
        Hit::HandPiece(LocatedPiece {
            piece: piece(Color::White, PieceKind::Small),
            location: Location::InHand(Color::White, 1),
        })
    );
    // An empty slot's spot resolves to the background: no region is built
    // for a slot without a topmost piece.
    let mut emptied = snap.clone();
    emptied.white_hand_tops[1] = None;
    let regions = build_regions(&emptied, &m, &style());
    let hit = resolve_click(&regions, 200, 550);
    assert_eq!(hit, Hit::Background);
}

#[test]
fn region_identities_are_stable_and_distinct() {
    let kind_square = RegionKind::BoardSquare(sq(1, 2));
    let kind_piece = RegionKind::BoardPiece(LocatedPiece {
        piece: piece(Color::Black, PieceKind::Tiny),
        location: Location::OnBoard(sq(1, 2)),
    });
    let kind_hand = RegionKind::HandPiece(LocatedPiece {
        piece: piece(Color::White, PieceKind::Big),
        location: Location::InHand(Color::White, 3),
    });
    assert_eq!(kind_square.id(), RegionId { layer: 1, a: 1, b: 2 });
    assert_eq!(kind_piece.id(), RegionId { layer: 2, a: 1, b: 2 });
    assert_eq!(kind_hand.id(), RegionId { layer: 3, a: 1, b: 3 });
    assert_eq!(RegionKind::Background.id(), RegionId { layer: 0, a: 0, b: 0 });
    // The identity depends on the indices alone, never on the piece value.
    let kind_piece_later = RegionKind::BoardPiece(LocatedPiece {
        piece: piece(Color::White, PieceKind::Big),
        location: Location::OnBoard(sq(1, 2)),
    });
    assert_eq!(kind_piece.id(), kind_piece_later.id());
    assert_ne!(kind_piece.id(), RegionKind::BoardPiece(LocatedPiece {
        piece: piece(Color::Black, PieceKind::Tiny),
        location: Location::OnBoard(sq(2, 1)),
    }).id());
}

// --- Markers and rendering ---

#[test]
fn marker_query_matches_selection_origin() {
    let mut view = BoardView::new();
    assert_eq!(view.marker_query(), None);
    view.selection = SelectionState::Selected(LocatedPiece {
        piece: piece(Color::White, PieceKind::Big),
        location: Location::OnBoard(sq(0, 0)),
    });
    assert_eq!(
        view.marker_query(),
        Some(LegalityQuery::CanMove(piece(Color::White, PieceKind::Big)))
    );
    view.selection = SelectionState::Selected(LocatedPiece {
        piece: piece(Color::White, PieceKind::Tiny),
        location: Location::InHand(Color::White, 0),
    });
    assert_eq!(
        view.marker_query(),
        Some(LegalityQuery::CanPlace(piece(Color::White, PieceKind::Tiny)))
    );
}

#[test]
fn markers_equal_legal_destination_set() {
    // The rendered markers stand on exactly the squares the legality
    // answers mark.
    let mut legal = vec![false; 16];
    legal[0] = true;
    legal[15] = true;
    let squares = marker_squares(&legal);
    assert_eq!(squares, vec![sq(0, 0), sq(3, 3)]);
    let painter = GamePainter::new(style(), Mapper::new(W, H));
    let sel = SelectionState::Selected(LocatedPiece {
        piece: piece(Color::White, PieceKind::Big),
        location: Location::OnBoard(sq(0, 0)),
    });
    let cmds = painter.paint_available_moves(sel, &legal);
    assert_eq!(
        cmds,
        vec![
            DrawCmd::FillCircle {
                cx: 50,
                cy: 150,
                radius: 5,
                color: Rgb { red: 160, green: 160, blue: 160 },
            },
            DrawCmd::FillCircle {
                cx: 350,
                cy: 450,
                radius: 5,
                color: Rgb { red: 160, green: 160, blue: 160 },
            },
        ]
    );
}

#[test]
fn no_legal_destinations_renders_no_markers() {
    // A selected piece that is fully blocked gets zero highlight markers.
    let legal = vec![false; 16];
    assert!(marker_squares(&legal).is_empty());
    let painter = GamePainter::new(style(), Mapper::new(W, H));
    let sel = SelectionState::Selected(LocatedPiece {
        piece: piece(Color::Black, PieceKind::Tiny),
        location: Location::OnBoard(sq(0, 0)),
    });
    assert!(painter.paint_available_moves(sel, &legal).is_empty());
    // And with no selection at all, nothing is drawn either.
    assert!(painter.paint_available_moves(SelectionState::Idle, &vec![]).is_empty());
}

#[test]
fn board_painting_checkers_the_squares() {
    let painter = GamePainter::new(style(), Mapper::new(W, H));
    let cmds = painter.paint_board();
    assert_eq!(cmds.len(), 16);
    let light = Rgb { red: 235, green: 235, blue: 200 };
    let dark = Rgb { red: 120, green: 150, blue: 80 };
    // Square (0,0) is light, its right neighbor (1,0) dark.
    assert_eq!(
        cmds[0],
        DrawCmd::FillRect { x0: 0, y0: 100, x1: 100, y1: 200, color: light }
    );
    assert_eq!(
        cmds[1],
        DrawCmd::FillRect { x0: 100, y0: 100, x1: 200, y1: 200, color: dark }
    );
    // Row-major order: square (0,1) is entry 4, and dark.
    assert_eq!(
        cmds[4],
        DrawCmd::FillRect { x0: 0, y0: 200, x1: 100, y1: 300, color: dark }
    );
}

#[test]
fn selected_piece_gets_highlight_stroke() {
    let mut snap = empty_snapshot(Color::White);
    snap.board_tops[5] = Some(piece(Color::White, PieceKind::Medium));
    let painter = GamePainter::new(style(), Mapper::new(W, H));
    let lp = LocatedPiece {
        piece: piece(Color::White, PieceKind::Medium),
        location: Location::OnBoard(sq(1, 1)),
    };
    let white_fill = Rgb { red: 250, green: 250, blue: 250 };
    let idle_cmds = painter.paint_pieces(&snap, SelectionState::Idle);
    assert_eq!(
        idle_cmds,
        vec![DrawCmd::Circle {
            cx: 150,
            cy: 250,
            radius: 30,
            fill: white_fill,
            stroke: style().piece_stroke,
        }]
    );
    let sel_cmds = painter.paint_pieces(&snap, SelectionState::Selected(lp));
    assert_eq!(
        sel_cmds,
        vec![DrawCmd::Circle {
            cx: 150,
            cy: 250,
            radius: 30,
            fill: white_fill,
            stroke: style().selected_piece_stroke,
        }]
    );
}

#[test]
fn hands_paint_by_row_and_slot() {
    let snap = initial_snapshot(Color::White);
    let painter = GamePainter::new(style(), Mapper::new(W, H));
    let cmds = painter.paint_hands(&snap, SelectionState::Idle);
    // Four Black pieces along the top row, then four White along the
    // bottom, radii growing with the kind.
    assert_eq!(cmds.len(), 8);
    let black_fill = Rgb { red: 85, green: 85, blue: 85 };
    assert_eq!(
        cmds[0],
        DrawCmd::Circle {
            cx: 100,
            cy: 50,
            radius: 10,
            fill: black_fill,
            stroke: style().piece_stroke,
        }
    );
    assert_eq!(
        cmds[7],
        DrawCmd::Circle {
            cx: 400,
            cy: 550,
            radius: 40,
            fill: Rgb { red: 250, green: 250, blue: 250 },
            stroke: style().piece_stroke,
        }
    );
}

#[test]
fn full_frame_concatenates_in_paint_order() {
    let mut snap = initial_snapshot(Color::White);
    snap.board_tops[0] = Some(piece(Color::White, PieceKind::Big));
    let painter = GamePainter::new(style(), Mapper::new(W, H));
    let sel = SelectionState::Idle;
    let cmds = render_frame(&painter, &snap, sel, &vec![]);
    // 16 squares, 1 board piece, 8 hand pieces, no markers while Idle.
    assert_eq!(cmds.len(), 16 + 1 + 8);
    assert!(matches!(cmds[0], DrawCmd::FillRect { .. }));
    assert!(matches!(cmds[16], DrawCmd::Circle { .. }));
}

// --- Geometry ---

#[test]
fn mapper_centers_grid_in_canvas() {
    let m = Mapper::new(W, H);
    assert_eq!(m.square_size, 100);
    assert_eq!((m.off_x, m.off_y), (0, 0));
    // A wider canvas: the square size is capped by the height and the
    // leftover width splits evenly.
    let m = Mapper::new(800, 600);
    assert_eq!(m.square_size, 100);
    assert_eq!((m.off_x, m.off_y), (200, 0));
    // A taller canvas: capped by the width.
    let m = Mapper::new(400, 1200);
    assert_eq!(m.square_size, 100);
    assert_eq!((m.off_x, m.off_y), (0, 300));
}

#[test]
fn mapper_maps_cells_and_inverts() {
    let m = Mapper::new(800, 600);
    assert_eq!(m.to_screen(0, 0), (200, 0));
    assert_eq!(m.to_screen(4, 6), (600, 600));
    assert_eq!(m.square_rect(sq(1, 1)), Shape::Rect { x0: 300, y0: 200, x1: 400, y1: 300 });
    assert_eq!(m.board_center(sq(1, 1)), (350, 250));
    assert_eq!(m.hand_center(0, 2), (500, 50));
    assert_eq!(m.hand_center(1, 2), (500, 550));
    // The diagnostic inverse returns whole-grid cells: board square (1,1)
    // sits at logical row 2.
    assert_eq!(m.to_logical_cell(350, 250), Some((1, 2)));
    assert_eq!(m.to_logical_cell(100, 300), None);
    // A degenerate canvas maps nothing.
    let tiny = Mapper::new(3, 5);
    assert_eq!(tiny.square_size, 0);
    assert_eq!(tiny.to_logical_cell(1, 1), None);
}

#[test]
fn shape_containment_is_half_open_and_inclusive() {
    let rect = Shape::Rect { x0: 10, y0: 20, x1: 30, y1: 40 };
    assert!(rect.contains(10, 20));
    assert!(rect.contains(29, 39));
    assert!(!rect.contains(30, 20));
    assert!(!rect.contains(10, 40));
    let circle = Shape::Circle { cx: 100, cy: 100, radius: 10 };
    assert!(circle.contains(110, 100));
    assert!(circle.contains(107, 107));
    assert!(!circle.contains(111, 100));
    assert!(!circle.contains(108, 108));
}

// --- Small pieces of the model ---

#[test]
fn action_for_keys_on_origin() {
    let on_board = LocatedPiece {
        piece: piece(Color::White, PieceKind::Big),
        location: Location::OnBoard(sq(2, 0)),
    };
    assert_eq!(
        action_for(on_board, sq(1, 1)),
        Action::Move { from: sq(2, 0), to: sq(1, 1) }
    );
    let in_hand = LocatedPiece {
        piece: piece(Color::White, PieceKind::Big),
        location: Location::InHand(Color::White, 3),
    };
    assert_eq!(
        action_for(in_hand, sq(1, 1)),
        Action::PlaceFromHand { index: 3, to: sq(1, 1) }
    );
}

#[test]
fn is_selected_compares_piece_and_location() {
    let painter = GamePainter::new(style(), Mapper::new(W, H));
    let lp = LocatedPiece {
        piece: piece(Color::Black, PieceKind::Small),
        location: Location::OnBoard(sq(0, 3)),
    };
    assert!(painter.is_selected(lp, Some(lp)));
    assert!(!painter.is_selected(lp, None));
    let elsewhere = LocatedPiece { location: Location::OnBoard(sq(3, 0)), ..lp };
    assert!(!painter.is_selected(lp, Some(elsewhere)));
}

#[test]
fn square_indexing_is_row_major() {
    assert_eq!(Square::from_pos(2, 1), sq(2, 1));
    assert_eq!(sq(2, 1).idx(), 6);
    assert_eq!(sq(0, 0).idx(), 0);
    assert_eq!(sq(3, 3).idx(), 15);
}

#[test]
fn fresh_view_starts_idle() {
    assert_eq!(BoardView::new().selection, SelectionState::Idle);
    assert_eq!(BoardView::default().selection, SelectionState::Idle);
}

#[test]
fn default_style_matches_fixed_table() {
    let s = Style::default();
    assert_eq!(s.piece_radius_tenths, [2, 4, 6, 8]);
    assert_eq!(s.available_move_radius_tenths, 1);
    assert_eq!(s.light_square_color, Rgb { red: 235, green: 235, blue: 200 });
    assert_eq!(s.dark_square_color, Rgb { red: 120, green: 150, blue: 80 });
    assert_eq!(s.piece_fill_color[Color::Black.index()], Rgb { red: 85, green: 85, blue: 85 });
    assert_eq!(s.piece_fill_color[Color::White.index()], Rgb { red: 250, green: 250, blue: 250 });
    assert_eq!(s.piece_stroke.width, 2);
    assert_eq!(s.selected_piece_stroke.color, Rgb { red: 255, green: 0, blue: 0 });
}
