use vstd::prelude::*;
use crate::falling_piece::{one_row_down, EventModel, PieceModel};
use crate::grid_model::{has_no_hint, CellValue, GridModel};
use crate::piece::PieceType;
use crate::vector::Point3;

verus! {

/// The falling piece and the boards it falls on, as a mathematical value.
pub struct PlayModel {
    pub piece: PieceModel,
    pub grids: Seq<GridModel>,
}

pub open spec fn all_wf(grids: Seq<GridModel>) -> bool {
    forall|i: int| 0 <= i < grids.len() ==> (#[trigger] grids[i]).wf()
}

/// No active board shows a drop hint.
pub open spec fn active_show_no_hint(grids: Seq<GridModel>) -> bool {
    forall|i: int| 0 <= i < grids.len() && (#[trigger] grids[i]).active ==> has_no_hint(grids[i].visible)
}

pub open spec fn any_active(grids: Seq<GridModel>) -> bool {
    exists|i: int| 0 <= i < grids.len() && (#[trigger] grids[i]).active
}

/// How many of the boards are active.
pub open spec fn active_count(grids: Seq<GridModel>) -> nat
    decreases grids.len(),
{
    if grids.len() == 0 {
        0
    } else {
        active_count(grids.drop_last()) + if grids.last().active {
            1nat
        } else {
            0nat
        }
    }
}

/// The board follows the piece and does not take the candidate. A candidate
/// that cannot be stored is taken by no board.
pub open spec fn rejects(g: GridModel, candidate: Option<PieceModel>) -> bool {
    g.active && match candidate {
        Some(c) => !g.accepts(c),
        None => true,
    }
}

/// The move is made: the candidate can be stored and no active board
/// rejects it.
pub open spec fn accepted(grids: Seq<GridModel>, candidate: Option<PieceModel>) -> bool {
    candidate is Some && forall|i: int|
        0 <= i < grids.len() ==> !rejects(#[trigger] grids[i], candidate)
}

/// The board with the piece locked where it is: the piece becomes permanent,
/// full rows go, and the board stops following the piece.
pub open spec fn lock(g: GridModel, piece: PieceModel) -> GridModel {
    g.write(piece, CellValue::Piece(piece.piece_type)).deactivate()
}

/// The boards after gravity failed to move the piece to the candidate: each
/// board that rejected the candidate locks the piece, the others stay as
/// they are.
pub open spec fn settle(
    grids: Seq<GridModel>,
    piece: PieceModel,
    candidate: Option<PieceModel>,
) -> Seq<GridModel> {
    Seq::new(
        grids.len(),
        |i: int|
            if rejects(grids[i], candidate) {
                lock(grids[i], piece)
            } else {
                grids[i]
            },
    )
}

/// One try to move the piece to the candidate. If every active board takes
/// it, the piece moves and no board changes. If not, the piece stays; under
/// gravity the boards that rejected lock it, otherwise nothing changes.
pub open spec fn attempt(s: PlayModel, candidate: Option<PieceModel>, gravity: bool) -> PlayModel {
    if accepted(s.grids, candidate) {
        PlayModel { piece: candidate->0, grids: s.grids }
    } else if gravity {
        PlayModel { piece: s.piece, grids: settle(s.grids, s.piece, candidate) }
    } else {
        s
    }
}

/// One step of gravity.
pub open spec fn drop_step(s: PlayModel) -> PlayModel {
    attempt(s, s.piece.moved(one_row_down()), true)
}

/// `n` steps of gravity in a row.
pub open spec fn drop_n(s: PlayModel, n: nat) -> PlayModel
    decreases n,
{
    if n == 0 {
        s
    } else {
        drop_n(drop_step(s), (n - 1) as nat)
    }
}

/// A hard drop: one step of gravity, and more as long as a board is active.
pub open spec fn fast_drop(s: PlayModel) -> PlayModel
    decreases active_count(s.grids), s.piece.center.y - i32::MIN,
    via fast_drop_terminates
{
    let t = drop_step(s);
    if any_active(t.grids) {
        fast_drop(t)
    } else {
        t
    }
}

#[via_fn]
proof fn fast_drop_terminates(s: PlayModel) {
    let t = drop_step(s);
    if any_active(t.grids) {
        lemma_drop_step_progress(s);
    }
}

/// Where the piece would come to rest on this board if it fell straight
/// down from where it is.
pub open spec fn landing(g: GridModel, piece: PieceModel) -> PieceModel
    decreases piece.center.y - i32::MIN,
{
    match piece.moved(one_row_down()) {
        Some(c) => if g.accepts(c) {
            landing(g, c)
        } else {
            piece
        },
        None => piece,
    }
}

pub open spec fn reset_all(grids: Seq<GridModel>) -> Seq<GridModel> {
    Seq::new(grids.len(), |i: int| grids[i].reset())
}

pub open spec fn activate_all(grids: Seq<GridModel>) -> Seq<GridModel> {
    Seq::new(grids.len(), |i: int| grids[i].activate())
}

/// Every active board shows the piece.
pub open spec fn show_piece(grids: Seq<GridModel>, piece: PieceModel) -> Seq<GridModel> {
    Seq::new(
        grids.len(),
        |i: int|
            if grids[i].active {
                grids[i].write(piece, CellValue::Piece(piece.piece_type))
            } else {
                grids[i]
            },
    )
}

/// Every active board shows where the piece would land on it.
pub open spec fn show_hint(grids: Seq<GridModel>, piece: PieceModel) -> Seq<GridModel> {
    Seq::new(
        grids.len(),
        |i: int|
            if grids[i].active {
                grids[i].write(landing(grids[i], piece), CellValue::DropHint)
            } else {
                grids[i]
            },
    )
}

/// Every active board shows the piece and, drawn over it, its drop hint.
pub open spec fn redraw(grids: Seq<GridModel>, piece: PieceModel) -> Seq<GridModel> {
    show_hint(show_piece(grids, piece), piece)
}

/// Where the center of a new piece goes on boards of the given size: the
/// middle column of both boards, the top row.
pub open spec fn spawn_center(width: int, height: int) -> Point3 {
    Point3 { x: width / 2, y: height - 1, z: width / 2 }
}

/// A new piece of the given type above boards of the given size.
pub open spec fn spawn_piece(piece_type: PieceType, width: int, height: int) -> PieceModel {
    PieceModel::fresh(piece_type, spawn_center(width, height))
}

/// The boards after a new piece appeared: all are active and show the piece
/// and its drop hint.
pub open spec fn spawned(grids: Seq<GridModel>, piece: PieceModel) -> Seq<GridModel> {
    redraw(activate_all(grids), piece)
}

/// What the event asks of the piece and the boards, before anything is
/// drawn again.
pub open spec fn respond(s: PlayModel, event: EventModel) -> PlayModel {
    match event {
        EventModel::Spawn => s,
        EventModel::Drop => drop_step(s),
        EventModel::FastDrop => fast_drop(s),
        EventModel::Translate(delta) => attempt(s, s.piece.moved(delta), false),
        EventModel::Rotate(m) => attempt(s, s.piece.turned(m), false),
    }
}

/// One event other than a spawn, from start to end: the boards forget what
/// they showed, the event is answered, and the active boards show the piece
/// and its drop hint.
pub open spec fn handle(s: PlayModel, event: EventModel) -> PlayModel {
    let t = respond(PlayModel { piece: s.piece, grids: reset_all(s.grids) }, event);
    PlayModel { piece: t.piece, grids: redraw(t.grids, t.piece) }
}

/// The falling piece, if there is one, and the boards, as mathematical
/// values.
pub struct TableModel {
    pub piece: Option<PieceModel>,
    pub grids: Seq<GridModel>,
}

/// What handling events led to.
pub struct RunModel {
    pub table: TableModel,
    /// How many events were handled.
    pub handled: nat,
    /// Whether a new piece is due.
    pub respawn: bool,
}

/// One event, from start to end, but for the new piece that it may ask for.
/// Every board first forgets what it showed. A spawn event asks for a new
/// piece. Without a piece nothing else happens. Any other event is handled
/// for the piece, and a new piece is due if no board is active afterwards.
pub open spec fn step(table: TableModel, event: EventModel) -> RunModel {
    if event is Spawn {
        RunModel {
            table: TableModel { piece: table.piece, grids: reset_all(table.grids) },
            handled: 1,
            respawn: true,
        }
    } else {
        match table.piece {
            None => RunModel {
                table: TableModel { piece: None, grids: reset_all(table.grids) },
                handled: 1,
                respawn: false,
            },
            Some(p) => {
                let t = handle(PlayModel { piece: p, grids: table.grids }, event);
                RunModel {
                    table: TableModel { piece: Some(t.piece), grids: t.grids },
                    handled: 1,
                    respawn: !any_active(t.grids),
                }
            },
        }
    }
}

/// The events handled in the order in which they came, up to and including
/// the first after which a new piece is due. Later events are left alone.
pub open spec fn run(table: TableModel, events: Seq<EventModel>) -> RunModel
    decreases events.len(),
{
    if events.len() == 0 {
        RunModel { table, handled: 0, respawn: false }
    } else {
        let first = step(table, events[0]);
        if first.respawn {
            first
        } else {
            let rest = run(first.table, events.drop_first());
            RunModel { handled: rest.handled + 1, ..rest }
        }
    }
}

/// The same result, with `n` more events counted as handled.
pub open spec fn counting(r: RunModel, n: nat) -> RunModel {
    RunModel { handled: r.handled + n, ..r }
}

/// Locking the piece on the rejecting boards leaves no more boards active
/// than before, and fewer where a board rejected.
pub proof fn lemma_settle_count(
    grids: Seq<GridModel>,
    piece: PieceModel,
    candidate: Option<PieceModel>,
)
    ensures
        active_count(settle(grids, piece, candidate)) <= active_count(grids),
        (exists|i: int| 0 <= i < grids.len() && rejects(#[trigger] grids[i], candidate))
            ==> active_count(settle(grids, piece, candidate)) < active_count(grids),
    decreases grids.len(),
{
    if grids.len() > 0 {
        let front = grids.drop_last();
        lemma_settle_count(front, piece, candidate);
        assert(settle(grids, piece, candidate).drop_last() =~= settle(front, piece, candidate));
        if exists|i: int| 0 <= i < grids.len() && rejects(#[trigger] grids[i], candidate) {
            let i = choose|i: int| 0 <= i < grids.len() && rejects(#[trigger] grids[i], candidate);
            if i < grids.len() - 1 {
                assert(rejects(front[i], candidate));
            }
        }
    }
}

/// No board is active exactly where the count of active boards is zero.
pub proof fn lemma_active_count_zero(grids: Seq<GridModel>)
    ensures
        any_active(grids) <==> active_count(grids) > 0,
    decreases grids.len(),
{
    if grids.len() > 0 {
        let front = grids.drop_last();
        lemma_active_count_zero(front);
        if any_active(grids) {
            let i = choose|i: int| 0 <= i < grids.len() && (#[trigger] grids[i]).active;
            if i < grids.len() - 1 {
                assert(front[i].active);
            }
        }
        if any_active(front) {
            let i = choose|i: int| 0 <= i < front.len() && (#[trigger] front[i]).active;
            assert(grids[i].active);
        }
        if grids.last().active {
            assert(grids[grids.len() - 1].active);
        }
    }
}

/// A step of gravity that leaves a board active either took the piece one
/// row down, to a place that can be stored, or locked a board.
pub proof fn lemma_drop_step_progress(s: PlayModel)
    requires
        any_active(drop_step(s).grids),
    ensures
        active_count(drop_step(s).grids) < active_count(s.grids) || (active_count(
            drop_step(s).grids,
        ) == active_count(s.grids) && i32::MIN <= drop_step(s).piece.center.y
            == s.piece.center.y - 1),
{
    let candidate = s.piece.moved(one_row_down());
    let t = drop_step(s);
    if !accepted(s.grids, candidate) {
        lemma_settle_count(s.grids, s.piece, candidate);
        if !(exists|i: int| 0 <= i < s.grids.len() && rejects(#[trigger] s.grids[i], candidate)) {
            // With no board to reject it, only a candidate that cannot be
            // stored fails, and then no board was active.
            let i = choose|i: int| 0 <= i < t.grids.len() && (#[trigger] t.grids[i]).active;
            assert(!rejects(s.grids[i], candidate));
            assert(t.grids[i] == s.grids[i]);
            assert(false);
        }
    }
}

/// A move that gravity does not ask for and that some active board rejects,
/// or that cannot be stored, changes neither the piece nor any board.
pub proof fn lemma_rejected_move_changes_nothing(s: PlayModel, candidate: Option<PieceModel>)
    requires
        !accepted(s.grids, candidate),
    ensures
        attempt(s, candidate, false) == s,
{
}

/// A push or a turn that is rejected leaves the piece where it was, and the
/// boards as drawing them again leaves them. Boards that had been drawn for
/// this piece are therefore left exactly as they were.
pub proof fn lemma_rejected_event_keeps_state(s: PlayModel, event: EventModel)
    requires
        event is Translate || event is Rotate,
        !accepted(
            reset_all(s.grids),
            match event {
                EventModel::Translate(delta) => s.piece.moved(delta),
                EventModel::Rotate(m) => s.piece.turned(m),
                _ => None,
            },
        ),
    ensures
        handle(s, event).piece == s.piece,
        handle(s, event).grids == redraw(reset_all(s.grids), s.piece),
        s.grids == redraw(reset_all(s.grids), s.piece) ==> handle(s, event) == s,
{
}

/// As long as nothing is in its way, each step of gravity takes the piece
/// down by exactly one row and changes no board.
pub proof fn lemma_unobstructed_drops(s: PlayModel, n: nat)
    requires
        forall|j: int| 1 <= j <= n ==> accepted(s.grids, #[trigger] s.piece.moved_down(j)),
    ensures
        drop_n(s, n) == (PlayModel { piece: s.piece.down(n as int), grids: s.grids }),
    decreases n,
{
    if n == 0 {
        assert(s.piece.down(0) == s.piece);
    } else {
        assert(accepted(s.grids, s.piece.moved_down(1)));
        assert(s.piece.down(1) == s.piece.translate(one_row_down()));
        let t = drop_step(s);
        assert(t == PlayModel { piece: s.piece.down(1), grids: s.grids });
        assert forall|j: int| 1 <= j <= n - 1 implies accepted(
            t.grids,
            #[trigger] t.piece.moved_down(j),
        ) by {
            assert(accepted(s.grids, s.piece.moved_down(j + 1)));
            assert(t.piece.down(j) == s.piece.down(j + 1));
        }
        lemma_unobstructed_drops(t, (n - 1) as nat);
        assert(t.piece.down(n - 1) == s.piece.down(n as int));
    }
}

/// A hard drop is a number of steps of gravity in a row: at least one, and
/// then as many as it takes until no board is active.
pub proof fn lemma_fast_drop_is_repeated_drop(s: PlayModel) -> (n: nat)
    ensures
        n >= 1,
        fast_drop(s) == drop_n(s, n),
        !any_active(drop_n(s, n).grids),
        forall|j: nat| 1 <= j < n ==> any_active(#[trigger] drop_n(s, j).grids),
    decreases active_count(s.grids), s.piece.center.y - i32::MIN,
{
    let t = drop_step(s);
    assert(drop_n(s, 1) == t) by {
        assert(drop_n(t, 0) == t);
    }
    if any_active(t.grids) {
        lemma_drop_step_progress(s);
        let m = lemma_fast_drop_is_repeated_drop(t);
        assert forall|j: nat| 1 <= j < m + 1 implies any_active(#[trigger] drop_n(s, j).grids) by {
            if j > 1 {
                assert(drop_n(s, j) == drop_n(t, (j - 1) as nat));
                assert(any_active(drop_n(t, (j - 1) as nat).grids));
            }
        }
        m + 1
    } else {
        1
    }
}

} // verus!
