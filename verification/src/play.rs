use vstd::prelude::*;
use crate::falling_piece::{
    one_row_down, EventModel, FallingPiece, FallingPieceEvent, PieceModel,
};
use crate::grab_bag::{full_bag, GrabBag};
use crate::grid::Grid;
use crate::grid_model::{has_no_hint, CellValue, GridModel, PieceCollisionResult};
use crate::piece::PieceType;
use crate::play_model::{
    accepted, active_count, active_show_no_hint, activate_all, any_active, attempt, counting,
    drop_step, fast_drop, landing, lemma_active_count_zero, lemma_drop_step_progress, redraw,
    rejects, reset_all, respond, run, settle, show_hint, show_piece, spawn_piece, spawned, step,
    PlayModel, TableModel,
};
use crate::rotation::Rotation;
use crate::vector::IVec3;

verus! {

/// The boards as mathematical values, in the order in which they stand.
pub open spec fn models(grids: Seq<Grid>) -> Seq<GridModel> {
    Seq::new(grids.len(), |i: int| grids[i]@)
}

pub open spec fn grids_wf(grids: Seq<Grid>) -> bool {
    forall|i: int| 0 <= i < grids.len() ==> (#[trigger] grids[i]).wf()
}

/// The piece and the boards as one mathematical value.
pub open spec fn state(piece: FallingPiece, grids: Seq<Grid>) -> PlayModel {
    PlayModel { piece: piece@, grids: models(grids) }
}

/// The candidate of a move as a mathematical value.
pub open spec fn candidate_of(piece: Option<FallingPiece>) -> Option<PieceModel> {
    match piece {
        Some(p) => Some(p@),
        None => None,
    }
}

/// What a batch of events led to.
#[derive(Clone, Copy, Debug, PartialEq, Eq, Structural)]
pub struct BatchOutcome {
    /// How many events of the batch were handled; the rest were dropped.
    pub handled: usize,
    /// Whether the batch ended with a new piece.
    pub spawned: bool,
}

proof fn lemma_write_keeps_hint_free(g: GridModel, piece: PieceModel, value: CellValue)
    requires
        g.wf(),
        has_no_hint(g.visible),
        value != CellValue::DropHint,
    ensures
        has_no_hint(g.write(piece, value).visible),
        g.write(piece, value).wf(),
{
}

proof fn lemma_settle_accepted(
    grids: Seq<GridModel>,
    piece: PieceModel,
    candidate: Option<PieceModel>,
)
    requires
        accepted(grids, candidate),
    ensures
        settle(grids, piece, candidate) == grids,
{
    assert(settle(grids, piece, candidate) =~= grids);
}

proof fn lemma_show_hint_inactive(grids: Seq<GridModel>, piece: PieceModel)
    requires
        !any_active(grids),
    ensures
        show_hint(grids, piece) == grids,
{
    assert(show_hint(grids, piece) =~= grids);
}

fn move_accepted_in_grid(new_piece: &FallingPiece, grid: &Grid) -> (ok: bool)
    requires
        grid.wf(),
        new_piece.wf(),
    ensures
        ok == grid@.accepts(new_piece@),
{
    match grid.check_piece_collision(new_piece) {
        PieceCollisionResult::NoCollision => true,
        PieceCollisionResult::OutOfBounds | PieceCollisionResult::HitOtherPiece => false,
    }
}

/// Asks every active board whether it takes the candidate. With
/// `commit_when_stuck`, each board that does not take it locks the piece
/// where it is. No board is skipped once one has rejected.
fn move_accepted_in_all_active_grids(
    old_piece: &FallingPiece,
    new_piece: &Option<FallingPiece>,
    commit_when_stuck: bool,
    grids: &mut Vec<Grid>,
) -> (ok: bool)
    requires
        grids_wf(old(grids)@),
        old_piece.wf(),
        new_piece matches Some(p) ==> p.wf(),
        commit_when_stuck ==> active_show_no_hint(models(old(grids)@)),
    ensures
        grids_wf(final(grids)@),
        ok == accepted(models(old(grids)@), candidate_of(*new_piece)),
        models(final(grids)@) == if commit_when_stuck {
            settle(models(old(grids)@), old_piece@, candidate_of(*new_piece))
        } else {
            models(old(grids)@)
        },
        !commit_when_stuck ==> final(grids)@ == old(grids)@,
{
    let ghost before = models(grids@);
    let ghost candidate = candidate_of(*new_piece);
    let mut all_accept = true;
    let mut i: usize = 0;
    while i < grids.len()
        invariant
            grids.len() == old(grids).len(),
            before == models(old(grids)@),
            candidate == candidate_of(*new_piece),
            grids_wf(grids@),
            old_piece.wf(),
            new_piece matches Some(p) ==> p.wf(),
            commit_when_stuck ==> active_show_no_hint(before),
            !commit_when_stuck ==> grids@ == old(grids)@,
            i <= grids.len(),
            all_accept == forall|j: int| 0 <= j < i ==> !rejects(#[trigger] before[j], candidate),
            forall|j: int| i <= j < grids.len() ==> (#[trigger] grids[j])@ == before[j],
            forall|j: int|
                0 <= j < i ==> (#[trigger] grids[j])@ == if commit_when_stuck {
                    settle(before, old_piece@, candidate)[j]
                } else {
                    before[j]
                },
        decreases grids.len() - i,
    {
        assert(grids[i as int]@ == before[i as int]);
        if grids[i].is_active() {
            let taken = match new_piece {
                Some(p) => move_accepted_in_grid(p, &grids[i]),
                None => false,
            };
            if !taken {
                if commit_when_stuck {
                    proof {
                        lemma_write_keeps_hint_free(
                            before[i as int],
                            old_piece@,
                            CellValue::Piece(old_piece@.piece_type),
                        );
                    }
                    grids[i].write_piece(old_piece);
                    grids[i].deactivate();
                }
                all_accept = false;
            }
        }
        i += 1;
    }
    proof {
        if commit_when_stuck {
            assert(models(grids@) =~= settle(before, old_piece@, candidate));
        } else {
            assert(models(grids@) =~= before);
        }
    }
    all_accept && new_piece.is_some()
}

/// Whether a board still follows the piece.
pub fn any_grid_active(grids: &Vec<Grid>) -> (any: bool)
    ensures
        any == any_active(models(grids@)),
{
    let mut i: usize = 0;
    while i < grids.len()
        invariant
            i <= grids.len(),
            forall|j: int| 0 <= j < i ==> !(#[trigger] models(grids@)[j]).active,
        decreases grids.len() - i,
    {
        if grids[i].is_active() {
            assert(models(grids@)[i as int].active);
            return true;
        }
        i += 1;
    }
    false
}

/// One step of gravity. The piece moves one row down if every active board
/// takes it there. Otherwise it stays, and each board that did not take it
/// locks it. Returns whether the piece moved.
///
/// A board that locks the piece makes permanent what it shows, so no active
/// board may show a drop hint when this is called.
pub fn try_drop_piece(piece: &mut FallingPiece, grids: &mut Vec<Grid>) -> (moved: bool)
    requires
        old(piece).wf(),
        grids_wf(old(grids)@),
        active_show_no_hint(models(old(grids)@)),
    ensures
        final(piece).wf(),
        grids_wf(final(grids)@),
        state(*final(piece), final(grids)@) == drop_step(state(*old(piece), old(grids)@)),
        moved == accepted(models(old(grids)@), old(piece)@.moved(one_row_down())),
{
    let new_piece = piece.translated(IVec3::new(0, -1, 0));
    proof {
        if accepted(models(grids@), candidate_of(new_piece)) {
            lemma_settle_accepted(models(grids@), piece@, candidate_of(new_piece));
        }
    }
    if move_accepted_in_all_active_grids(piece, &new_piece, true, grids) {
        *piece = new_piece.unwrap();
        true
    } else {
        false
    }
}

/// A hard drop: steps of gravity until no board is active. Returns how many
/// rows the piece came down.
///
/// A board that locks the piece makes permanent what it shows, so no active
/// board may show a drop hint when this is called.
pub fn fast_drop_piece(piece: &mut FallingPiece, grids: &mut Vec<Grid>) -> (rows_dropped: i32)
    requires
        old(piece).wf(),
        grids_wf(old(grids)@),
        active_show_no_hint(models(old(grids)@)),
    ensures
        final(piece).wf(),
        grids_wf(final(grids)@),
        state(*final(piece), final(grids)@) == fast_drop(state(*old(piece), old(grids)@)),
        !any_active(models(final(grids)@)),
        rows_dropped == old(piece)@.center.y - final(piece)@.center.y,
{
    fast_drop_piece_in_all_active_grids(piece, true, grids)
}

/// Steps of gravity until no board is active, at least one. Returns how many
/// rows the piece came down. A board that rejects a step has to lock the
/// piece, or it would stay active for ever: `commit_when_stuck` must be set.
fn fast_drop_piece_in_all_active_grids(
    piece: &mut FallingPiece,
    commit_when_stuck: bool,
    grids: &mut Vec<Grid>,
) -> (rows_dropped: i32)
    requires
        commit_when_stuck,
        old(piece).wf(),
        grids_wf(old(grids)@),
        active_show_no_hint(models(old(grids)@)),
    ensures
        final(piece).wf(),
        grids_wf(final(grids)@),
        state(*final(piece), final(grids)@) == fast_drop(state(*old(piece), old(grids)@)),
        !any_active(models(final(grids)@)),
        rows_dropped == old(piece)@.center.y - final(piece)@.center.y,
{
    let mut rows_dropped: i32 = 0;
    let ghost target = fast_drop(state(*piece, grids@));

    loop
        invariant_except_break
            fast_drop(state(*piece, grids@)) == target,
            rows_dropped > 0 ==> any_active(models(grids@)),
        invariant
            commit_when_stuck,
            piece.wf(),
            grids_wf(grids@),
            active_show_no_hint(models(grids@)),
            0 <= rows_dropped == old(piece)@.center.y - piece@.center.y,
            piece@.center.fits(),
            old(piece)@.center.fits(),
        ensures
            state(*piece, grids@) == target,
            !any_active(models(grids@)),
        decreases active_count(models(grids@)), piece@.center.y - i32::MIN,
    {
        let ghost s = state(*piece, grids@);
        let new_piece = piece.translated(IVec3::new(0, -1, 0));
        proof {
            if accepted(s.grids, candidate_of(new_piece)) {
                lemma_settle_accepted(s.grids, piece@, candidate_of(new_piece));
            }
        }
        let ghost had_active = any_active(s.grids);
        if move_accepted_in_all_active_grids(piece, &new_piece, commit_when_stuck, grids) {
            proof {
                if had_active {
                    let k = choose|k: int| 0 <= k < s.grids.len() && (#[trigger] s.grids[k]).active;
                    assert(!rejects(s.grids[k], candidate_of(new_piece)));
                    assert(s.grids[k].in_bounds(s.grids[k].cell(new_piece->0@, 0)));
                    assert(new_piece->0@.cells()[0] == new_piece->0@.center);
                    assert(0 <= new_piece->0@.center.y);
                }
            }
            rows_dropped += 1;
            *piece = new_piece.unwrap();
        }
        assert(state(*piece, grids@) == drop_step(s));
        assert(active_show_no_hint(models(grids@)));

        let any_grids_active = any_grid_active(grids);
        if !any_grids_active {
            break ;
        }
        proof {
            lemma_drop_step_progress(s);
            assert(had_active) by {
                lemma_active_count_zero(s.grids);
                lemma_active_count_zero(models(grids@));
            }
        }
    }

    rows_dropped
}

/// Where the piece would come to rest on `grid` if it fell straight down.
/// Neither the piece nor the board changes.
pub fn speculate_fast_drop_piece(piece: &FallingPiece, grid: &Grid) -> (moved_piece: FallingPiece)
    requires
        piece.wf(),
        grid.wf(),
    ensures
        moved_piece.wf(),
        moved_piece@ == landing(grid@, piece@),
{
    let mut moved_piece = *piece;
    fast_drop_piece_in_grid(&mut moved_piece, grid);

    moved_piece
}

/// Moves the piece down on one board for as long as the board takes it.
fn fast_drop_piece_in_grid(piece: &mut FallingPiece, grid: &Grid)
    requires
        old(piece).wf(),
        grid.wf(),
    ensures
        final(piece).wf(),
        final(piece)@ == landing(grid@, old(piece)@),
{
    loop
        invariant_except_break
            landing(grid@, piece@) == landing(grid@, old(piece)@),
        invariant
            piece.wf(),
            grid.wf(),
        ensures
            piece@ == landing(grid@, old(piece)@),
        decreases piece@.center.y - i32::MIN,
    {
        let taken = match piece.translated(IVec3::new(0, -1, 0)) {
            Some(lower) => if move_accepted_in_grid(&lower, grid) {
                *piece = lower;
                true
            } else {
                false
            },
            None => false,
        };
        if !taken {
            break ;
        }
    }
}

/// A turn that the player asked for. The piece turns if every active board
/// takes it turned; otherwise nothing changes. Returns whether it turned.
pub fn try_rotate_piece(rotation: Rotation, piece: &mut FallingPiece, grids: &mut Vec<Grid>) -> (moved:
    bool)
    requires
        old(piece).wf(),
        grids_wf(old(grids)@),
    ensures
        final(piece).wf(),
        grids_wf(final(grids)@),
        state(*final(piece), final(grids)@) == attempt(
            state(*old(piece), old(grids)@),
            old(piece)@.turned(rotation@),
            false,
        ),
        moved == accepted(models(old(grids)@), old(piece)@.turned(rotation@)),
        final(grids)@ == old(grids)@,
        !moved ==> *final(piece) == *old(piece),
{
    let new_piece = piece.rotated(&rotation.matrix);
    if move_accepted_in_all_active_grids(piece, &new_piece, false, grids) {
        *piece = new_piece.unwrap();
        true
    } else {
        false
    }
}

/// A push that the player asked for. The piece moves by `translation` if
/// every active board takes it there; otherwise nothing changes. Returns
/// whether it moved.
pub fn try_translate_piece(
    translation: IVec3,
    piece: &mut FallingPiece,
    grids: &mut Vec<Grid>,
) -> (moved: bool)
    requires
        old(piece).wf(),
        grids_wf(old(grids)@),
    ensures
        final(piece).wf(),
        grids_wf(final(grids)@),
        state(*final(piece), final(grids)@) == attempt(
            state(*old(piece), old(grids)@),
            old(piece)@.moved(translation@),
            false,
        ),
        moved == accepted(models(old(grids)@), old(piece)@.moved(translation@)),
        final(grids)@ == old(grids)@,
        !moved ==> *final(piece) == *old(piece),
{
    let new_piece = piece.translated(translation);
    if move_accepted_in_all_active_grids(piece, &new_piece, false, grids) {
        *piece = new_piece.unwrap();
        true
    } else {
        false
    }
}

/// Every board forgets what it showed.
fn reset_grids(grids: &mut Vec<Grid>)
    requires
        grids_wf(old(grids)@),
    ensures
        grids_wf(final(grids)@),
        models(final(grids)@) == reset_all(models(old(grids)@)),
{
    let mut i: usize = 0;
    while i < grids.len()
        invariant
            grids.len() == old(grids).len(),
            grids_wf(grids@),
            i <= grids.len(),
            forall|j: int| i <= j < grids.len() ==> (#[trigger] grids[j])@ == old(grids)[j]@,
            forall|j: int| 0 <= j < i ==> (#[trigger] grids[j])@ == old(grids)[j]@.reset(),
        decreases grids.len() - i,
    {
        grids[i].copy_master_to_visible();
        i += 1;
    }
    assert(models(grids@) =~= reset_all(models(old(grids)@)));
}

fn write_piece_to_active_grids(piece: &FallingPiece, grids: &mut Vec<Grid>)
    requires
        piece.wf(),
        grids_wf(old(grids)@),
    ensures
        grids_wf(final(grids)@),
        models(final(grids)@) == show_piece(models(old(grids)@), piece@),
{
    let mut i: usize = 0;
    while i < grids.len()
        invariant
            grids.len() == old(grids).len(),
            grids_wf(grids@),
            piece.wf(),
            i <= grids.len(),
            forall|j: int| i <= j < grids.len() ==> (#[trigger] grids[j])@ == old(grids)[j]@,
            forall|j: int|
                0 <= j < i ==> (#[trigger] grids[j])@ == show_piece(
                    models(old(grids)@),
                    piece@,
                )[j],
        decreases grids.len() - i,
    {
        if grids[i].is_active() {
            grids[i].write_piece(piece);
        }
        i += 1;
    }
    assert(models(grids@) =~= show_piece(models(old(grids)@), piece@));
}

fn write_drop_hint_in_active_grids(piece: &FallingPiece, grids: &mut Vec<Grid>)
    requires
        piece.wf(),
        grids_wf(old(grids)@),
    ensures
        grids_wf(final(grids)@),
        models(final(grids)@) == show_hint(models(old(grids)@), piece@),
{
    let mut i: usize = 0;
    while i < grids.len()
        invariant
            grids.len() == old(grids).len(),
            grids_wf(grids@),
            piece.wf(),
            i <= grids.len(),
            forall|j: int| i <= j < grids.len() ==> (#[trigger] grids[j])@ == old(grids)[j]@,
            forall|j: int|
                0 <= j < i ==> (#[trigger] grids[j])@ == show_hint(
                    models(old(grids)@),
                    piece@,
                )[j],
        decreases grids.len() - i,
    {
        if grids[i].is_active() {
            let dropped_piece = speculate_fast_drop_piece(piece, &grids[i]);
            grids[i].write_piece_with_value(&dropped_piece, CellValue::DropHint);
        }
        i += 1;
    }
    assert(models(grids@) =~= show_hint(models(old(grids)@), piece@));
}

/// Puts a new piece of the given type in the middle of the top row. Every
/// board becomes active and shows the piece and its drop hint. This always
/// succeeds, also where the new piece lies on committed cubes.
pub fn place_new_piece(piece_type: PieceType, grid_shape: [usize; 2], grids: &mut Vec<Grid>) -> (piece:
    FallingPiece)
    requires
        grid_shape[0] <= i32::MAX,
        grid_shape[1] <= i32::MAX,
        grids_wf(old(grids)@),
    ensures
        piece.wf(),
        grids_wf(final(grids)@),
        piece@ == spawn_piece(piece_type, grid_shape[0] as int, grid_shape[1] as int),
        models(final(grids)@) == spawned(models(old(grids)@), piece@),
{
    let shape_x = grid_shape[0] as i32;
    let shape_y = grid_shape[1] as i32;
    let center_position = IVec3::new(shape_x / 2, shape_y - 1, shape_x / 2);
    let piece = FallingPiece::new(piece_type, center_position);

    let mut i: usize = 0;
    while i < grids.len()
        invariant
            grids.len() == old(grids).len(),
            grids_wf(grids@),
            piece.wf(),
            i <= grids.len(),
            forall|j: int| i <= j < grids.len() ==> (#[trigger] grids[j])@ == old(grids)[j]@,
            forall|j: int|
                0 <= j < i ==> (#[trigger] grids[j])@ == show_piece(
                    activate_all(models(old(grids)@)),
                    piece@,
                )[j],
        decreases grids.len() - i,
    {
        grids[i].activate();
        grids[i].write_piece(&piece);
        i += 1;
    }
    assert(models(grids@) =~= show_piece(activate_all(models(old(grids)@)), piece@));

    write_drop_hint_in_active_grids(&piece, grids);

    piece
}

/// Whether `next_type` can be the piece that a draw takes from the bag
/// `before` and leaves the bag `after`: the last piece of a bag that still
/// holds one, any piece of a freshly filled bag otherwise.
pub open spec fn is_draw(
    before: Seq<PieceType>,
    repeats: nat,
    next_type: PieceType,
    after: Seq<PieceType>,
) -> bool {
    if before.len() > 0 {
        next_type == before.last() && after == before.drop_last()
    } else {
        after.push(next_type).to_multiset() == full_bag(repeats)
    }
}

/// Draws the next piece type from the bag and puts a new piece of that type
/// in the middle of the top row.
pub fn spawn_falling_piece(grid_shape: [usize; 2], grab_bag: &mut GrabBag, grids: &mut Vec<Grid>) -> (piece:
    FallingPiece)
    requires
        grid_shape[0] <= i32::MAX,
        grid_shape[1] <= i32::MAX,
        old(grab_bag).wf(),
        grids_wf(old(grids)@),
    ensures
        piece.wf(),
        grids_wf(final(grids)@),
        final(grab_bag).wf(),
        final(grab_bag).repeats() == old(grab_bag).repeats(),
        is_draw(old(grab_bag)@, old(grab_bag).repeats(), piece@.piece_type, final(grab_bag)@),
        piece@ == spawn_piece(piece@.piece_type, grid_shape[0] as int, grid_shape[1] as int),
        models(final(grids)@) == spawned(models(old(grids)@), piece@),
{
    let piece_type = grab_bag.choose_next_piece_type();
    place_new_piece(piece_type, grid_shape, grids)
}

/// The piece, if there is one, and the boards as one mathematical value.
pub open spec fn table(piece: Option<FallingPiece>, grids: Seq<Grid>) -> TableModel {
    TableModel { piece: candidate_of(piece), grids: models(grids) }
}

/// Handles one event, but for the new piece that it may ask for. Returns
/// whether a new piece is due: after a spawn event, and after an event that
/// left no board active.
pub fn process_event(
    event: &FallingPieceEvent,
    piece: &mut Option<FallingPiece>,
    grids: &mut Vec<Grid>,
) -> (respawn: bool)
    requires
        *old(piece) matches Some(p) ==> p.wf(),
        grids_wf(old(grids)@),
    ensures
        *final(piece) matches Some(p) ==> p.wf(),
        grids_wf(final(grids)@),
        table(*final(piece), final(grids)@) == step(table(*old(piece), old(grids)@), event@).table,
        respawn == step(table(*old(piece), old(grids)@), event@).respawn,
{
    // Reset the visible copy of the grid.
    reset_grids(grids);

    if let FallingPieceEvent::Spawn = event {
        return true;
    }
    let mut current = match *piece {
        Some(p) => p,
        None => { return false; },
    };
    match *event {
        FallingPieceEvent::Drop => {
            try_drop_piece(&mut current, grids);
        },
        FallingPieceEvent::FastDrop => {
            fast_drop_piece(&mut current, grids);
        },
        FallingPieceEvent::Rotate(rotation) => {
            try_rotate_piece(rotation, &mut current, grids);
        },
        FallingPieceEvent::Translate(translation) => {
            try_translate_piece(translation, &mut current, grids);
        },
        FallingPieceEvent::Spawn => {},
    }
    write_piece_to_active_grids(&current, grids);

    let any_active_grids = any_grid_active(grids);
    if any_active_grids {
        write_drop_hint_in_active_grids(&current, grids);
    } else {
        proof {
            lemma_show_hint_inactive(models(grids@), current@);
        }
    }
    *piece = Some(current);
    proof {
        let answered = respond(
            PlayModel { piece: old(piece)->0@, grids: reset_all(models(old(grids)@)) },
            event@,
        );
        assert(models(grids@) == redraw(answered.grids, current@));
        lemma_redraw_keeps_active(answered.grids, current@);
    }
    !any_active_grids
}

/// The events as mathematical values, in the order in which they came.
pub open spec fn event_models(events: Seq<FallingPieceEvent>) -> Seq<EventModel> {
    Seq::new(events.len(), |i: int| events[i]@)
}

/// Handles the events in the order in which they came, but for the new piece
/// that one of them may ask for. It stops after the first event that makes a
/// new piece due; the events behind it are dropped, since they were meant for
/// the piece that is gone. Returns how many events were handled and whether a
/// new piece is due.
pub fn process_events(
    events: &Vec<FallingPieceEvent>,
    piece: &mut Option<FallingPiece>,
    grids: &mut Vec<Grid>,
) -> (outcome: (usize, bool))
    requires
        *old(piece) matches Some(p) ==> p.wf(),
        grids_wf(old(grids)@),
    ensures
        *final(piece) matches Some(p) ==> p.wf(),
        grids_wf(final(grids)@),
        table(*final(piece), final(grids)@) == run(table(*old(piece), old(grids)@), event_models(events@)).table,
        outcome.0 == run(table(*old(piece), old(grids)@), event_models(events@)).handled,
        outcome.1 == run(table(*old(piece), old(grids)@), event_models(events@)).respawn,
{
    let ghost start = table(*piece, grids@);
    let mut i: usize = 0;
    assert(event_models(events@).skip(0) =~= event_models(events@));
    while i < events.len()
        invariant
            i <= events.len(),
            *piece matches Some(p) ==> p.wf(),
            grids_wf(grids@),
            start == table(*old(piece), old(grids)@),
            run(start, event_models(events@)) == counting(
                run(table(*piece, grids@), event_models(events@).skip(i as int)),
                i as nat,
            ),
        decreases events.len() - i,
    {
        let ghost rest = event_models(events@).skip(i as int);
        assert(rest[0] == events@[i as int]@);
        assert(rest.drop_first() =~= event_models(events@).skip(i + 1));
        let respawn = process_event(&events[i], piece, grids);
        i += 1;
        if respawn {
            return (i, true);
        }
    }
    (i, false)
}

/// Handles a batch of events in the order in which they came. Where an event
/// makes a new piece due, the next piece type is drawn from the bag, a piece
/// of that type appears in the middle of the top row, and the rest of the
/// batch is dropped.
pub fn update_falling_piece(
    events: &Vec<FallingPieceEvent>,
    piece: &mut Option<FallingPiece>,
    grids: &mut Vec<Grid>,
    grab_bag: &mut GrabBag,
    grid_size: [usize; 2],
) -> (outcome: BatchOutcome)
    requires
        grid_size[0] <= i32::MAX,
        grid_size[1] <= i32::MAX,
        *old(piece) matches Some(p) ==> p.wf(),
        grids_wf(old(grids)@),
        old(grab_bag).wf(),
    ensures
        *final(piece) matches Some(p) ==> p.wf(),
        grids_wf(final(grids)@),
        final(grab_bag).wf(),
        final(grab_bag).repeats() == old(grab_bag).repeats(),
        outcome.handled == run(table(*old(piece), old(grids)@), event_models(events@)).handled,
        outcome.spawned == run(table(*old(piece), old(grids)@), event_models(events@)).respawn,
        !outcome.spawned ==> final(grab_bag)@ == old(grab_bag)@ && table(
            *final(piece),
            final(grids)@,
        ) == run(table(*old(piece), old(grids)@), event_models(events@)).table,
        outcome.spawned ==> (*final(piece) matches Some(p) && is_draw(
            old(grab_bag)@,
            old(grab_bag).repeats(),
            p@.piece_type,
            final(grab_bag)@,
        ) && p@ == spawn_piece(p@.piece_type, grid_size[0] as int, grid_size[1] as int)
            && models(final(grids)@) == spawned(
            run(table(*old(piece), old(grids)@), event_models(events@)).table.grids,
            p@,
        )),
{
    let (handled, respawn) = process_events(events, piece, grids);
    if respawn {
        *piece = Some(spawn_falling_piece(grid_size, grab_bag, grids));
    }
    BatchOutcome { handled, spawned: respawn }
}

proof fn lemma_redraw_keeps_active(grids: Seq<GridModel>, piece: PieceModel)
    ensures
        any_active(redraw(grids, piece)) == any_active(grids),
        any_active(show_piece(grids, piece)) == any_active(grids),
{
    let shown = show_piece(grids, piece);
    let drawn = redraw(grids, piece);
    if any_active(grids) {
        let i = choose|i: int| 0 <= i < grids.len() && (#[trigger] grids[i]).active;
        assert(shown[i].active);
        assert(drawn[i].active);
    }
    if any_active(shown) {
        let i = choose|i: int| 0 <= i < shown.len() && (#[trigger] shown[i]).active;
        assert(grids[i].active);
    }
    if any_active(drawn) {
        let i = choose|i: int| 0 <= i < drawn.len() && (#[trigger] drawn[i]).active;
        assert(shown[i].active);
        assert(grids[i].active);
    }
}

} // verus!
