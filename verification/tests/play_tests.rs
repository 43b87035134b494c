use projectris::{
    any_grid_active, fast_drop_piece, place_new_piece, process_event, process_events,
    spawn_falling_piece, speculate_fast_drop_piece, try_drop_piece, try_rotate_piece,
    try_translate_piece, update_falling_piece, BatchOutcome, CellValue, FallingPiece,
    FallingPieceEvent, GrabBag, Grid, IVec3, PieceCollisionResult, PieceType, Projection,
    Rotation, ALL_PIECE_TYPES,
};

/// The rows of a layer from the top row down, one letter per cell.
fn picture(grid: &Grid, visible: bool) -> Vec<String> {
    let mut rows = Vec::new();
    for y in (0..grid.height()).rev() {
        let mut row = String::new();
        for x in 0..grid.width() {
            let value = if visible { grid.visible_at(x, y) } else { grid.master_at(x, y) };
            row.push(match value.unwrap() {
                CellValue::Empty => '.',
                CellValue::DropHint => '+',
                CellValue::Piece(PieceType::Stick) => 'S',
                CellValue::Piece(PieceType::Box) => 'B',
                CellValue::Piece(PieceType::Jay) => 'J',
                CellValue::Piece(PieceType::Zee) => 'Z',
                CellValue::Piece(PieceType::Tee) => 'T',
                CellValue::Piece(PieceType::Chi) => 'C',
                CellValue::Piece(PieceType::Ral) => 'R',
                CellValue::Piece(PieceType::Legs) => 'L',
            });
        }
        rows.push(row);
    }
    rows
}

fn two_boards(width: i32, height: i32) -> Vec<Grid> {
    vec![
        Grid::new(width, height, Projection::LeftFace),
        Grid::new(width, height, Projection::RightFace),
    ]
}

fn snapshot(grids: &Vec<Grid>) -> Vec<(Vec<String>, Vec<String>, bool)> {
    grids.iter().map(|g| (picture(g, false), picture(g, true), g.is_active())).collect()
}

fn offsets_of(piece: &FallingPiece) -> Vec<[i32; 3]> {
    piece.offsets().iter().map(|o| [o.x, o.y, o.z]).collect()
}

fn reset(grids: &mut Vec<Grid>) {
    for grid in grids.iter_mut() {
        grid.copy_master_to_visible();
    }
}

#[test]
fn a_new_piece_appears_in_the_middle_of_the_top_row() {
    let mut grids = two_boards(6, 8);
    for piece_type in ALL_PIECE_TYPES {
        let piece = place_new_piece(piece_type, [6, 8], &mut grids);
        assert_eq!(piece.piece_type(), piece_type);
        assert_eq!(piece.center_position(), IVec3::new(3, 7, 3));
        assert_eq!(offsets_of(&piece), piece_type.cube_configuration().to_vec());
        reset(&mut grids);
    }
    let piece = place_new_piece(PieceType::Box, [7, 3], &mut grids);
    assert_eq!(piece.center_position(), IVec3::new(3, 2, 3));
}

#[test]
fn a_new_piece_activates_every_board_and_is_shown_with_its_hint() {
    let mut grids = two_boards(6, 4);
    grids[0].deactivate();
    grids[1].deactivate();
    let piece = place_new_piece(PieceType::Jay, [6, 4], &mut grids);
    assert!(grids[0].is_active());
    assert!(grids[1].is_active());
    assert_eq!(piece.center_position(), IVec3::new(3, 3, 3));
    // left: x across; right: z across
    assert_eq!(picture(&grids[0], true), ["..JJJ.", "......", "......", "..+++."]);
    assert_eq!(picture(&grids[1], true), ["...JJ.", "......", "......", "...++."]);
    assert_eq!(picture(&grids[0], false), ["......", "......", "......", "......"]);
    assert_eq!(picture(&grids[1], false), ["......", "......", "......", "......"]);
}

#[test]
fn a_new_piece_appears_even_where_it_collides() {
    let mut grids = two_boards(4, 2);
    grids[0].write_piece(&FallingPiece::new(PieceType::Box, IVec3::new(2, 1, 0)));
    grids[0].deactivate();
    assert_eq!(picture(&grids[0], false), ["..BB", "...."]);
    let piece = place_new_piece(PieceType::Tee, [4, 2], &mut grids);
    assert_eq!(piece.center_position(), IVec3::new(2, 1, 2));
    assert_eq!(
        grids[0].check_piece_collision(&piece),
        PieceCollisionResult::HitOtherPiece
    );
    assert!(grids[0].is_active());
    assert_eq!(picture(&grids[0], false), ["..BB", "...."]);
}

#[test]
fn spawn_falling_piece_draws_from_the_bag() {
    let mut grids = two_boards(6, 6);
    let mut bag = GrabBag::new(1);
    let mut seen = Vec::new();
    for left in (0..8).rev() {
        reset(&mut grids);
        let piece = spawn_falling_piece([6, 6], &mut bag, &mut grids);
        assert_eq!(bag.remaining(), left);
        assert_eq!(piece.center_position(), IVec3::new(3, 5, 3));
        assert_eq!(offsets_of(&piece), piece.piece_type().cube_configuration().to_vec());
        assert!(!seen.contains(&piece.piece_type()));
        seen.push(piece.piece_type());
    }
    assert_eq!(seen.len(), 8);
}

#[test]
fn gravity_takes_the_piece_down_one_row_at_a_time() {
    let mut grids = two_boards(6, 6);
    let mut piece = FallingPiece::new(PieceType::Tee, IVec3::new(3, 5, 3));
    let before = snapshot(&grids);
    for row in (0..5).rev() {
        assert!(try_drop_piece(&mut piece, &mut grids));
        assert_eq!(piece.center_position(), IVec3::new(3, row, 3));
        assert_eq!(offsets_of(&piece), PieceType::Tee.cube_configuration().to_vec());
        assert_eq!(snapshot(&grids), before);
    }
    // on the floor: blocked
    assert!(!try_drop_piece(&mut piece, &mut grids));
    assert_eq!(piece.center_position(), IVec3::new(3, 0, 3));
}

#[test]
fn blocked_gravity_locks_the_piece_on_the_rejecting_boards() {
    let mut grids = two_boards(6, 4);
    let mut piece = FallingPiece::new(PieceType::Tee, IVec3::new(3, 0, 3));
    assert!(!try_drop_piece(&mut piece, &mut grids));
    assert_eq!(piece.center_position(), IVec3::new(3, 0, 3));
    assert!(!grids[0].is_active());
    assert!(!grids[1].is_active());
    assert_eq!(picture(&grids[0], false), ["......", "......", "......", "..TTT."]);
    assert_eq!(picture(&grids[1], false), ["......", "......", "......", "...TT."]);
    assert_eq!(picture(&grids[0], true), ["......", "......", "......", "..TTT."]);
}

#[test]
fn hard_drop_is_gravity_until_every_board_has_locked() {
    let mut slow_grids = two_boards(6, 6);
    let mut slow = FallingPiece::new(PieceType::Zee, IVec3::new(2, 5, 2));
    let mut steps = 0;
    loop {
        try_drop_piece(&mut slow, &mut slow_grids);
        steps += 1;
        if !any_grid_active(&slow_grids) {
            break;
        }
    }

    let mut fast_grids = two_boards(6, 6);
    let mut fast = FallingPiece::new(PieceType::Zee, IVec3::new(2, 5, 2));
    let rows = fast_drop_piece(&mut fast, &mut fast_grids);

    assert_eq!(rows, 5);
    assert_eq!(steps, 6);
    assert_eq!(fast.center_position(), IVec3::new(2, 0, 2));
    assert_eq!(fast.center_position(), slow.center_position());
    assert_eq!(offsets_of(&fast), offsets_of(&slow));
    assert_eq!(snapshot(&fast_grids), snapshot(&slow_grids));
    assert!(!any_grid_active(&fast_grids));
    assert_eq!(
        picture(&fast_grids[0], false),
        ["......", "......", "......", "......", "......", ".ZZZ.."]
    );
    assert_eq!(
        picture(&fast_grids[1], false),
        ["......", "......", "......", "......", "......", "..ZZ.."]
    );
}

#[test]
fn hard_drop_lands_on_committed_cubes() {
    let mut grids = two_boards(4, 5);
    let mut first = FallingPiece::new(PieceType::Box, IVec3::new(2, 4, 2));
    assert_eq!(fast_drop_piece(&mut first, &mut grids), 4);
    for grid in grids.iter_mut() {
        grid.activate();
    }
    let mut second = FallingPiece::new(PieceType::Box, IVec3::new(2, 4, 2));
    assert_eq!(fast_drop_piece(&mut second, &mut grids), 3);
    assert_eq!(second.center_position(), IVec3::new(2, 1, 2));
    assert_eq!(picture(&grids[0], false), ["....", "....", "....", "..BB", "..BB"]);
    assert_eq!(picture(&grids[1], false), ["....", "....", "....", "..BB", "..BB"]);
}

#[test]
fn hard_drop_with_no_board_moves_one_row() {
    let mut grids: Vec<Grid> = Vec::new();
    let mut piece = FallingPiece::new(PieceType::Box, IVec3::new(2, 4, 2));
    assert_eq!(fast_drop_piece(&mut piece, &mut grids), 1);
    assert_eq!(piece.center_position(), IVec3::new(2, 3, 2));
}

#[test]
fn a_push_that_every_board_takes_moves_the_piece() {
    let mut grids = two_boards(6, 6);
    let mut piece = FallingPiece::new(PieceType::Box, IVec3::new(3, 5, 3));
    let before = snapshot(&grids);
    assert!(try_translate_piece(IVec3::new(1, 0, 0), &mut piece, &mut grids));
    assert_eq!(piece.center_position(), IVec3::new(4, 5, 3));
    assert!(try_translate_piece(IVec3::new(0, 0, -3), &mut piece, &mut grids));
    assert_eq!(piece.center_position(), IVec3::new(4, 5, 0));
    assert_eq!(snapshot(&grids), before);
}

#[test]
fn a_push_out_of_a_board_changes_nothing() {
    let mut grids = two_boards(6, 6);
    place_new_piece(PieceType::Box, [6, 6], &mut grids);
    let mut piece = FallingPiece::new(PieceType::Box, IVec3::new(4, 5, 3));
    let before = snapshot(&grids);
    // the left board would see the piece in columns 5 and 6
    assert!(!try_translate_piece(IVec3::new(1, 0, 0), &mut piece, &mut grids));
    assert_eq!(piece.center_position(), IVec3::new(4, 5, 3));
    assert_eq!(offsets_of(&piece), PieceType::Box.cube_configuration().to_vec());
    assert_eq!(snapshot(&grids), before);
    assert!(grids[0].is_active() && grids[1].is_active());
    // one board rejecting is enough: the right board would take this one
    assert!(!try_translate_piece(IVec3::new(-5, 0, 1), &mut piece, &mut grids));
    assert_eq!(piece.center_position(), IVec3::new(4, 5, 3));
    assert_eq!(snapshot(&grids), before);
}

#[test]
fn a_push_onto_committed_cubes_changes_nothing() {
    let mut grids = two_boards(6, 3);
    grids[0].write_piece(&FallingPiece::new(PieceType::Box, IVec3::new(0, 0, 0)));
    grids[0].deactivate();
    grids[0].activate();
    let mut piece = FallingPiece::new(PieceType::Box, IVec3::new(2, 0, 2));
    let before = snapshot(&grids);
    assert!(!try_translate_piece(IVec3::new(-1, 0, 0), &mut piece, &mut grids));
    assert_eq!(piece.center_position(), IVec3::new(2, 0, 2));
    assert_eq!(snapshot(&grids), before);
    // the right board has nothing in the way
    assert!(try_translate_piece(IVec3::new(0, 0, -2), &mut piece, &mut grids));
    assert_eq!(piece.center_position(), IVec3::new(2, 0, 0));
}

#[test]
fn a_push_that_cannot_be_stored_changes_nothing() {
    let mut grids: Vec<Grid> = vec![Grid::new(6, 6, Projection::LeftFace)];
    grids[0].deactivate();
    let mut piece = FallingPiece::new(PieceType::Box, IVec3::new(3, 3, 3));
    let before = snapshot(&grids);
    assert!(!try_translate_piece(IVec3::new(0, 0, i32::MAX), &mut piece, &mut grids));
    assert_eq!(piece.center_position(), IVec3::new(3, 3, 3));
    assert_eq!(snapshot(&grids), before);
}

#[test]
fn inactive_boards_are_not_asked() {
    let mut grids = two_boards(6, 6);
    grids[0].deactivate();
    let mut piece = FallingPiece::new(PieceType::Box, IVec3::new(3, 3, 3));
    // far outside the left board, which no longer follows the piece
    assert!(try_translate_piece(IVec3::new(40, 0, 0), &mut piece, &mut grids));
    assert_eq!(piece.center_position(), IVec3::new(43, 3, 3));
    assert!(!try_translate_piece(IVec3::new(0, 0, 40), &mut piece, &mut grids));
    assert_eq!(piece.center_position(), IVec3::new(43, 3, 3));
}

#[test]
fn a_turn_that_every_board_takes_turns_the_piece() {
    let mut grids = two_boards(6, 6);
    let mut piece = FallingPiece::new(PieceType::Stick, IVec3::new(2, 2, 2));
    let before = snapshot(&grids);
    assert!(try_rotate_piece(Rotation::rotate_z_pos_90(), &mut piece, &mut grids));
    assert_eq!(offsets_of(&piece), vec![[0, -1, 0], [0, 1, 0], [0, 2, 0]]);
    assert_eq!(piece.center_position(), IVec3::new(2, 2, 2));
    assert_eq!(snapshot(&grids), before);
}

#[test]
fn stick_cannot_turn_in_a_gap_one_cell_wide() {
    // an upright stick in a shaft one cell wide
    let mut grids = vec![Grid::new(1, 6, Projection::LeftFace)];
    let mut piece = FallingPiece::new(PieceType::Stick, IVec3::new(0, 2, 0));
    piece.rotate(Rotation::rotate_z_pos_90().matrix);
    assert_eq!(grids[0].check_piece_collision(&piece), PieceCollisionResult::NoCollision);
    let before = snapshot(&grids);

    let mut turned = piece;
    turned.rotate(Rotation::rotate_z_neg_90().matrix);
    assert_eq!(grids[0].check_piece_collision(&turned), PieceCollisionResult::OutOfBounds);

    assert!(!try_rotate_piece(Rotation::rotate_z_neg_90(), &mut piece, &mut grids));
    assert_eq!(piece.center_position(), IVec3::new(0, 2, 0));
    assert_eq!(offsets_of(&piece), vec![[0, -1, 0], [0, 1, 0], [0, 2, 0]]);
    assert_eq!(snapshot(&grids), before);
    assert!(grids[0].is_active());
}

#[test]
fn stick_cannot_turn_between_committed_cubes() {
    // walls left and right of column 2, three rows high
    let mut grids = vec![Grid::new(5, 6, Projection::LeftFace)];
    for y in [0, 1, 2] {
        grids[0].write_piece(&FallingPiece::new(PieceType::Box, IVec3::new(0, y, 0)));
        grids[0].write_piece(&FallingPiece::new(PieceType::Box, IVec3::new(3, y, 0)));
    }
    grids[0].deactivate();
    grids[0].activate();
    assert_eq!(
        picture(&grids[0], false),
        [".....", ".....", ".....", "BB.BB", "BB.BB", "BB.BB"]
    );
    let mut piece = FallingPiece::new(PieceType::Stick, IVec3::new(2, 1, 0));
    piece.rotate(Rotation::rotate_z_pos_90().matrix);
    assert_eq!(grids[0].check_piece_collision(&piece), PieceCollisionResult::NoCollision);
    let before = snapshot(&grids);
    assert!(!try_rotate_piece(Rotation::rotate_z_pos_90(), &mut piece, &mut grids));
    assert_eq!(offsets_of(&piece), vec![[0, -1, 0], [0, 1, 0], [0, 2, 0]]);
    assert_eq!(snapshot(&grids), before);
    let mut turned = piece;
    turned.rotate(Rotation::rotate_z_pos_90().matrix);
    assert_eq!(grids[0].check_piece_collision(&turned), PieceCollisionResult::HitOtherPiece);
}

#[test]
fn landing_is_where_the_piece_would_come_to_rest() {
    let mut grid = Grid::new(6, 6, Projection::LeftFace);
    let piece = FallingPiece::new(PieceType::Chi, IVec3::new(3, 5, 0));
    let landed = speculate_fast_drop_piece(&piece, &grid);
    // the lowest cube of this piece is one row below its center
    assert_eq!(landed.center_position(), IVec3::new(3, 1, 0));
    assert_eq!(piece.center_position(), IVec3::new(3, 5, 0));
    assert_eq!(picture(&grid, true), ["......"; 6]);

    grid.write_piece(&FallingPiece::new(PieceType::Stick, IVec3::new(2, 2, 0)));
    grid.deactivate();
    let landed = speculate_fast_drop_piece(&piece, &grid);
    assert_eq!(landed.center_position(), IVec3::new(3, 4, 0));
    // a piece that cannot move at all lands where it is
    let stuck = FallingPiece::new(PieceType::Box, IVec3::new(9, 9, 9));
    assert_eq!(speculate_fast_drop_piece(&stuck, &grid).center_position(), IVec3::new(9, 9, 9));
}

#[test]
fn one_board_lands_while_the_other_goes_on() {
    let mut grids = two_boards(6, 6);
    // something to land on, on the left board only
    grids[0].write_piece(&FallingPiece::new(PieceType::Box, IVec3::new(3, 0, 0)));
    grids[0].deactivate();
    grids[0].activate();
    assert_eq!(picture(&grids[0], false)[5], "...BB.");
    assert_eq!(picture(&grids[1], false)[5], "......");

    let mut piece = Some(FallingPiece::new(PieceType::Box, IVec3::new(3, 2, 3)));
    assert!(!process_event(&FallingPieceEvent::Drop, &mut piece, &mut grids));
    assert_eq!(piece.unwrap().center_position(), IVec3::new(3, 1, 3));
    assert!(grids[0].is_active() && grids[1].is_active());

    // the left board rejects the next step, the right board would take it
    assert!(!process_event(&FallingPieceEvent::Drop, &mut piece, &mut grids));
    assert_eq!(piece.unwrap().center_position(), IVec3::new(3, 1, 3));
    assert!(!grids[0].is_active());
    assert!(grids[1].is_active());
    assert_eq!(picture(&grids[0], false)[4..], ["...BB.", "...BB."]);
    assert_eq!(picture(&grids[0], true)[4..], ["...BB.", "...BB."]);
    assert_eq!(picture(&grids[1], false), ["......"; 6]);
    assert_eq!(picture(&grids[1], true)[4..], ["...BB.", "...++."]);

    // the right board alone decides now
    assert!(!process_event(&FallingPieceEvent::Drop, &mut piece, &mut grids));
    assert_eq!(piece.unwrap().center_position(), IVec3::new(3, 0, 3));
    assert!(grids[1].is_active());
    assert_eq!(picture(&grids[0], false)[4..], ["...BB.", "...BB."]);

    // and lands too: a new piece is due
    assert!(process_event(&FallingPieceEvent::Drop, &mut piece, &mut grids));
    assert_eq!(piece.unwrap().center_position(), IVec3::new(3, 0, 3));
    assert!(!grids[0].is_active() && !grids[1].is_active());
    assert_eq!(picture(&grids[1], false)[4..], ["......", "...BB."]);
}

#[test]
fn boxes_fill_a_row_and_the_row_goes() {
    let mut grids = two_boards(4, 4);
    let mut piece = Some(place_new_piece(PieceType::Box, [4, 4], &mut grids));
    assert_eq!(piece.unwrap().center_position(), IVec3::new(2, 3, 2));
    assert!(process_event(&FallingPieceEvent::FastDrop, &mut piece, &mut grids));
    assert_eq!(piece.unwrap().center_position(), IVec3::new(2, 0, 2));
    assert_eq!(picture(&grids[0], false), ["....", "....", "....", "..BB"]);
    assert_eq!(picture(&grids[1], false), ["....", "....", "....", "..BB"]);

    // the second box goes to the left half of the left board
    piece = Some(place_new_piece(PieceType::Box, [4, 4], &mut grids));
    let push = FallingPieceEvent::Translate(IVec3::new(-2, 0, 0));
    assert!(!process_event(&push, &mut piece, &mut grids));
    assert_eq!(piece.unwrap().center_position(), IVec3::new(0, 3, 2));
    assert_eq!(picture(&grids[0], true), ["BB..", "....", "....", "++BB"]);
    assert_eq!(picture(&grids[1], true), ["..BB", "....", "..++", "..BB"]);
    assert!(process_event(&FallingPieceEvent::FastDrop, &mut piece, &mut grids));
    assert_eq!(piece.unwrap().center_position(), IVec3::new(0, 0, 2));
    // the bottom row of the left board was full and went
    assert_eq!(picture(&grids[0], false), ["....", "....", "....", "...."]);
    assert_eq!(picture(&grids[0], true), ["....", "....", "....", "...."]);
    // the right board locked the box one row up, on the first one
    assert_eq!(picture(&grids[1], false), ["....", "....", "..BB", "..BB"]);

    // the third box goes to the left half of the right board
    piece = Some(place_new_piece(PieceType::Box, [4, 4], &mut grids));
    let push = FallingPieceEvent::Translate(IVec3::new(0, 0, -2));
    assert!(!process_event(&push, &mut piece, &mut grids));
    assert!(process_event(&FallingPieceEvent::FastDrop, &mut piece, &mut grids));
    assert_eq!(piece.unwrap().center_position(), IVec3::new(2, 0, 0));
    assert_eq!(picture(&grids[0], false), ["....", "....", "....", "..BB"]);
    // the bottom row of the right board went, the row above it came down
    assert_eq!(picture(&grids[1], false), ["....", "....", "....", "..BB"]);
    assert_eq!(picture(&grids[1], true), ["....", "....", "....", "..BB"]);
}

#[test]
fn every_event_redraws_the_piece_and_its_hint() {
    let mut grids = two_boards(6, 4);
    let mut piece = Some(place_new_piece(PieceType::Tee, [6, 4], &mut grids));
    assert_eq!(picture(&grids[0], true), ["..TTT.", "......", "......", "..+++."]);
    assert!(!process_event(&FallingPieceEvent::Drop, &mut piece, &mut grids));
    assert_eq!(picture(&grids[0], true), ["......", "..TTT.", "......", "..+++."]);
    assert_eq!(picture(&grids[1], true), ["......", "...TT.", "......", "...++."]);
    let turn = FallingPieceEvent::Rotate(Rotation::rotate_z_pos_90());
    assert!(!process_event(&turn, &mut piece, &mut grids));
    // the upright piece covers rows 1 to 3; its hint, rows 0 to 2, is drawn over it
    assert_eq!(picture(&grids[0], true), ["...T..", "...+..", "...+..", "...+.."]);
    assert_eq!(picture(&grids[0], false), ["......", "......", "......", "......"]);
}

#[test]
fn the_hint_is_drawn_over_a_piece_that_rests() {
    let mut grids = two_boards(6, 4);
    let mut piece = Some(FallingPiece::new(PieceType::Tee, IVec3::new(3, 0, 3)));
    let push = FallingPieceEvent::Translate(IVec3::new(1, 0, 0));
    assert!(!process_event(&push, &mut piece, &mut grids));
    assert_eq!(picture(&grids[0], true), ["......", "......", "......", "...+++"]);
    assert_eq!(picture(&grids[0], false), ["......", "......", "......", "......"]);
}

#[test]
fn a_rejected_push_leaves_drawn_boards_as_they_were() {
    let mut grids = two_boards(6, 4);
    let mut piece = Some(place_new_piece(PieceType::Tee, [6, 4], &mut grids));
    let before = snapshot(&grids);
    let push = FallingPieceEvent::Translate(IVec3::new(3, 0, 0));
    assert!(!process_event(&push, &mut piece, &mut grids));
    assert_eq!(piece.unwrap().center_position(), IVec3::new(3, 3, 3));
    assert_eq!(snapshot(&grids), before);
    let turn = FallingPieceEvent::Rotate(Rotation::rotate_z_neg_90());
    assert!(!process_event(&turn, &mut piece, &mut grids));
    assert_eq!(offsets_of(&piece.unwrap()), PieceType::Tee.cube_configuration().to_vec());
    assert_eq!(snapshot(&grids), before);
}

#[test]
fn without_a_piece_only_a_spawn_does_anything() {
    let mut grids = two_boards(6, 4);
    let mut piece: Option<FallingPiece> = None;
    let before = snapshot(&grids);
    for event in [
        FallingPieceEvent::Drop,
        FallingPieceEvent::FastDrop,
        FallingPieceEvent::Translate(IVec3::new(1, 0, 0)),
        FallingPieceEvent::Rotate(Rotation::rotate_x_pos_90()),
    ] {
        assert!(!process_event(&event, &mut piece, &mut grids));
        assert!(piece.is_none());
        assert_eq!(snapshot(&grids), before);
    }
    assert!(process_event(&FallingPieceEvent::Spawn, &mut piece, &mut grids));
    assert!(piece.is_none());
}

#[test]
fn a_batch_stops_at_the_event_that_makes_a_new_piece_due() {
    let mut grids = two_boards(6, 6);
    let mut piece = Some(FallingPiece::new(PieceType::Box, IVec3::new(3, 5, 3)));
    let events = vec![
        FallingPieceEvent::Drop,
        FallingPieceEvent::Translate(IVec3::new(1, 0, 0)),
        FallingPieceEvent::FastDrop,
        FallingPieceEvent::Translate(IVec3::new(-1, 0, 0)),
        FallingPieceEvent::Drop,
    ];
    assert_eq!(process_events(&events, &mut piece, &mut grids), (3, true));
    assert_eq!(piece.unwrap().center_position(), IVec3::new(4, 0, 3));
    assert_eq!(picture(&grids[0], false)[5], "....BB");

    let mut grids = two_boards(6, 6);
    let mut piece = Some(FallingPiece::new(PieceType::Box, IVec3::new(3, 5, 3)));
    assert_eq!(process_events(&events[..2].to_vec(), &mut piece, &mut grids), (2, false));
    assert_eq!(piece.unwrap().center_position(), IVec3::new(4, 4, 3));
    assert_eq!(process_events(&Vec::new(), &mut piece, &mut grids), (0, false));
    assert_eq!(piece.unwrap().center_position(), IVec3::new(4, 4, 3));
}

#[test]
fn a_spawn_event_brings_a_new_piece_and_drops_the_rest_of_the_batch() {
    let mut grids = two_boards(6, 6);
    let mut bag = GrabBag::new(2);
    let mut piece: Option<FallingPiece> = None;
    let events = vec![
        FallingPieceEvent::Drop,
        FallingPieceEvent::Spawn,
        FallingPieceEvent::Drop,
        FallingPieceEvent::Drop,
    ];
    let outcome = update_falling_piece(&events, &mut piece, &mut grids, &mut bag, [6, 6]);
    assert_eq!(outcome, BatchOutcome { handled: 2, spawned: true });
    let spawned = piece.unwrap();
    assert_eq!(spawned.center_position(), IVec3::new(3, 5, 3));
    assert_eq!(offsets_of(&spawned), spawned.piece_type().cube_configuration().to_vec());
    assert_eq!(bag.remaining(), 15);
    assert!(grids[0].is_active() && grids[1].is_active());
    assert_eq!(grids[0].visible_at(3, 5), Some(CellValue::Piece(spawned.piece_type())));
}

#[test]
fn a_landed_piece_is_replaced_at_once() {
    let mut grids = two_boards(6, 6);
    let mut bag = GrabBag::new(1);
    let mut piece = Some(FallingPiece::new(PieceType::Box, IVec3::new(3, 5, 3)));
    let events = vec![FallingPieceEvent::FastDrop, FallingPieceEvent::Drop];
    let outcome = update_falling_piece(&events, &mut piece, &mut grids, &mut bag, [6, 6]);
    assert_eq!(outcome, BatchOutcome { handled: 1, spawned: true });
    assert_eq!(piece.unwrap().center_position(), IVec3::new(3, 5, 3));
    assert_eq!(bag.remaining(), 7);
    assert_eq!(picture(&grids[0], false)[5], "...BB.");
    assert_eq!(picture(&grids[1], false)[5], "...BB.");
    assert!(grids[0].is_active() && grids[1].is_active());
}

#[test]
fn a_batch_without_a_landing_draws_nothing_from_the_bag() {
    let mut grids = two_boards(6, 6);
    let mut bag = GrabBag::new(1);
    let mut piece = Some(FallingPiece::new(PieceType::Box, IVec3::new(3, 5, 3)));
    let events = vec![FallingPieceEvent::Drop, FallingPieceEvent::Drop];
    let outcome = update_falling_piece(&events, &mut piece, &mut grids, &mut bag, [6, 6]);
    assert_eq!(outcome, BatchOutcome { handled: 2, spawned: false });
    assert_eq!(piece.unwrap().center_position(), IVec3::new(3, 3, 3));
    assert_eq!(bag.remaining(), 8);
}

#[test]
fn a_game_of_many_pieces_keeps_hints_out_of_the_committed_cells() {
    let mut grids = two_boards(6, 8);
    let mut bag = GrabBag::new(2);
    let mut piece: Option<FallingPiece> = None;
    update_falling_piece(&vec![FallingPieceEvent::Spawn], &mut piece, &mut grids, &mut bag, [6, 8]);
    for round in 0..200 {
        let events = vec![
            FallingPieceEvent::Translate(IVec3::new(if round % 3 == 0 { 1 } else { -1 }, 0, 0)),
            FallingPieceEvent::Rotate(Rotation::rotate_z_pos_90()),
            FallingPieceEvent::Drop,
            FallingPieceEvent::Translate(IVec3::new(0, 0, if round % 2 == 0 { 1 } else { -1 })),
            FallingPieceEvent::Rotate(Rotation::rotate_x_neg_90()),
        ];
        update_falling_piece(&events, &mut piece, &mut grids, &mut bag, [6, 8]);
        for grid in grids.iter() {
            for y in 0..8 {
                for x in 0..6 {
                    assert_ne!(grid.master_at(x, y), Some(CellValue::DropHint));
                }
                let full = (0..6).all(|x| grid.master_at(x, y) != Some(CellValue::Empty));
                assert!(!full);
            }
        }
    }
}
