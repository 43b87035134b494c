use projectris::{move_piece_event, FallingPieceEvent, IVec3, KeyState, Rotation};

const NO_KEYS: KeyState = KeyState {
    fast_drop: false,
    left_rotate: false,
    right_rotate: false,
    left_translate: false,
    right_translate: false,
    arrow_left: false,
    arrow_right: false,
};

fn describe(event: Option<FallingPieceEvent>) -> String {
    match event {
        None => "nothing".to_string(),
        Some(FallingPieceEvent::Spawn) => "spawn".to_string(),
        Some(FallingPieceEvent::Drop) => "drop".to_string(),
        Some(FallingPieceEvent::FastDrop) => "fast drop".to_string(),
        Some(FallingPieceEvent::Translate(d)) => format!("push {} {} {}", d.x, d.y, d.z),
        Some(FallingPieceEvent::Rotate(r)) => format!("turn {:?}", r.matrix),
    }
}

fn turn(rotation: Rotation) -> String {
    describe(Some(FallingPieceEvent::Rotate(rotation)))
}

fn push(x: i32, y: i32, z: i32) -> String {
    describe(Some(FallingPieceEvent::Translate(IVec3::new(x, y, z))))
}

#[test]
fn no_keys_ask_for_nothing() {
    assert_eq!(describe(move_piece_event(&NO_KEYS)), "nothing");
}

#[test]
fn arrows_alone_ask_for_nothing() {
    let keys = KeyState { arrow_left: true, arrow_right: true, ..NO_KEYS };
    assert_eq!(describe(move_piece_event(&keys)), "nothing");
}

#[test]
fn a_modifier_alone_asks_for_nothing() {
    for keys in [
        KeyState { left_rotate: true, ..NO_KEYS },
        KeyState { right_rotate: true, ..NO_KEYS },
        KeyState { left_translate: true, ..NO_KEYS },
        KeyState { right_translate: true, ..NO_KEYS },
    ] {
        assert_eq!(describe(move_piece_event(&keys)), "nothing");
    }
}

#[test]
fn hard_drop_goes_before_everything() {
    let keys = KeyState { fast_drop: true, ..NO_KEYS };
    assert_eq!(describe(move_piece_event(&keys)), "fast drop");
    let keys = KeyState {
        fast_drop: true,
        left_rotate: true,
        right_translate: true,
        arrow_left: true,
        ..NO_KEYS
    };
    assert_eq!(describe(move_piece_event(&keys)), "fast drop");
}

#[test]
fn arrows_turn_the_piece_on_the_left_board() {
    let keys = KeyState { left_rotate: true, arrow_left: true, ..NO_KEYS };
    assert_eq!(describe(move_piece_event(&keys)), turn(Rotation::rotate_z_neg_90()));
    let keys = KeyState { left_rotate: true, arrow_right: true, ..NO_KEYS };
    assert_eq!(describe(move_piece_event(&keys)), turn(Rotation::rotate_z_pos_90()));
}

#[test]
fn arrows_turn_the_piece_on_the_right_board() {
    let keys = KeyState { right_rotate: true, arrow_left: true, ..NO_KEYS };
    assert_eq!(describe(move_piece_event(&keys)), turn(Rotation::rotate_x_neg_90()));
    let keys = KeyState { right_rotate: true, arrow_right: true, ..NO_KEYS };
    assert_eq!(describe(move_piece_event(&keys)), turn(Rotation::rotate_x_pos_90()));
}

#[test]
fn arrows_push_the_piece_along_the_left_board() {
    let keys = KeyState { left_translate: true, arrow_left: true, ..NO_KEYS };
    assert_eq!(describe(move_piece_event(&keys)), push(1, 0, 0));
    let keys = KeyState { left_translate: true, arrow_right: true, ..NO_KEYS };
    assert_eq!(describe(move_piece_event(&keys)), push(-1, 0, 0));
}

#[test]
fn arrows_push_the_piece_along_the_right_board() {
    let keys = KeyState { right_translate: true, arrow_left: true, ..NO_KEYS };
    assert_eq!(describe(move_piece_event(&keys)), push(0, 0, -1));
    let keys = KeyState { right_translate: true, arrow_right: true, ..NO_KEYS };
    assert_eq!(describe(move_piece_event(&keys)), push(0, 0, 1));
}

#[test]
fn the_first_modifier_and_the_left_arrow_win() {
    let keys = KeyState {
        left_rotate: true,
        right_rotate: true,
        left_translate: true,
        right_translate: true,
        arrow_left: true,
        arrow_right: true,
        ..NO_KEYS
    };
    assert_eq!(describe(move_piece_event(&keys)), turn(Rotation::rotate_z_neg_90()));
    let keys = KeyState { left_rotate: false, ..keys };
    assert_eq!(describe(move_piece_event(&keys)), turn(Rotation::rotate_x_neg_90()));
    let keys = KeyState { right_rotate: false, ..keys };
    assert_eq!(describe(move_piece_event(&keys)), push(1, 0, 0));
    let keys = KeyState { left_translate: false, ..keys };
    assert_eq!(describe(move_piece_event(&keys)), push(0, 0, -1));
}
