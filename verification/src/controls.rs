use vstd::prelude::*;
use crate::falling_piece::{EventModel, FallingPieceEvent};
use crate::rotation::{Matrix3, Rotation};
use crate::vector::{IVec3, Point3};

verus! {

/// What the player is doing with the keys that steer the piece.
#[derive(Clone, Copy, Debug)]
pub struct KeyState {
    /// The key for a hard drop has just gone down.
    pub fast_drop: bool,
    /// The key that makes the arrows turn the piece on the left board is held.
    pub left_rotate: bool,
    /// The key that makes the arrows turn the piece on the right board is held.
    pub right_rotate: bool,
    /// The key that makes the arrows push the piece along the left board is held.
    pub left_translate: bool,
    /// The key that makes the arrows push the piece along the right board is held.
    pub right_translate: bool,
    /// The left arrow has just gone down.
    pub arrow_left: bool,
    /// The right arrow has just gone down.
    pub arrow_right: bool,
}

/// What the arrows steer while a modifier key is held.
pub enum Steering {
    TurnOnLeftBoard,
    TurnOnRightBoard,
    PushAlongLeftBoard,
    PushAlongRightBoard,
}

/// The modifier that counts: of those held, the first in the order left turn,
/// right turn, left push, right push.
pub open spec fn steering(keys: KeyState) -> Option<Steering> {
    if keys.left_rotate {
        Some(Steering::TurnOnLeftBoard)
    } else if keys.right_rotate {
        Some(Steering::TurnOnRightBoard)
    } else if keys.left_translate {
        Some(Steering::PushAlongLeftBoard)
    } else if keys.right_translate {
        Some(Steering::PushAlongRightBoard)
    } else {
        None
    }
}

/// What an arrow asks for under the given steering. `leftwards` tells the
/// left arrow from the right one.
pub open spec fn steered(steering: Steering, leftwards: bool) -> EventModel {
    match steering {
        Steering::TurnOnLeftBoard => EventModel::Rotate(
            if leftwards {
                Matrix3::z_neg_90()
            } else {
                Matrix3::z_pos_90()
            },
        ),
        Steering::TurnOnRightBoard => EventModel::Rotate(
            if leftwards {
                Matrix3::x_neg_90()
            } else {
                Matrix3::x_pos_90()
            },
        ),
        Steering::PushAlongLeftBoard => EventModel::Translate(
            Point3 { x: if leftwards { 1 } else { -1 }, y: 0, z: 0 },
        ),
        Steering::PushAlongRightBoard => EventModel::Translate(
            Point3 { x: 0, y: 0, z: if leftwards { -1 } else { 1 } },
        ),
    }
}

/// The event that the keys ask for. A hard drop goes before everything else.
/// An arrow counts only while a modifier is held, and the left arrow goes
/// before the right one.
pub open spec fn requested(keys: KeyState) -> Option<EventModel> {
    if keys.fast_drop {
        Some(EventModel::FastDrop)
    } else if steering(keys) is Some && (keys.arrow_left || keys.arrow_right) {
        Some(steered(steering(keys)->0, keys.arrow_left))
    } else {
        None
    }
}

/// The event that the keys ask for, if they ask for one.
pub fn move_piece_event(keys: &KeyState) -> (event: Option<FallingPieceEvent>)
    ensures
        event is Some <==> requested(*keys) is Some,
        event matches Some(e) ==> Some(e@) == requested(*keys),
{
    if keys.fast_drop {
        return Some(FallingPieceEvent::FastDrop);
    }
    if keys.left_rotate {
        if keys.arrow_left {
            return Some(FallingPieceEvent::Rotate(Rotation::rotate_z_neg_90()));
        } else if keys.arrow_right {
            return Some(FallingPieceEvent::Rotate(Rotation::rotate_z_pos_90()));
        }
    } else if keys.right_rotate {
        if keys.arrow_left {
            return Some(FallingPieceEvent::Rotate(Rotation::rotate_x_neg_90()));
        } else if keys.arrow_right {
            return Some(FallingPieceEvent::Rotate(Rotation::rotate_x_pos_90()));
        }
    } else if keys.left_translate {
        if keys.arrow_left {
            return Some(FallingPieceEvent::Translate(IVec3::new(1, 0, 0)));
        } else if keys.arrow_right {
            return Some(FallingPieceEvent::Translate(IVec3::new(-1, 0, 0)));
        }
    } else if keys.right_translate {
        if keys.arrow_left {
            return Some(FallingPieceEvent::Translate(IVec3::new(0, 0, -1)));
        } else if keys.arrow_right {
            return Some(FallingPieceEvent::Translate(IVec3::new(0, 0, 1)));
        }
    }
    None
}

} // verus!
