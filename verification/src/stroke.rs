//! The shot modes: how the direction of a stroke is turned before the ball is
//! launched.

use crate::vector2d::Vector2D;
use std::ops::Neg;
use vstd::prelude::*;
use vstd::std_specs::ops::NegSpec;

verus! {

/// The way a stroke is aimed: as drawn, backwards, or turned by a quarter to
/// either side. The modes are cycled through in this order.
#[derive(Debug, PartialEq, Eq, Structural, Copy, Clone)]
pub enum ShootingMode {
    Normal,
    Reverse,
    Right,
    Left,
}

impl ShootingMode {
    /// Position of the mode in the cycle.
    pub open spec fn ordinal(self) -> int {
        match self {
            ShootingMode::Normal => 0,
            ShootingMode::Reverse => 1,
            ShootingMode::Right => 2,
            ShootingMode::Left => 3,
        }
    }

    /// The mode at the given position of the cycle.
    pub open spec fn from_ordinal(n: int) -> Option<ShootingMode> {
        if n == 0 {
            Some(ShootingMode::Normal)
        } else if n == 1 {
            Some(ShootingMode::Reverse)
        } else if n == 2 {
            Some(ShootingMode::Right)
        } else if n == 3 {
            Some(ShootingMode::Left)
        } else {
            None
        }
    }

    /// The mode that follows this one.
    pub open spec fn following(self) -> ShootingMode {
        match self {
            ShootingMode::Normal => ShootingMode::Reverse,
            ShootingMode::Reverse => ShootingMode::Right,
            ShootingMode::Right => ShootingMode::Left,
            ShootingMode::Left => ShootingMode::Normal,
        }
    }

    /// The direction `v` as this mode turns it: unchanged, negated, `(y, -x)`
    /// for a turn to the right, `(-y, x)` for a turn to the left.
    pub open spec fn turned<T: Neg<Output = T>>(self, v: Vector2D<T>) -> Vector2D<T> {
        match self {
            ShootingMode::Normal => v,
            ShootingMode::Reverse => Vector2D { x: v.x.neg_spec(), y: v.y.neg_spec() },
            ShootingMode::Right => Vector2D { x: v.y, y: v.x.neg_spec() },
            ShootingMode::Left => Vector2D { x: v.y.neg_spec(), y: v.x },
        }
    }

    /// What must hold of `v` for this mode to turn it: the components that it
    /// negates can be negated.
    pub open spec fn can_turn<T: Neg<Output = T>>(self, v: Vector2D<T>) -> bool {
        match self {
            ShootingMode::Normal => true,
            ShootingMode::Reverse => v.x.neg_req() && v.y.neg_req(),
            ShootingMode::Right => v.x.neg_req(),
            ShootingMode::Left => v.y.neg_req(),
        }
    }

    /// The position of the mode in the cycle.
    pub fn to_i32(self) -> (n: i32)
        ensures
            n == self.ordinal(),
    {
        match self {
            ShootingMode::Normal => 0,
            ShootingMode::Reverse => 1,
            ShootingMode::Right => 2,
            ShootingMode::Left => 3,
        }
    }

    /// The mode at the given position of the cycle, if it is one of the four.
    pub fn from_i32(n: i32) -> (r: Option<ShootingMode>)
        ensures
            r == ShootingMode::from_ordinal(n as int),
    {
        match n {
            0 => Some(ShootingMode::Normal),
            1 => Some(ShootingMode::Reverse),
            2 => Some(ShootingMode::Right),
            3 => Some(ShootingMode::Left),
            _ => None,
        }
    }

    /// The mode that follows this one in the cycle; after the last comes the
    /// first.
    pub fn next(self) -> (r: ShootingMode)
        ensures
            r == self.following(),
            r.ordinal() == (self.ordinal() + 1) % 4,
    {
        let i = (self.to_i32() + 1) % 4;
        match ShootingMode::from_i32(i) {
            Some(mode) => mode,
            None => ShootingMode::Normal,
        }
    }

    /// Turns the direction `v` as this mode asks.
    pub fn turn<T: Neg<Output = T> + Copy>(self, v: Vector2D<T>) -> (r: Vector2D<T>)
        requires
            self.can_turn(v),
        ensures
            T::obeys_neg_spec() ==> r == self.turned(v),
            self == ShootingMode::Normal ==> r == v,
    {
        match self {
            ShootingMode::Normal => v,
            ShootingMode::Reverse => Vector2D::new(v.x.neg(), v.y.neg()),
            ShootingMode::Right => Vector2D::new(v.y, v.x.neg()),
            ShootingMode::Left => Vector2D::new(v.y.neg(), v.x),
        }
    }
}

/// The modes form one cycle of length four: Normal, Reverse, Right, Left and
/// back to Normal. No shorter walk returns to where it began.
pub proof fn lemma_mode_cycle(mode: ShootingMode)
    ensures
        ShootingMode::Normal.following() == ShootingMode::Reverse,
        ShootingMode::Reverse.following() == ShootingMode::Right,
        ShootingMode::Right.following() == ShootingMode::Left,
        ShootingMode::Left.following() == ShootingMode::Normal,
        mode.following().following().following().following() == mode,
        mode.following() != mode,
        mode.following().following() != mode,
        mode.following().following().following() != mode,
{
}

/// On integer directions the turns are the quarter and half turns of the
/// plane: two turns to the same side, or one reversal, negate the direction,
/// and a turn to the left undoes a turn to the right.
pub proof fn lemma_turns(v: Vector2D<i32>)
    requires
        v.x != i32::MIN,
        v.y != i32::MIN,
    ensures
        ShootingMode::Reverse.turned(v) == (Vector2D { x: (-v.x) as i32, y: (-v.y) as i32 }),
        ShootingMode::Right.turned(v) == (Vector2D { x: v.y, y: (-v.x) as i32 }),
        ShootingMode::Left.turned(v) == (Vector2D { x: (-v.y) as i32, y: v.x }),
        ShootingMode::Right.turned(ShootingMode::Right.turned(v)) == ShootingMode::Reverse.turned(v),
        ShootingMode::Left.turned(ShootingMode::Left.turned(v)) == ShootingMode::Reverse.turned(v),
        ShootingMode::Left.turned(ShootingMode::Right.turned(v)) == v,
        ShootingMode::Reverse.turned(ShootingMode::Reverse.turned(v)) == v,
{
}

} // verus!
