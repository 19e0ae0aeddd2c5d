//! The player-controlled paddle: horizontal motion from already-decoded
//! input intent, clamped to the playfield, and the collision rectangle the
//! ball is tested against.

use vstd::prelude::*;

use crate::geometry::clamp_spec;
use crate::geometry::clamp_i64;
use crate::geometry::Rect;
use crate::geometry::SimpleVec2;
use crate::geometry::GEOM_LIMIT;

verus! {

/// Fixed horizontal margin the paddle is kept inside, in coordinate units.
pub const GAP_WIDTH: i64 = 10;

/// Broad motion states a driving loop may track for the paddle. The core
/// itself only moves the paddle horizontally.
#[derive(Clone, Copy, Debug, PartialEq, Eq, Structural)]
pub enum PlayerState {
    Moving,
    Jumping,
    NotMoving,
}

/// Horizontal movement intent for one frame, decoded from input by the
/// external driver.
#[derive(Clone, Copy, Debug, PartialEq, Eq, Structural)]
pub enum MoveIntent {
    Left,
    Right,
    Still,
}

/// Signed horizontal displacement requested by an intent at a given speed
/// over a time delta.
pub open spec fn intent_shift(intent: MoveIntent, speed: int, dt: int) -> int {
    match intent {
        MoveIntent::Left => -(speed * dt),
        MoveIntent::Right => speed * dt,
        MoveIntent::Still => 0,
    }
}

/// The paddle.
#[derive(Clone, Copy, Debug, PartialEq, Eq, Structural)]
pub struct Player {
    pub position_vector: SimpleVec2,
    pub movement_speed: i64,
    pub player_height: i64,
    pub player_width: i64,
}

impl Player {
    /// A paddle whose position, size and speed are small enough for the
    /// collision arithmetic.
    pub open spec fn wf(self) -> bool {
        &&& -GEOM_LIMIT <= self.position_vector.x <= GEOM_LIMIT
        &&& -GEOM_LIMIT <= self.position_vector.y <= GEOM_LIMIT
        &&& 0 <= self.movement_speed <= GEOM_LIMIT
        &&& 0 <= self.player_height <= GEOM_LIMIT
        &&& 0 <= self.player_width <= GEOM_LIMIT
    }

    pub fn new(
        initial_position: SimpleVec2,
        movement_speed: i64,
        player_height: i64,
        player_width: i64,
    ) -> (p: Player)
        requires
            -GEOM_LIMIT <= initial_position.x <= GEOM_LIMIT,
            -GEOM_LIMIT <= initial_position.y <= GEOM_LIMIT,
            0 <= movement_speed <= GEOM_LIMIT,
            0 <= player_height <= GEOM_LIMIT,
            0 <= player_width <= GEOM_LIMIT,
        ensures
            p == (Player {
                position_vector: initial_position,
                movement_speed,
                player_height,
                player_width,
            }),
            p.wf(),
    {
        Player { position_vector: initial_position, movement_speed, player_height, player_width }
    }

    /// Move the paddle horizontally by `speed * dt` in the direction of
    /// `intent` (at `speed`, or the paddle's own speed when `speed` is
    /// `None`), then clamp its x-coordinate to
    /// `[GAP_WIDTH, screen_width - GAP_WIDTH]`. The vertical position never
    /// changes, and afterwards the paddle always lies inside the margins.
    pub fn control_rectangle(
        &mut self,
        dt: i64,
        intent: MoveIntent,
        speed: Option<i64>,
        screen_width: i64,
    )
        requires
            old(self).wf(),
            0 <= dt <= GEOM_LIMIT,
            speed matches Some(s) ==> 0 <= s <= GEOM_LIMIT,
            2 * GAP_WIDTH <= screen_width <= GEOM_LIMIT,
        ensures
            final(self).position_vector.y == old(self).position_vector.y,
            final(self).movement_speed == old(self).movement_speed,
            final(self).player_height == old(self).player_height,
            final(self).player_width == old(self).player_width,
            final(self).position_vector.x == clamp_spec(
                old(self).position_vector.x + intent_shift(
                    intent,
                    (match speed {
                        Some(s) => s,
                        None => old(self).movement_speed,
                    }) as int,
                    dt as int,
                ),
                GAP_WIDTH as int,
                screen_width - GAP_WIDTH,
            ),
            GAP_WIDTH <= final(self).position_vector.x <= screen_width - GAP_WIDTH,
            final(self).wf(),
    {
        let actual_speed = match speed {
            Some(s) => s,
            None => self.movement_speed,
        };
        assert(0 <= actual_speed * dt <= 90_000_000_000) by (nonlinear_arith)
            requires
                0 <= actual_speed <= 300_000,
                0 <= dt <= 300_000,
        ;
        let shift = actual_speed * dt;
        let moved = match intent {
            MoveIntent::Left => self.position_vector.x - shift,
            MoveIntent::Right => self.position_vector.x + shift,
            MoveIntent::Still => self.position_vector.x,
        };
        self.position_vector.x = clamp_i64(moved, GAP_WIDTH, screen_width - GAP_WIDTH);
    }

    /// The paddle's current collision rectangle, derived from its position
    /// and fixed dimensions.
    pub fn get_player_rect(&self) -> (r: Rect)
        ensures
            r == (Rect {
                x: self.position_vector.x,
                y: self.position_vector.y,
                w: self.player_width,
                h: self.player_height,
            }),
            self.wf() ==> r.wf(),
    {
        Rect {
            x: self.position_vector.x,
            y: self.position_vector.y,
            w: self.player_width,
            h: self.player_height,
        }
    }
}

} // verus!
