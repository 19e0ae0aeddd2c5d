//! The bouncing ball: per-frame motion integration with screen-edge
//! bouncing, and the elastic collision response against the paddle.

use vstd::prelude::*;

use crate::collision::energy_within_rounding;
use crate::collision::overlaps;
use crate::collision::delta_x;
use crate::collision::delta_y;
use crate::collision::dist_sq;
use crate::collision::resolve_circle_rect;
use crate::collision::resolved_vx;
use crate::collision::resolved_vy;
use crate::collision::resolved_x;
use crate::collision::resolved_y;
use crate::collision::CollisionResponse;
use crate::geometry::Color;
use crate::geometry::Rect;
use crate::geometry::SimpleVec2;
use crate::geometry::GEOM_LIMIT;
use crate::geometry::POS_LIMIT;

verus! {

/// Coordinate after one integration step against one screen axis: if the
/// ball's leading edge crosses a boundary it is clamped so the ball lies
/// fully on screen, the low edge taking priority over the high edge.
pub open spec fn bounced_pos(p: int, radius: int, limit: int) -> int {
    if p - radius <= 0 {
        radius
    } else if p + radius >= limit {
        limit - radius
    } else {
        p
    }
}

/// Velocity component after the same step: negated exactly when the
/// corresponding boundary was crossed.
pub open spec fn bounced_vel(p: int, v: int, radius: int, limit: int) -> int {
    if p - radius <= 0 {
        -v
    } else if p + radius >= limit {
        -v
    } else {
        v
    }
}

/// The ball: a circle with a position, a velocity and a color.
#[derive(Clone, Copy, Debug, PartialEq, Eq, Structural)]
pub struct Ball {
    pub position: SimpleVec2,
    pub radius: i64,
    pub velocity: SimpleVec2,
    pub color: Color,
}

impl Ball {
    /// A ball whose radius is positive and small enough for the collision
    /// arithmetic.
    pub open spec fn wf(self) -> bool {
        1 <= self.radius <= GEOM_LIMIT
    }

    pub fn new(
        initial_position: SimpleVec2,
        radius: i64,
        velocity: SimpleVec2,
        color: Color,
    ) -> (b: Ball)
        requires
            1 <= radius <= GEOM_LIMIT,
        ensures
            b == (Ball { position: initial_position, radius, velocity, color }),
            b.wf(),
    {
        Ball { position: initial_position, radius, velocity, color }
    }

    /// Advance the ball by `velocity * dt`, then bounce off the screen
    /// edges: per axis independently, a crossed boundary clamps the
    /// position so the ball lies fully on screen and negates that velocity
    /// component. Afterwards the position always lies in
    /// `[radius, screen_width - radius] x [radius, screen_height - radius]`.
    pub fn update(&mut self, dt: i64, screen_width: i64, screen_height: i64)
        requires
            old(self).wf(),
            0 <= dt <= GEOM_LIMIT,
            -POS_LIMIT <= old(self).position.x <= POS_LIMIT,
            -POS_LIMIT <= old(self).position.y <= POS_LIMIT,
            -GEOM_LIMIT <= old(self).velocity.x <= GEOM_LIMIT,
            -GEOM_LIMIT <= old(self).velocity.y <= GEOM_LIMIT,
            2 * old(self).radius <= screen_width <= GEOM_LIMIT,
            2 * old(self).radius <= screen_height <= GEOM_LIMIT,
        ensures
            final(self).radius == old(self).radius,
            final(self).color == old(self).color,
            final(self).position.x == bounced_pos(
                old(self).position.x + old(self).velocity.x * dt,
                old(self).radius as int,
                screen_width as int,
            ),
            final(self).position.y == bounced_pos(
                old(self).position.y + old(self).velocity.y * dt,
                old(self).radius as int,
                screen_height as int,
            ),
            final(self).velocity.x == bounced_vel(
                old(self).position.x + old(self).velocity.x * dt,
                old(self).velocity.x as int,
                old(self).radius as int,
                screen_width as int,
            ),
            final(self).velocity.y == bounced_vel(
                old(self).position.y + old(self).velocity.y * dt,
                old(self).velocity.y as int,
                old(self).radius as int,
                screen_height as int,
            ),
            old(self).radius <= final(self).position.x <= screen_width - old(self).radius,
            old(self).radius <= final(self).position.y <= screen_height - old(self).radius,
            final(self).wf(),
    {
        assert(-90_000_000_000 <= self.velocity.x * dt <= 90_000_000_000 && -90_000_000_000
            <= self.velocity.y * dt <= 90_000_000_000) by (nonlinear_arith)
            requires
                -300_000 <= self.velocity.x <= 300_000,
                -300_000 <= self.velocity.y <= 300_000,
                0 <= dt <= 300_000,
        ;
        let new_x = self.position.x + self.velocity.x * dt;
        let new_y = self.position.y + self.velocity.y * dt;

        if new_x - self.radius <= 0 {
            self.position.x = self.radius;
            self.velocity.x = -self.velocity.x;
        } else if new_x + self.radius >= screen_width {
            self.position.x = screen_width - self.radius;
            self.velocity.x = -self.velocity.x;
        } else {
            self.position.x = new_x;
        }

        if new_y - self.radius <= 0 {
            self.position.y = self.radius;
            self.velocity.y = -self.velocity.y;
        } else if new_y + self.radius >= screen_height {
            self.position.y = screen_height - self.radius;
            self.velocity.y = -self.velocity.y;
        } else {
            self.position.y = new_y;
        }
    }

    /// Test the ball against the paddle rectangle; on overlap, push the
    /// ball out along the contact normal and reflect its velocity about
    /// that normal (full elastic bounce). A ball centered exactly on the
    /// rectangle (zero contact distance) is pushed straight up. No-op
    /// without overlap. The bounce preserves kinetic energy up to the
    /// rounding of the reflection divisions, and exactly so for
    /// axis-aligned contacts.
    pub fn check_collision_and_bounce(&mut self, player_rect: Rect)
        requires
            old(self).wf(),
            player_rect.wf(),
            -POS_LIMIT <= old(self).position.x <= POS_LIMIT,
            -POS_LIMIT <= old(self).position.y <= POS_LIMIT,
            -GEOM_LIMIT <= old(self).velocity.x <= GEOM_LIMIT,
            -GEOM_LIMIT <= old(self).velocity.y <= GEOM_LIMIT,
        ensures
            final(self).radius == old(self).radius,
            final(self).color == old(self).color,
            final(self).wf(),
            !overlaps(
                old(self).position.x as int,
                old(self).position.y as int,
                old(self).radius as int,
                player_rect,
            ) ==> *final(self) == *old(self),
            overlaps(
                old(self).position.x as int,
                old(self).position.y as int,
                old(self).radius as int,
                player_rect,
            ) ==> {
                &&& final(self).position.x == resolved_x(
                    old(self).position.x as int,
                    old(self).position.y as int,
                    old(self).radius as int,
                    player_rect,
                )
                &&& final(self).position.y == resolved_y(
                    old(self).position.x as int,
                    old(self).position.y as int,
                    old(self).radius as int,
                    player_rect,
                )
                &&& final(self).velocity.x == resolved_vx(
                    old(self).position.x as int,
                    old(self).position.y as int,
                    old(self).velocity.x as int,
                    old(self).velocity.y as int,
                    player_rect,
                    CollisionResponse::ReflectAboutNormal,
                )
                &&& final(self).velocity.y == resolved_vy(
                    old(self).position.x as int,
                    old(self).position.y as int,
                    old(self).velocity.x as int,
                    old(self).velocity.y as int,
                    player_rect,
                    CollisionResponse::ReflectAboutNormal,
                )
            },
            -old(self).radius <= final(self).position.x - old(self).position.x
                <= old(self).radius,
            -old(self).radius <= final(self).position.y - old(self).position.y
                <= old(self).radius,
            energy_within_rounding(
                old(self).velocity.x as int,
                old(self).velocity.y as int,
                final(self).velocity.x as int,
                final(self).velocity.y as int,
            ),
            (overlaps(
                old(self).position.x as int,
                old(self).position.y as int,
                old(self).radius as int,
                player_rect,
            ) && dist_sq(old(self).position.x as int, old(self).position.y as int, player_rect)
                > 0 && (delta_x(old(self).position.x as int, player_rect) == 0 || delta_y(
                old(self).position.y as int,
                player_rect,
            ) == 0)) ==> final(self).velocity.x * final(self).velocity.x
                + final(self).velocity.y * final(self).velocity.y
                == old(self).velocity.x * old(self).velocity.x
                + old(self).velocity.y * old(self).velocity.y,
    {
        match resolve_circle_rect(
            self.position,
            self.radius,
            self.velocity,
            &player_rect,
            CollisionResponse::ReflectAboutNormal,
        ) {
            Some((pushed, reflected)) => {
                self.position = pushed;
                self.velocity = reflected;
            },
            None => {},
        }
    }
}

} // verus!
