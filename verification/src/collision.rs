//! The shared circle-versus-axis-aligned-rectangle collision primitive.
//!
//! Both the ball/paddle and the ball/tile interactions use the same test and
//! response, differing only in policy: a paddle contact reflects the
//! velocity about the contact normal, a tile contact merely inverts its
//! vertical component.
//!
//! The contact normal is the direction from the closest rectangle point to
//! the circle center. All response arithmetic is exact integer arithmetic:
//! the reflection divides by the squared contact distance (so no square
//! root enters the velocity), and the push-out divides by the integer
//! square root of that squared distance, rounding toward zero.

use vstd::prelude::*;

use crate::geometry::clamp_spec;
use crate::geometry::clamp_i64;
use crate::geometry::div_trunc;
use crate::geometry::div_trunc_spec;
use crate::geometry::isqrt_u64;
use crate::geometry::lemma_div_trunc_bound;
use crate::geometry::lemma_div_trunc_exact;
use crate::geometry::lemma_div_trunc_remainder;
use crate::geometry::sqrt_floor;
use crate::geometry::Rect;
use crate::geometry::SimpleVec2;
use crate::geometry::GEOM_LIMIT;
use crate::geometry::POS_LIMIT;

verus! {

/// How a collision changes the circle's velocity.
#[derive(Clone, Copy, Debug, PartialEq, Eq, Structural)]
pub enum CollisionResponse {
    /// Full elastic bounce: reflect the velocity about the contact normal.
    ReflectAboutNormal,
    /// Invert the vertical velocity component, whatever the normal.
    InvertVertical,
}

/// The point of `rect` closest to a circle center with x-coordinate `cx`:
/// the center clamped to the rectangle, per axis.
pub open spec fn closest_x(cx: int, rect: Rect) -> int {
    clamp_spec(cx, rect.x as int, rect.x + rect.w)
}

pub open spec fn closest_y(cy: int, rect: Rect) -> int {
    clamp_spec(cy, rect.y as int, rect.y + rect.h)
}

/// Vector from the closest rectangle point to the circle center.
pub open spec fn delta_x(cx: int, rect: Rect) -> int {
    cx - closest_x(cx, rect)
}

pub open spec fn delta_y(cy: int, rect: Rect) -> int {
    cy - closest_y(cy, rect)
}

/// Squared distance from the circle center to the rectangle.
pub open spec fn dist_sq(cx: int, cy: int, rect: Rect) -> int {
    delta_x(cx, rect) * delta_x(cx, rect) + delta_y(cy, rect) * delta_y(cy, rect)
}

/// The circle and the rectangle overlap (strict: touching is no overlap).
pub open spec fn overlaps(cx: int, cy: int, radius: int, rect: Rect) -> bool {
    dist_sq(cx, cy, rect) < radius * radius
}

/// Integer contact distance: `floor(sqrt(dist_sq))`.
pub open spec fn contact_dist(cx: int, cy: int, rect: Rect) -> int {
    sqrt_floor(dist_sq(cx, cy, rect))
}

/// Circle center x after the push-out along the contact normal by the
/// penetration depth. When the center lies on or inside the rectangle the
/// distance is zero and the normal defaults to straight up, which leaves x
/// unchanged.
pub open spec fn resolved_x(cx: int, cy: int, radius: int, rect: Rect) -> int {
    let d = contact_dist(cx, cy, rect);
    if d > 0 {
        cx + div_trunc_spec(delta_x(cx, rect) * (radius - d), d)
    } else {
        cx
    }
}

/// Circle center y after the push-out. With a zero contact distance the
/// fallback normal points straight up and the penetration depth is the
/// full radius, so either policy pushes the center up by the radius.
pub open spec fn resolved_y(cx: int, cy: int, radius: int, rect: Rect) -> int {
    let d = contact_dist(cx, cy, rect);
    if d > 0 {
        cy + div_trunc_spec(delta_y(cy, rect) * (radius - d), d)
    } else {
        cy - radius
    }
}

/// Horizontal velocity after the response. Reflection about a normal
/// `delta / |delta|` is computed exactly as `v - 2 (v . delta) delta /
/// |delta|^2`, rounding each component toward zero only at the final
/// division.
pub open spec fn resolved_vx(
    cx: int,
    cy: int,
    vx: int,
    vy: int,
    rect: Rect,
    response: CollisionResponse,
) -> int {
    if response is InvertVertical {
        vx
    } else {
        let ds = dist_sq(cx, cy, rect);
        if ds > 0 {
            vx - div_trunc_spec(
                2 * (vx * delta_x(cx, rect) + vy * delta_y(cy, rect)) * delta_x(cx, rect),
                ds,
            )
        } else {
            vx
        }
    }
}

/// Vertical velocity after the response. With a zero contact distance the
/// fallback normal points straight up, so reflection inverts the vertical
/// component, exactly as the invert-vertical policy does.
pub open spec fn resolved_vy(
    cx: int,
    cy: int,
    vx: int,
    vy: int,
    rect: Rect,
    response: CollisionResponse,
) -> int {
    if response is InvertVertical {
        -vy
    } else {
        let ds = dist_sq(cx, cy, rect);
        if ds > 0 {
            vy - div_trunc_spec(
                2 * (vx * delta_x(cx, rect) + vy * delta_y(cy, rect)) * delta_y(cy, rect),
                ds,
            )
        } else {
            -vy
        }
    }
}

/// Reflecting a velocity about any contact delta preserves kinetic energy
/// exactly, before rounding: scaling the reflected velocity by `|delta|^2`
/// (the form the exact rational reflection takes over the integers), its
/// squared length equals the original squared length scaled the same way.
pub proof fn lemma_reflection_preserves_energy(vx: int, vy: int, dx: int, dy: int)
    ensures
        ({
            let ds = dx * dx + dy * dy;
            let dot = vx * dx + vy * dy;
            (vx * ds - 2 * dot * dx) * (vx * ds - 2 * dot * dx) + (vy * ds - 2 * dot * dy) * (vy
                * ds - 2 * dot * dy) == ds * ds * (vx * vx + vy * vy)
        }),
{
    let ds = dx * dx + dy * dy;
    let dot = vx * dx + vy * dy;
    let ax = vx * ds - 2 * dot * dx;
    let ay = vy * ds - 2 * dot * dy;
    let p = vx * ds;
    let r = vy * ds;
    let q = dot * dx;
    let s = dot * dy;
    let u = ds * dot;
    assert(2 * dot * dx == 2 * (dot * dx) && 2 * dot * dy == 2 * (dot * dy)) by (nonlinear_arith);
    assert(ax * ax == p * p - 4 * (p * q) + 4 * (q * q)) by (nonlinear_arith)
        requires
            ax == p - 2 * q,
    ;
    assert(ay * ay == r * r - 4 * (r * s) + 4 * (s * s)) by (nonlinear_arith)
        requires
            ay == r - 2 * s,
    ;
    assert(p * q == u * (vx * dx)) by (nonlinear_arith)
        requires
            p == vx * ds,
            q == dot * dx,
            u == ds * dot,
    ;
    assert(r * s == u * (vy * dy)) by (nonlinear_arith)
        requires
            r == vy * ds,
            s == dot * dy,
            u == ds * dot,
    ;
    assert(u * (vx * dx) + u * (vy * dy) == u * dot) by (nonlinear_arith)
        requires
            dot == vx * dx + vy * dy,
    ;
    assert(u * dot == ds * (dot * dot)) by (nonlinear_arith)
        requires
            u == ds * dot,
    ;
    assert(q * q + s * s == ds * (dot * dot)) by (nonlinear_arith)
        requires
            q == dot * dx,
            s == dot * dy,
            ds == dx * dx + dy * dy,
    ;
    assert(p * p + r * r == ds * ds * (vx * vx + vy * vy)) by (nonlinear_arith)
        requires
            p == vx * ds,
            r == vy * ds,
    ;
}

/// The squared speed `(rx, ry)` differs from the squared speed `(vx, vy)`
/// by at most the rounding slack of the reflection divisions,
/// `4 * (|vx| + |vy|) + 2`.
pub open spec fn energy_within_rounding(vx: int, vy: int, rx: int, ry: int) -> bool {
    let tol = 4 * (vstd::math::abs(vx) + vstd::math::abs(vy)) + 2;
    vx * vx + vy * vy - tol <= rx * rx + ry * ry <= vx * vx + vy * vy + tol
}

/// The rounded reflection sheds almost no energy: for any contact delta
/// with positive squared length, the squared speed after the two
/// truncating divisions differs from the squared speed before by at most
/// `4 * (|vx| + |vy|) + 2`, the worst the rounding can do.
pub proof fn lemma_reflection_energy_tolerance(vx: int, vy: int, dx: int, dy: int)
    requires
        dx * dx + dy * dy > 0,
    ensures
        ({
            let ds = dx * dx + dy * dy;
            let dot = vx * dx + vy * dy;
            energy_within_rounding(
                vx,
                vy,
                vx - div_trunc_spec(2 * dot * dx, ds),
                vy - div_trunc_spec(2 * dot * dy, ds),
            )
        }),
{
    let ds = dx * dx + dy * dy;
    let dot = vx * dx + vy * dy;
    let tx = 2 * dot * dx;
    let ty = 2 * dot * dy;
    let qx = div_trunc_spec(tx, ds);
    let qy = div_trunc_spec(ty, ds);
    let rx = vx - qx;
    let ry = vy - qy;
    let ax = vx * ds - tx;
    let ay = vy * ds - ty;
    let ex = tx - ds * qx;
    let ey = ty - ds * qy;
    let s = vx * vx + vy * vy;
    let m: int = (vstd::math::abs(vx) + vstd::math::abs(vy)) as int;
    let axv: int = vstd::math::abs(vx) as int;
    let ayv: int = vstd::math::abs(vy) as int;

    assert(ds >= 1) by (nonlinear_arith)
        requires
            ds == dx * dx + dy * dy,
            ds > 0,
    ;
    lemma_div_trunc_remainder(tx, ds);
    lemma_div_trunc_remainder(ty, ds);
    lemma_reflection_preserves_energy(vx, vy, dx, dy);
    assert(ax * ax + ay * ay == ds * ds * s);
    assert(ds * rx == ax + ex && ds * ry == ay + ey) by (nonlinear_arith)
        requires
            rx == vx - qx,
            ry == vy - qy,
            ax == vx * ds - tx,
            ay == vy * ds - ty,
            ex == tx - ds * qx,
            ey == ty - ds * qy,
    ;
    assert(vx * vx == axv * axv && vy * vy == ayv * ayv) by (nonlinear_arith)
        requires
            vx >= 0 ==> axv == vx,
            vx < 0 ==> axv == -vx,
            vy >= 0 ==> ayv == vy,
            vy < 0 ==> ayv == -vy,
    ;
    assert(s <= m * m) by (nonlinear_arith)
        requires
            s == vx * vx + vy * vy,
            m == axv + ayv,
            axv >= 0,
            ayv >= 0,
            vx * vx == axv * axv,
            vy * vy == ayv * ayv,
    ;
    assert(ax * ax >= 0 && ay * ay >= 0) by (nonlinear_arith);
    assert(ax * ax <= (ds * m) * (ds * m) && ay * ay <= (ds * m) * (ds * m))
        by (nonlinear_arith)
        requires
            ax * ax + ay * ay == ds * ds * s,
            ax * ax >= 0,
            ay * ay >= 0,
            s <= m * m,
            ds >= 1,
            m >= 0,
    ;
    assert(-(ds * m) <= ax <= ds * m && -(ds * m) <= ay <= ds * m) by (nonlinear_arith)
        requires
            ax * ax <= (ds * m) * (ds * m),
            ay * ay <= (ds * m) * (ds * m),
            ds * m >= 0,
    ;
    assert((ds * rx) * (ds * rx) == ax * ax + 2 * (ax * ex) + ex * ex && (ds * ry) * (ds * ry)
        == ay * ay + 2 * (ay * ey) + ey * ey) by (nonlinear_arith)
        requires
            ds * rx == ax + ex,
            ds * ry == ay + ey,
    ;
    assert(-((ds * m) * ds) <= ax * ex <= (ds * m) * ds && -((ds * m) * ds) <= ay * ey <= (ds
        * m) * ds) by (nonlinear_arith)
        requires
            -(ds * m) <= ax <= ds * m,
            -(ds * m) <= ay <= ds * m,
            -ds < ex < ds,
            -ds < ey < ds,
            ds >= 1,
            m >= 0,
    ;
    assert(0 <= ex * ex <= ds * ds && 0 <= ey * ey <= ds * ds) by (nonlinear_arith)
        requires
            -ds < ex < ds,
            -ds < ey < ds,
            ds >= 1,
    ;
    assert((ds * m) * ds == ds * ds * m) by (nonlinear_arith);
    assert((ds * rx) * (ds * rx) == ds * ds * (rx * rx) && (ds * ry) * (ds * ry) == ds * ds
        * (ry * ry)) by (nonlinear_arith);
    assert(ds * ds * (rx * rx) + ds * ds * (ry * ry) <= ds * ds * s + 4 * (ds * ds * m) + 2 * (ds
        * ds));
    assert(ds * ds * (rx * rx) + ds * ds * (ry * ry) >= ds * ds * s - 4 * (ds * ds * m) - 2 * (ds
        * ds));
    assert(rx * rx + ry * ry <= s + 4 * m + 2 && rx * rx + ry * ry >= s - 4 * m - 2)
        by (nonlinear_arith)
        requires
            ds * ds * (rx * rx) + ds * ds * (ry * ry) <= ds * ds * s + 4 * (ds * ds * m) + 2 * (
            ds * ds),
            ds * ds * (rx * rx) + ds * ds * (ry * ry) >= ds * ds * s - 4 * (ds * ds * m) - 2 * (
            ds * ds),
            ds >= 1,
    ;
}

/// The shared collision test and response.
///
/// Returns `None` exactly when the circle does not overlap the rectangle.
/// On overlap, returns the pushed-out center and the responded velocity,
/// both pinned down by the `resolved_*` functions. The push never moves the
/// center by more than the radius per axis. A reflecting response always
/// keeps the squared speed within the rounding slack of the old one, and
/// an axis-aligned reflection (contact delta parallel to an axis, positive
/// distance) preserves it exactly.
pub fn resolve_circle_rect(
    center: SimpleVec2,
    radius: i64,
    velocity: SimpleVec2,
    rect: &Rect,
    response: CollisionResponse,
) -> (res: Option<(SimpleVec2, SimpleVec2)>)
    requires
        rect.wf(),
        -POS_LIMIT <= center.x <= POS_LIMIT,
        -POS_LIMIT <= center.y <= POS_LIMIT,
        1 <= radius <= GEOM_LIMIT,
        -GEOM_LIMIT <= velocity.x <= GEOM_LIMIT,
        -GEOM_LIMIT <= velocity.y <= GEOM_LIMIT,
    ensures
        res is Some <==> overlaps(center.x as int, center.y as int, radius as int, *rect),
        res matches Some(rv) ==> {
            &&& rv.0.x == resolved_x(center.x as int, center.y as int, radius as int, *rect)
            &&& rv.0.y == resolved_y(center.x as int, center.y as int, radius as int, *rect)
            &&& rv.1.x == resolved_vx(
                center.x as int,
                center.y as int,
                velocity.x as int,
                velocity.y as int,
                *rect,
                response,
            )
            &&& rv.1.y == resolved_vy(
                center.x as int,
                center.y as int,
                velocity.x as int,
                velocity.y as int,
                *rect,
                response,
            )
            &&& -radius <= rv.0.x - center.x <= radius
            &&& -radius <= rv.0.y - center.y <= radius
        },
        res matches Some(rv) ==> (response is ReflectAboutNormal ==> energy_within_rounding(
            velocity.x as int,
            velocity.y as int,
            rv.1.x as int,
            rv.1.y as int,
        )),
        res matches Some(rv) ==> ((response is ReflectAboutNormal && dist_sq(
            center.x as int,
            center.y as int,
            *rect,
        ) > 0 && (delta_x(center.x as int, *rect) == 0 || delta_y(center.y as int, *rect) == 0))
            ==> rv.1.x * rv.1.x + rv.1.y * rv.1.y == velocity.x * velocity.x + velocity.y
            * velocity.y),
{
    // The numeric bounds below all follow from the limits in the
    // preconditions: the contact delta per axis is at most
    // `POS_LIMIT + 2 * GEOM_LIMIT` (1_800_000) in magnitude, so every
    // intermediate product fits comfortably in `i64`.
    let cx = center.x;
    let cy = center.y;
    let qx = clamp_i64(cx, rect.x, rect.x + rect.w);
    let qy = clamp_i64(cy, rect.y, rect.y + rect.h);
    let dx = cx - qx;
    let dy = cy - qy;
    assert(0 <= dx * dx <= 3_240_000_000_000 && 0 <= dy * dy <= 3_240_000_000_000)
        by (nonlinear_arith)
        requires
            -1_800_000 <= dx <= 1_800_000,
            -1_800_000 <= dy <= 1_800_000,
    ;
    let ds = dx * dx + dy * dy;
    assert(0 < radius * radius <= 90_000_000_000) by (nonlinear_arith)
        requires
            1 <= radius <= 300_000,
    ;
    let rr = radius * radius;
    if ds < rr {
        let dist_u = isqrt_u64(ds as u64);
        proof {
            assert(ds as u64 == ds);
            assert(dist_u * dist_u <= ds < (dist_u + 1) * (dist_u + 1));
        }
        let ghost dsi = ds as int;
        assert(dist_u < 0x8000_0000) by (nonlinear_arith)
            requires
                dist_u * dist_u <= dsi <= 6_480_000_000_000,
                dist_u >= 0,
        ;
        let dist = dist_u as i64;
        assert(dist < radius) by (nonlinear_arith)
            requires
                0 <= dist,
                1 <= radius,
                dist * dist <= dsi,
                dsi < radius * radius,
        ;
        let pen = radius - dist;
        if dist > 0 {
            assert(-dist <= dx <= dist && -dist <= dy <= dist) by (nonlinear_arith)
                requires
                    0 <= dist,
                    dx * dx <= dsi,
                    dy * dy <= dsi,
                    dsi < (dist + 1) * (dist + 1),
            ;
            assert(-(dist * pen) <= dx * pen <= dist * pen && -(dist * pen) <= dy * pen <= dist
                * pen && dist * pen <= 540_000_000_000) by (nonlinear_arith)
                requires
                    -dist <= dx <= dist,
                    -dist <= dy <= dist,
                    0 <= pen <= 300_000,
                    0 <= dist <= 1_800_000,
            ;
            let push_x = div_trunc(dx * pen, dist);
            let push_y = div_trunc(dy * pen, dist);
            proof {
                lemma_div_trunc_bound(dx * pen, dist as int, pen as int);
                lemma_div_trunc_bound(dy * pen, dist as int, pen as int);
            }
            let new_cx = cx + push_x;
            let new_cy = cy + push_y;
            match response {
                CollisionResponse::InvertVertical => {
                    Some((SimpleVec2 { x: new_cx, y: new_cy }, SimpleVec2 {
                        x: velocity.x,
                        y: -velocity.y,
                    }))
                },
                CollisionResponse::ReflectAboutNormal => {
                    assert(-540_000_000_000 <= velocity.x * dx <= 540_000_000_000
                        && -540_000_000_000 <= velocity.y * dy <= 540_000_000_000)
                        by (nonlinear_arith)
                        requires
                            -300_000 <= velocity.x <= 300_000,
                            -300_000 <= velocity.y <= 300_000,
                            -1_800_000 <= dx <= 1_800_000,
                            -1_800_000 <= dy <= 1_800_000,
                    ;
                    let dot = velocity.x * dx + velocity.y * dy;
                    let dot2 = 2 * dot;
                    assert(-3_888_000_000_000_000_000 <= dot2 * dx <= 3_888_000_000_000_000_000
                        && -3_888_000_000_000_000_000 <= dot2 * dy <= 3_888_000_000_000_000_000)
                        by (nonlinear_arith)
                        requires
                            -2_160_000_000_000 <= dot2 <= 2_160_000_000_000,
                            -1_800_000 <= dx <= 1_800_000,
                            -1_800_000 <= dy <= 1_800_000,
                    ;
                    let tx = dot2 * dx;
                    let ty = dot2 * dy;
                    assert(-(ds * 3_888_000_000_000_000_000) <= tx <= ds
                        * 3_888_000_000_000_000_000 && -(ds * 3_888_000_000_000_000_000) <= ty
                        <= ds * 3_888_000_000_000_000_000) by (nonlinear_arith)
                        requires
                            1 <= ds,
                            -3_888_000_000_000_000_000 <= tx <= 3_888_000_000_000_000_000,
                            -3_888_000_000_000_000_000 <= ty <= 3_888_000_000_000_000_000,
                    ;
                    let refl_x = div_trunc(tx, ds);
                    let refl_y = div_trunc(ty, ds);
                    proof {
                        lemma_div_trunc_bound(tx as int, ds as int, 3_888_000_000_000_000_000);
                        lemma_div_trunc_bound(ty as int, ds as int, 3_888_000_000_000_000_000);
                    }
                    let new_vx = velocity.x - refl_x;
                    let new_vy = velocity.y - refl_y;
                    proof {
                        assert(dsi >= 1) by (nonlinear_arith)
                            requires
                                dist >= 1,
                                dist * dist <= dsi,
                        ;
                        lemma_reflection_energy_tolerance(
                            velocity.x as int,
                            velocity.y as int,
                            dx as int,
                            dy as int,
                        );
                        if dx == 0 || dy == 0 {
                            lemma_axis_aligned_reflection_exact(
                                velocity.x as int,
                                velocity.y as int,
                                dx as int,
                                dy as int,
                            );
                        }
                    }
                    Some((SimpleVec2 { x: new_cx, y: new_cy }, SimpleVec2 {
                        x: new_vx,
                        y: new_vy,
                    }))
                },
            }
        } else {
            assert(dx == 0 && dy == 0) by (nonlinear_arith)
                requires
                    dx * dx + dy * dy == dsi,
                    dist_u == 0,
                    dsi < (dist_u + 1) * (dist_u + 1),
                    dx * dx >= 0,
                    dy * dy >= 0,
            ;
            proof {
                assert((-velocity.y) * (-velocity.y) == velocity.y * velocity.y)
                    by (nonlinear_arith);
            }
            Some((SimpleVec2 { x: cx, y: cy - radius }, SimpleVec2 {
                x: velocity.x,
                y: -velocity.y,
            }))
        }
    } else {
        None
    }
}

/// With an axis-aligned contact delta the rounding in the reflection
/// divisions vanishes, so the reflected components are exact and the
/// squared speed is preserved on the nose.
proof fn lemma_axis_aligned_reflection_exact(vx: int, vy: int, dx: int, dy: int)
    requires
        dx == 0 || dy == 0,
        dx * dx + dy * dy > 0,
    ensures
        ({
            let ds = dx * dx + dy * dy;
            let dot = vx * dx + vy * dy;
            let rx = vx - div_trunc_spec(2 * dot * dx, ds);
            let ry = vy - div_trunc_spec(2 * dot * dy, ds);
            rx * rx + ry * ry == vx * vx + vy * vy
        }),
{
    let ds = dx * dx + dy * dy;
    let dot = vx * dx + vy * dy;
    assert(ds >= 1) by (nonlinear_arith)
        requires
            ds == dx * dx + dy * dy,
            ds > 0,
    ;
    if dy == 0 {
        assert(ds == dx * dx && dot == vx * dx);
        assert(2 * dot * dx == (2 * vx) * ds && 2 * dot * dy == 0 * ds) by (nonlinear_arith)
            requires
                ds == dx * dx,
                dot == vx * dx,
                dy == 0,
        ;
        lemma_div_trunc_exact(2 * vx, ds);
        lemma_div_trunc_exact(0, ds);
        let rx = vx - div_trunc_spec(2 * dot * dx, ds);
        let ry = vy - div_trunc_spec(2 * dot * dy, ds);
        assert(rx == -vx && ry == vy);
        assert((-vx) * (-vx) == vx * vx) by (nonlinear_arith);
    } else {
        assert(dx == 0);
        assert(ds == dy * dy && dot == vy * dy);
        assert(2 * dot * dy == (2 * vy) * ds && 2 * dot * dx == 0 * ds) by (nonlinear_arith)
            requires
                ds == dy * dy,
                dot == vy * dy,
                dx == 0,
        ;
        lemma_div_trunc_exact(2 * vy, ds);
        lemma_div_trunc_exact(0, ds);
        let rx = vx - div_trunc_spec(2 * dot * dx, ds);
        let ry = vy - div_trunc_spec(2 * dot * dy, ds);
        assert(rx == vx && ry == -vy);
        assert((-vy) * (-vy) == vy * vy) by (nonlinear_arith);
    }
}

} // verus!
