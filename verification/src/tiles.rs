//! Destructible tiles and the tile map: a fixed row-major grid of
//! rectangular obstacles. A tile is destroyed by the first qualifying ball
//! collision, exactly once, and then never collides or draws again.

use vstd::prelude::*;

use crate::ball::Ball;
use crate::collision::overlaps;
use crate::collision::resolve_circle_rect;
use crate::collision::resolved_x;
use crate::collision::resolved_y;
use crate::collision::CollisionResponse;
use crate::geometry::div_trunc;
use crate::geometry::Color;
use crate::geometry::Rect;
use crate::geometry::SimpleVec2;
use crate::geometry::GEOM_LIMIT;
use crate::geometry::POS_LIMIT;

verus! {

/// One destructible tile of the grid.
#[derive(Clone, Copy, Debug, PartialEq, Eq, Structural)]
pub struct Tile {
    pub position: SimpleVec2,
    pub size: SimpleVec2,
    pub color: Color,
    pub is_solid: bool,
    pub destroyed: bool,
}

impl Tile {
    /// A tile whose placement and size are small enough for the collision
    /// arithmetic.
    pub open spec fn wf(self) -> bool {
        &&& -GEOM_LIMIT <= self.position.x <= GEOM_LIMIT
        &&& -GEOM_LIMIT <= self.position.y <= GEOM_LIMIT
        &&& 0 <= self.size.x <= GEOM_LIMIT
        &&& 0 <= self.size.y <= GEOM_LIMIT
    }

    /// The tile's collision rectangle.
    pub open spec fn rect_spec(self) -> Rect {
        Rect { x: self.position.x, y: self.position.y, w: self.size.x, h: self.size.y }
    }

    pub fn new(x: i64, y: i64, width: i64, height: i64, color: Color, is_solid: bool) -> (t: Tile)
        requires
            -GEOM_LIMIT <= x <= GEOM_LIMIT,
            -GEOM_LIMIT <= y <= GEOM_LIMIT,
            0 <= width <= GEOM_LIMIT,
            0 <= height <= GEOM_LIMIT,
        ensures
            t == (Tile {
                position: SimpleVec2 { x, y },
                size: SimpleVec2 { x: width, y: height },
                color,
                is_solid,
                destroyed: false,
            }),
            t.wf(),
    {
        Tile {
            position: SimpleVec2 { x, y },
            size: SimpleVec2 { x: width, y: height },
            color,
            is_solid,
            destroyed: false,
        }
    }

    pub fn get_rect(&self) -> (r: Rect)
        ensures
            r == self.rect_spec(),
    {
        Rect { x: self.position.x, y: self.position.y, w: self.size.x, h: self.size.y }
    }
}

/// Construction failure of a tile map.
#[derive(Clone, Copy, Debug, PartialEq, Eq, Structural)]
pub enum TileMapError {
    /// The rows of the given pattern do not all have the same length.
    NonRectangularPattern,
}

/// Flat row-major index of grid cell `(i, j)`.
pub open spec fn grid_index(i: int, j: int, cols: int) -> int {
    i * cols + j
}

/// Row-major cell indices are within the flat grid.
proof fn lemma_grid_index_bounds(i: int, j: int, rows: int, cols: int)
    requires
        0 <= i < rows,
        0 <= j < cols,
    ensures
        0 <= grid_index(i, j, cols) < rows * cols,
        grid_index(i, j, cols) < (i + 1) * cols <= rows * cols,
{
    assert(0 <= i * cols + j < rows * cols && i * cols + j < (i + 1) * cols <= rows * cols)
        by (nonlinear_arith)
        requires
            0 <= i < rows,
            0 <= j < cols,
    ;
}

/// A cell coordinate on a grid of `count` cells of pitch `pitch` (tile plus
/// gap), offset by half a gap, stays within the covered span.
proof fn lemma_cell_coord_bounds(idx: int, count: int, pitch: int, gap: int, limit: int)
    requires
        0 <= idx < count,
        0 <= gap < pitch,
        count * pitch <= limit,
    ensures
        0 <= idx * pitch + gap / 2 <= limit - pitch + gap / 2 <= limit,
{
    assert(0 <= idx * pitch && (idx + 1) * pitch <= count * pitch && idx * pitch + pitch == (idx
        + 1) * pitch) by (nonlinear_arith)
        requires
            0 <= idx < count,
            1 <= pitch,
    ;
    assert(0 <= gap / 2 <= gap);
}

/// What a cell of a uniformly-built map holds: a solid tile of the fill
/// color, spaced by `gap` with a half-gap border.
pub open spec fn uniform_cell(t: Tile, i: int, j: int, tile_w: int, tile_h: int, gap: int) -> bool {
    &&& t.position.x == j * (tile_w + gap) + gap / 2
    &&& t.position.y == i * (tile_h + gap) + gap / 2
    &&& t.size.x == tile_w
    &&& t.size.y == tile_h
    &&& t.color == (Color { r: 255, g: 255, b: 0, a: 255 })
    &&& t.is_solid
    &&& !t.destroyed
}

/// What a cell built from a pattern cell holds: a solid tile of the given
/// color for `Some`, and a pre-destroyed, never-solid placeholder for
/// `None`, both at the same spacing as the uniform build.
pub open spec fn pattern_cell(
    t: Tile,
    cell: Option<Color>,
    i: int,
    j: int,
    tile_w: int,
    tile_h: int,
    gap: int,
) -> bool {
    &&& t.position.x == j * (tile_w + gap) + gap / 2
    &&& t.position.y == i * (tile_h + gap) + gap / 2
    &&& t.size.x == tile_w
    &&& t.size.y == tile_h
    &&& t.color == (match cell {
        Some(c) => c,
        None => Color { r: 0, g: 0, b: 0, a: 255 },
    })
    &&& t.is_solid == (cell is Some)
    &&& t.destroyed == (cell is None)
}

/// The tile grid: a flat arena of `rows * cols` tiles in row-major order.
pub struct TileMap {
    pub tiles: Vec<Tile>,
    pub rows: usize,
    pub cols: usize,
    pub tile_size: SimpleVec2,
    pub gap: i64,
}

impl TileMap {
    /// The grid is fully allocated and every tile is well-formed.
    pub open spec fn wf(self) -> bool {
        &&& self.tiles@.len() == self.rows * self.cols
        &&& forall|k: int| 0 <= k < self.tiles@.len() ==> (#[trigger] self.tiles@[k]).wf()
    }

    /// The tile at grid cell `(i, j)`.
    pub open spec fn cell(self, i: int, j: int) -> Tile {
        self.tiles@[grid_index(i, j, self.cols as int)]
    }

    /// The ball overlaps the live (solid, not destroyed) tile at flat
    /// index `k`.
    pub open spec fn hit_at(self, b: Ball, k: int) -> bool {
        &&& 0 <= k < self.tiles@.len()
        &&& self.tiles@[k].is_solid
        &&& !self.tiles@[k].destroyed
        &&& overlaps(b.position.x as int, b.position.y as int, b.radius as int, self.tiles@[k].rect_spec())
    }

    /// `k` is the first flat index (row-major order) whose live tile the
    /// ball overlaps.
    pub open spec fn first_hit_at(self, b: Ball, k: int) -> bool {
        &&& self.hit_at(b, k)
        &&& forall|k2: int| 0 <= k2 < k ==> !(#[trigger] self.hit_at(b, k2))
    }

    /// Build a uniform all-solid grid: as many whole cells (tile size plus
    /// gap) as fit across the full screen width and the top two thirds of
    /// the screen height, each tile offset by half a gap.
    #[verifier::loop_isolation(false)]
    pub fn new(
        screen_width: i64,
        screen_height: i64,
        tile_width: i64,
        tile_height: i64,
        gap: i64,
    ) -> (m: TileMap)
        requires
            0 <= screen_width <= GEOM_LIMIT,
            0 <= screen_height <= GEOM_LIMIT,
            1 <= tile_width <= GEOM_LIMIT,
            1 <= tile_height <= GEOM_LIMIT,
            0 <= gap <= GEOM_LIMIT,
        ensures
            m.rows == ((screen_height * 2) / 3) / (tile_height + gap) as int,
            m.cols == screen_width as int / (tile_width + gap) as int,
            m.tile_size == (SimpleVec2 { x: tile_width, y: tile_height }),
            m.gap == gap,
            m.wf(),
            forall|i: int, j: int|
                0 <= i < m.rows && 0 <= j < m.cols ==> uniform_cell(
                    m.tiles@[#[trigger] grid_index(i, j, m.cols as int)],
                    i,
                    j,
                    tile_width as int,
                    tile_height as int,
                    gap as int,
                ),
    {
        let covered_height = div_trunc(screen_height * 2, 3);
        proof {
            vstd::arithmetic::div_mod::lemma_div_pos_is_pos(2 * screen_height, 3);
            vstd::arithmetic::div_mod::lemma_div_is_ordered(2 * screen_height, 3 * screen_height, 3);
            vstd::arithmetic::div_mod::lemma_div_multiples_vanish(screen_height as int, 3);
        }
        let pitch_x = tile_width + gap;
        let pitch_y = tile_height + gap;
        let cols_i = div_trunc(screen_width, pitch_x);
        let rows_i = div_trunc(covered_height, pitch_y);
        proof {
            vstd::arithmetic::div_mod::lemma_div_pos_is_pos(screen_width as int, pitch_x as int);
            vstd::arithmetic::div_mod::lemma_div_nonincreasing(screen_width as int, pitch_x as int);
            vstd::arithmetic::div_mod::lemma_div_pos_is_pos(covered_height as int, pitch_y as int);
            vstd::arithmetic::div_mod::lemma_div_nonincreasing(
                covered_height as int,
                pitch_y as int,
            );
            vstd::arithmetic::div_mod::lemma_fundamental_div_mod(screen_width as int, pitch_x as int);
            vstd::arithmetic::div_mod::lemma_mod_bound(screen_width as int, pitch_x as int);
            vstd::arithmetic::div_mod::lemma_fundamental_div_mod(
                covered_height as int,
                pitch_y as int,
            );
            vstd::arithmetic::div_mod::lemma_mod_bound(covered_height as int, pitch_y as int);
            assert(pitch_x * cols_i == cols_i * pitch_x && pitch_y * rows_i == rows_i * pitch_y)
                by (nonlinear_arith);
        }
        let rows: usize = rows_i as usize;
        let cols: usize = cols_i as usize;
        let half_gap = div_trunc(gap, 2);
        let mut tiles: Vec<Tile> = Vec::new();
        let mut i: usize = 0;
        while i < rows
            invariant
                i <= rows,
                tiles@.len() == i * (cols as int),
                forall|k: int| 0 <= k < tiles@.len() ==> (#[trigger] tiles@[k]).wf(),
                forall|i2: int, j2: int|
                    0 <= i2 < i && 0 <= j2 < cols ==> uniform_cell(
                        tiles@[#[trigger] grid_index(i2, j2, cols as int)],
                        i2,
                        j2,
                        tile_width as int,
                        tile_height as int,
                        gap as int,
                    ),
            decreases rows - i,
        {
            let mut j: usize = 0;
            while j < cols
                invariant
                    i < rows,
                    j <= cols,
                    tiles@.len() == i * (cols as int) + j,
                    forall|k: int| 0 <= k < tiles@.len() ==> (#[trigger] tiles@[k]).wf(),
                    forall|i2: int, j2: int|
                        0 <= i2 < i && 0 <= j2 < cols ==> uniform_cell(
                            tiles@[#[trigger] grid_index(i2, j2, cols as int)],
                            i2,
                            j2,
                            tile_width as int,
                            tile_height as int,
                            gap as int,
                        ),
                    forall|j2: int|
                        0 <= j2 < j ==> uniform_cell(
                            tiles@[#[trigger] grid_index(i as int, j2, cols as int)],
                            i as int,
                            j2,
                            tile_width as int,
                            tile_height as int,
                            gap as int,
                        ),
                decreases cols - j,
            {
                proof {
                    lemma_cell_coord_bounds(
                        j as int,
                        cols as int,
                        pitch_x as int,
                        gap as int,
                        screen_width as int,
                    );
                    lemma_cell_coord_bounds(
                        i as int,
                        rows as int,
                        pitch_y as int,
                        gap as int,
                        covered_height as int,
                    );
                }
                let x = (j as i64) * pitch_x + half_gap;
                let y = (i as i64) * pitch_y + half_gap;
                let tile = Tile::new(x, y, tile_width, tile_height, Color::rgb(255, 255, 0), true);
                proof {
                    lemma_grid_index_bounds(i as int, j as int, rows as int, cols as int);
                    assert forall|i2: int, j2: int|
                        0 <= i2 < i && 0 <= j2 < cols implies #[trigger] grid_index(
                        i2,
                        j2,
                        cols as int,
                    ) < tiles@.len() by {
                        lemma_grid_index_bounds(i2, j2, i as int, cols as int);
                        assert(i * (cols as int) <= tiles@.len());
                    };
                }
                tiles.push(tile);
                j += 1;
            }
            proof {
                assert((i + 1) * (cols as int) == i * (cols as int) + cols) by (nonlinear_arith);
            }
            i += 1;
        }
        TileMap {
            tiles,
            rows,
            cols,
            tile_size: SimpleVec2 { x: tile_width, y: tile_height },
            gap,
        }
    }

    /// Build a grid from an explicit rectangular pattern: `Some(color)`
    /// makes a solid tile of that color, `None` a pre-destroyed invisible
    /// placeholder that never draws or collides. Placement matches the
    /// uniform build. Fails if the pattern rows differ in length.
    #[verifier::loop_isolation(false)]
    pub fn from_pattern(
        pattern: &Vec<Vec<Option<Color>>>,
        tile_width: i64,
        tile_height: i64,
        gap: i64,
    ) -> (r: Result<TileMap, TileMapError>)
        requires
            1 <= tile_width <= GEOM_LIMIT,
            1 <= tile_height <= GEOM_LIMIT,
            0 <= gap <= GEOM_LIMIT,
            pattern@.len() * (tile_height + gap) <= GEOM_LIMIT,
            pattern@.len() > 0 ==> pattern@[0]@.len() * (tile_width + gap) <= GEOM_LIMIT,
        ensures
            r is Err <==> exists|i: int|
                0 <= i < pattern@.len() && (#[trigger] pattern@[i]@).len() != pattern@[0]@.len(),
            r matches Ok(m) ==> {
                &&& m.rows == pattern@.len()
                &&& m.cols == (if pattern@.len() == 0 {
                    0int
                } else {
                    pattern@[0]@.len() as int
                })
                &&& m.tile_size == (SimpleVec2 { x: tile_width, y: tile_height })
                &&& m.gap == gap
                &&& m.wf()
                &&& forall|i: int, j: int|
                    0 <= i < m.rows && 0 <= j < m.cols ==> pattern_cell(
                        m.tiles@[#[trigger] grid_index(i, j, m.cols as int)],
                        pattern@[i]@[j],
                        i,
                        j,
                        tile_width as int,
                        tile_height as int,
                        gap as int,
                    )
            },
    {
        let rows: usize = pattern.len();
        let cols: usize = if rows > 0 {
            pattern[0].len()
        } else {
            0
        };
        let mut i: usize = 0;
        while i < rows
            invariant
                i <= rows,
                forall|i2: int| 0 <= i2 < i ==> (#[trigger] pattern@[i2]@).len() == cols,
            decreases rows - i,
        {
            if pattern[i].len() != cols {
                return Err(TileMapError::NonRectangularPattern);
            }
            i += 1;
        }
        let pitch_x = tile_width + gap;
        let pitch_y = tile_height + gap;
        proof {
            assert(rows <= rows * (pitch_y as int) && cols <= cols * (pitch_x as int))
                by (nonlinear_arith)
                requires
                    pitch_x >= 1,
                    pitch_y >= 1,
                    rows >= 0,
                    cols >= 0,
            ;
        }
        let half_gap = div_trunc(gap, 2);
        let mut tiles: Vec<Tile> = Vec::new();
        let mut ii: usize = 0;
        while ii < rows
            invariant
                ii <= rows,
                tiles@.len() == ii * (cols as int),
                forall|k: int| 0 <= k < tiles@.len() ==> (#[trigger] tiles@[k]).wf(),
                forall|i2: int, j2: int|
                    0 <= i2 < ii && 0 <= j2 < cols ==> pattern_cell(
                        tiles@[#[trigger] grid_index(i2, j2, cols as int)],
                        pattern@[i2]@[j2],
                        i2,
                        j2,
                        tile_width as int,
                        tile_height as int,
                        gap as int,
                    ),
            decreases rows - ii,
        {
            let row_ref = &pattern[ii];
            let mut jj: usize = 0;
            while jj < cols
                invariant
                    ii < rows,
                    jj <= cols,
                    row_ref == &pattern[ii as int],
                    tiles@.len() == ii * (cols as int) + jj,
                    forall|k: int| 0 <= k < tiles@.len() ==> (#[trigger] tiles@[k]).wf(),
                    forall|i2: int, j2: int|
                        0 <= i2 < ii && 0 <= j2 < cols ==> pattern_cell(
                            tiles@[#[trigger] grid_index(i2, j2, cols as int)],
                            pattern@[i2]@[j2],
                            i2,
                            j2,
                            tile_width as int,
                            tile_height as int,
                            gap as int,
                        ),
                    forall|j2: int|
                        0 <= j2 < jj ==> pattern_cell(
                            tiles@[#[trigger] grid_index(ii as int, j2, cols as int)],
                            pattern@[ii as int]@[j2],
                            ii as int,
                            j2,
                            tile_width as int,
                            tile_height as int,
                            gap as int,
                        ),
                decreases cols - jj,
            {
                proof {
                    lemma_cell_coord_bounds(
                        jj as int,
                        cols as int,
                        pitch_x as int,
                        gap as int,
                        cols * (pitch_x as int),
                    );
                    lemma_cell_coord_bounds(
                        ii as int,
                        rows as int,
                        pitch_y as int,
                        gap as int,
                        rows * (pitch_y as int),
                    );
                }
                let x = (jj as i64) * pitch_x + half_gap;
                let y = (ii as i64) * pitch_y + half_gap;
                let tile = match row_ref[jj] {
                    Some(c) => Tile::new(x, y, tile_width, tile_height, c, true),
                    None => {
                        let mut t = Tile::new(x, y, tile_width, tile_height, Color::rgb(0, 0, 0), false);
                        t.destroyed = true;
                        t
                    },
                };
                proof {
                    lemma_grid_index_bounds(ii as int, jj as int, rows as int, cols as int);
                    assert forall|i2: int, j2: int|
                        0 <= i2 < ii && 0 <= j2 < cols implies #[trigger] grid_index(
                        i2,
                        j2,
                        cols as int,
                    ) < tiles@.len() by {
                        lemma_grid_index_bounds(i2, j2, ii as int, cols as int);
                        assert(ii * (cols as int) <= tiles@.len());
                    };
                }
                tiles.push(tile);
                jj += 1;
            }
            proof {
                assert((ii + 1) * (cols as int) == ii * (cols as int) + cols) by (nonlinear_arith);
            }
            ii += 1;
        }
        Ok(
            TileMap {
                tiles,
                rows,
                cols,
                tile_size: SimpleVec2 { x: tile_width, y: tile_height },
                gap,
            },
        )
    }

    /// Read access to grid cell `(row, col)`, for rendering and queries.
    pub fn tile_at(&self, row: usize, col: usize) -> (t: Tile)
        requires
            self.wf(),
            row < self.rows,
            col < self.cols,
        ensures
            t == self.cell(row as int, col as int),
    {
        let n = self.tiles.len();
        proof {
            lemma_grid_index_bounds(row as int, col as int, self.rows as int, self.cols as int);
            assert(grid_index(row as int, col as int, self.cols as int) == row * self.cols + col);
            assert(row * self.cols + col < n);
        }
        let idx = row * self.cols + col;
        self.tiles[idx]
    }

    /// Scan the grid in row-major order and resolve the ball against the
    /// first live (solid, not destroyed) tile it overlaps: that tile is
    /// destroyed, the ball's vertical velocity is inverted and the ball is
    /// pushed out of the tile along the contact normal by the penetration
    /// depth (straight up by the full radius when the ball's center lies
    /// on or inside the tile); then the scan stops for this call, so at
    /// most one tile is destroyed however many tiles the ball overlaps.
    /// Destroyed tiles never change and never collide; destruction is
    /// irreversible. Without any overlap, nothing changes.
    #[verifier::loop_isolation(false)]
    pub fn handle_ball_collision(&mut self, ball: &mut Ball)
        requires
            old(self).wf(),
            old(ball).wf(),
            -POS_LIMIT <= old(ball).position.x <= POS_LIMIT,
            -POS_LIMIT <= old(ball).position.y <= POS_LIMIT,
            -GEOM_LIMIT <= old(ball).velocity.x <= GEOM_LIMIT,
            -GEOM_LIMIT <= old(ball).velocity.y <= GEOM_LIMIT,
        ensures
            final(self).rows == old(self).rows,
            final(self).cols == old(self).cols,
            final(self).tile_size == old(self).tile_size,
            final(self).gap == old(self).gap,
            final(self).tiles@.len() == old(self).tiles@.len(),
            final(self).wf(),
            final(ball).radius == old(ball).radius,
            final(ball).color == old(ball).color,
            final(ball).wf(),
            forall|k: int|
                0 <= k < old(self).tiles@.len() && !old(self).first_hit_at(*old(ball), k)
                    ==> final(self).tiles@[k] == #[trigger] old(self).tiles@[k],
            forall|k: int|
                #[trigger] old(self).first_hit_at(*old(ball), k) ==> {
                    &&& final(self).tiles@[k].position == old(self).tiles@[k].position
                    &&& final(self).tiles@[k].size == old(self).tiles@[k].size
                    &&& final(self).tiles@[k].color == old(self).tiles@[k].color
                    &&& final(self).tiles@[k].is_solid == old(self).tiles@[k].is_solid
                    &&& final(self).tiles@[k].destroyed
                    &&& final(ball).velocity.x == old(ball).velocity.x
                    &&& final(ball).velocity.y == -old(ball).velocity.y
                    &&& final(ball).position.x == resolved_x(
                        old(ball).position.x as int,
                        old(ball).position.y as int,
                        old(ball).radius as int,
                        old(self).tiles@[k].rect_spec(),
                    )
                    &&& final(ball).position.y == resolved_y(
                        old(ball).position.x as int,
                        old(ball).position.y as int,
                        old(ball).radius as int,
                        old(self).tiles@[k].rect_spec(),
                    )
                },
            (forall|k: int|
                0 <= k < old(self).tiles@.len() ==> !(#[trigger] old(self).hit_at(
                    *old(ball),
                    k,
                ))) ==> *final(ball) == *old(ball),
            forall|k: int|
                0 <= k < old(self).tiles@.len() && (#[trigger] old(self).tiles@[k]).destroyed
                    ==> final(self).tiles@[k].destroyed,
    {
        let n = self.tiles.len();
        let mut k: usize = 0;
        while k < n
            invariant
                k <= n,
                n == self.tiles@.len(),
                *self == *old(self),
                *ball == *old(ball),
                forall|k2: int| 0 <= k2 < k ==> !(#[trigger] old(self).hit_at(*old(ball), k2)),
            decreases n - k,
        {
            let t = self.tiles[k];
            if t.is_solid && !t.destroyed {
                let rect = t.get_rect();
                match resolve_circle_rect(
                    ball.position,
                    ball.radius,
                    ball.velocity,
                    &rect,
                    CollisionResponse::InvertVertical,
                ) {
                    Some((pushed, bounced)) => {
                        let mut destroyed_tile = t;
                        destroyed_tile.destroyed = true;
                        self.tiles[k] = destroyed_tile;
                        ball.position = pushed;
                        ball.velocity = bounced;
                        proof {
                            assert(old(self).first_hit_at(*old(ball), k as int));
                            assert forall|kk: int|
                                #[trigger] old(self).first_hit_at(*old(ball), kk) implies kk
                                == k as int by {
                                if kk < k as int {
                                    assert(old(self).hit_at(*old(ball), kk));
                                } else if kk > k as int {
                                    assert(!old(self).hit_at(*old(ball), k as int));
                                }
                            };
                        }
                        return;
                    },
                    None => {},
                }
            }
            k += 1;
        }
    }
}

/// At most one grid cell can be the first hit of a scan: the destroyed
/// tile of a collision call is uniquely determined.
pub proof fn lemma_first_hit_unique(m: TileMap, b: Ball, k1: int, k2: int)
    requires
        m.first_hit_at(b, k1),
        m.first_hit_at(b, k2),
    ensures
        k1 == k2,
{
    if k1 < k2 {
        assert(m.hit_at(b, k1));
    } else if k2 < k1 {
        assert(m.hit_at(b, k2));
    }
}

/// A destroyed tile never re-enters collision tests: no ball can hit it.
pub proof fn lemma_destroyed_never_hit(m: TileMap, b: Ball, k: int)
    requires
        0 <= k < m.tiles@.len(),
        m.tiles@[k].destroyed,
    ensures
        !m.hit_at(b, k),
{
}

} // verus!
