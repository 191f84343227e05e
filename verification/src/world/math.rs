//! Coordinates: columns of chunks, whole blocks, and the finer grid on which
//! entities stand.
//!
//! Nothing here is a floating-point number. A place between two blocks is
//! counted in [`UNITS_PER_BLOCK`] steps per block, an angle in the same
//! number of steps per degree, so that distances are compared exactly.

use vstd::prelude::*;

verus! {

/// Steps of the fine grid in one block (and in one degree of an angle).
pub const UNITS_PER_BLOCK: i64 = 4096;

/// The coordinate of a chunk, or of a column of blocks.
#[derive(Clone, Copy, Debug, PartialEq, Eq, Hash, Structural)]
pub struct Vector2 {
    pub x: i32,
    pub z: i32,
}

/// A vector of whole blocks.
#[derive(Clone, Copy, Debug, PartialEq, Eq, Hash, Structural)]
pub struct Vector3 {
    pub x: i32,
    pub y: i32,
    pub z: i32,
}

/// The position of one block in the world.
#[derive(Clone, Copy, Debug, PartialEq, Eq, Hash, Structural)]
pub struct WorldPosition(pub Vector3);

/// A place on the fine grid: each coordinate counts steps of
/// `1 / UNITS_PER_BLOCK` of a block.
#[derive(Clone, Copy, Debug, PartialEq, Eq, Hash, Structural)]
pub struct Position {
    pub x: i64,
    pub y: i64,
    pub z: i64,
}

/// The nearest `i32` to `v`.
pub open spec fn clamp_to_i32(v: int) -> i32 {
    if v < i32::MIN {
        i32::MIN
    } else if v > i32::MAX {
        i32::MAX
    } else {
        v as i32
    }
}

/// The whole number nearest to `v / UNITS_PER_BLOCK`; a half rounds away
/// from zero.
pub open spec fn round_to_block(v: int) -> int {
    if v >= 0 {
        (v + UNITS_PER_BLOCK / 2) / (UNITS_PER_BLOCK as int)
    } else {
        -((-v + UNITS_PER_BLOCK / 2) / (UNITS_PER_BLOCK as int))
    }
}

/// `x / 16`, rounded down.
fn chunk_of(x: i32) -> (q: i32)
    ensures
        q == x as int / 16,
{
    if x >= 0 {
        x / 16
    } else {
        -1 - (-(x + 1)) / 16
    }
}

/// What is left of `x` after whole chunks are taken away: `0..16`.
fn offset_in_chunk(x: i32) -> (r: i32)
    ensures
        r == x as int % 16,
        0 <= r < 16,
{
    if x >= 0 {
        x % 16
    } else {
        15 - (-(x + 1)) % 16
    }
}

/// `v / UNITS_PER_BLOCK`, rounded down.
fn floor_to_block(v: i64) -> (q: i64)
    ensures
        q == v as int / (UNITS_PER_BLOCK as int),
{
    if v >= 0 {
        v / UNITS_PER_BLOCK
    } else {
        -1 - (-(v + 1)) / UNITS_PER_BLOCK
    }
}

/// `v / UNITS_PER_BLOCK`, rounded to the nearest whole number.
fn nearest_block(v: i64) -> (q: i64)
    ensures
        q == round_to_block(v as int),
{
    let wide: i128 = v as i128;
    let half: i128 = (UNITS_PER_BLOCK / 2) as i128;
    let whole: i128 = if wide >= 0 {
        (wide + half) / (UNITS_PER_BLOCK as i128)
    } else {
        -((-wide + half) / (UNITS_PER_BLOCK as i128))
    };
    whole as i64
}

/// The nearest `i32` to `v`.
fn saturate(v: i64) -> (r: i32)
    ensures
        r == clamp_to_i32(v as int),
{
    if v < i32::MIN as i64 {
        i32::MIN
    } else if v > i32::MAX as i64 {
        i32::MAX
    } else {
        v as i32
    }
}

impl Vector2 {
    pub fn new(x: i32, z: i32) -> (v: Vector2)
        ensures
            v == (Vector2 { x, z }),
    {
        Vector2 { x, z }
    }

    /// The square of the straight-line distance between two columns.
    pub open spec fn spec_distance_squared(self, center: Vector2) -> int {
        (self.x - center.x) * (self.x - center.x) + (self.z - center.z) * (self.z - center.z)
    }

    /// The square of the straight-line distance between two columns. No
    /// pair of columns is too far apart for the result.
    pub fn distance_squared(self, center: Vector2) -> (d: u128)
        ensures
            d == self.spec_distance_squared(center),
    {
        let rel_x: i64 = self.x as i64 - center.x as i64;
        let rel_z: i64 = self.z as i64 - center.z as i64;
        let ax: u128 = if rel_x >= 0 {
            rel_x as u128
        } else {
            (-rel_x) as u128
        };
        let az: u128 = if rel_z >= 0 {
            rel_z as u128
        } else {
            (-rel_z) as u128
        };
        assert(ax * ax == rel_x * rel_x && ax * ax <= 0x1_0000_0000 * 0x1_0000_0000)
            by (nonlinear_arith)
            requires
                ax == (if rel_x >= 0 { rel_x as int } else { -rel_x }),
                ax <= 0x1_0000_0000,
        ;
        assert(az * az == rel_z * rel_z && az * az <= 0x1_0000_0000 * 0x1_0000_0000)
            by (nonlinear_arith)
            requires
                az == (if rel_z >= 0 { rel_z as int } else { -rel_z }),
                az <= 0x1_0000_0000,
        ;
        ax * ax + az * az
    }
}

impl Vector3 {
    pub fn new(x: i32, y: i32, z: i32) -> (v: Vector3)
        ensures
            v == (Vector3 { x, y, z }),
    {
        Vector3 { x, y, z }
    }
}

impl WorldPosition {
    /// The chunk that holds this block.
    pub open spec fn spec_chunk(self) -> Vector2 {
        Vector2 { x: (self.0.x as int / 16) as i32, z: (self.0.z as int / 16) as i32 }
    }

    /// Where the block stands inside its chunk: `x` and `z` are in
    /// `0..16`, `y` is the height itself.
    pub open spec fn spec_relative(self) -> Vector3 {
        Vector3 { x: (self.0.x as int % 16) as i32, y: self.0.y, z: (self.0.z as int % 16) as i32 }
    }

    /// The chunk that holds this block, and where in that chunk it stands.
    pub fn chunk_and_chunk_relative_position(&self) -> (r: (Vector2, Vector3))
        ensures
            r.0 == self.spec_chunk(),
            r.1 == self.spec_relative(),
            0 <= r.1.x < 16,
            0 <= r.1.z < 16,
    {
        let chunk = Vector2 { x: chunk_of(self.0.x), z: chunk_of(self.0.z) };
        let relative = Vector3 {
            x: offset_in_chunk(self.0.x),
            y: self.0.y,
            z: offset_in_chunk(self.0.z),
        };
        (chunk, relative)
    }
}

impl Position {
    pub fn new(x: i64, y: i64, z: i64) -> (p: Position)
        ensures
            p == (Position { x, y, z }),
    {
        Position { x, y, z }
    }

    /// The corner of a block with the lowest coordinates.
    pub open spec fn spec_from_block(block: Vector3) -> Position {
        Position {
            x: (block.x * UNITS_PER_BLOCK) as i64,
            y: (block.y * UNITS_PER_BLOCK) as i64,
            z: (block.z * UNITS_PER_BLOCK) as i64,
        }
    }

    /// The corner of a block with the lowest coordinates.
    pub fn from_block(block: Vector3) -> (p: Position)
        ensures
            p == Position::spec_from_block(block),
    {
        Position {
            x: block.x as i64 * UNITS_PER_BLOCK,
            y: block.y as i64 * UNITS_PER_BLOCK,
            z: block.z as i64 * UNITS_PER_BLOCK,
        }
    }

    /// The middle of a block.
    pub open spec fn spec_block_center(block: Vector3) -> Position {
        Position {
            x: (block.x * UNITS_PER_BLOCK + UNITS_PER_BLOCK / 2) as i64,
            y: (block.y * UNITS_PER_BLOCK + UNITS_PER_BLOCK / 2) as i64,
            z: (block.z * UNITS_PER_BLOCK + UNITS_PER_BLOCK / 2) as i64,
        }
    }

    /// The middle of a block.
    pub fn block_center(block: Vector3) -> (p: Position)
        ensures
            p == Position::spec_block_center(block),
    {
        let half: i64 = UNITS_PER_BLOCK / 2;
        Position {
            x: block.x as i64 * UNITS_PER_BLOCK + half,
            y: block.y as i64 * UNITS_PER_BLOCK + half,
            z: block.z as i64 * UNITS_PER_BLOCK + half,
        }
    }

    /// The block in which this place lies. A coordinate too large for a
    /// block position becomes the largest one there is.
    pub open spec fn spec_block_pos(self) -> WorldPosition {
        WorldPosition(
            Vector3 {
                x: clamp_to_i32(self.x as int / (UNITS_PER_BLOCK as int)),
                y: clamp_to_i32(self.y as int / (UNITS_PER_BLOCK as int)),
                z: clamp_to_i32(self.z as int / (UNITS_PER_BLOCK as int)),
            },
        )
    }

    /// The block in which this place lies.
    pub fn block_pos(&self) -> (b: WorldPosition)
        ensures
            b == self.spec_block_pos(),
    {
        WorldPosition(
            Vector3 {
                x: saturate(floor_to_block(self.x)),
                y: saturate(floor_to_block(self.y)),
                z: saturate(floor_to_block(self.z)),
            },
        )
    }

    /// The block position nearest to this place, each coordinate rounded
    /// on its own.
    pub open spec fn spec_rounded(self) -> WorldPosition {
        WorldPosition(
            Vector3 {
                x: clamp_to_i32(round_to_block(self.x as int)),
                y: clamp_to_i32(round_to_block(self.y as int)),
                z: clamp_to_i32(round_to_block(self.z as int)),
            },
        )
    }

    /// The block position nearest to this place.
    pub fn rounded(&self) -> (b: WorldPosition)
        ensures
            b == self.spec_rounded(),
    {
        WorldPosition(
            Vector3 {
                x: saturate(nearest_block(self.x)),
                y: saturate(nearest_block(self.y)),
                z: saturate(nearest_block(self.z)),
            },
        )
    }

    /// The square of the distance to `other`, in steps of the fine grid.
    pub open spec fn spec_distance_squared(self, other: Position) -> int {
        (self.x - other.x) * (self.x - other.x) + (self.y - other.y) * (self.y - other.y) + (self.z
            - other.z) * (self.z - other.z)
    }

    /// Whether this place lies in the ball of `radius` blocks round
    /// `center`, its surface included.
    pub open spec fn spec_within(self, center: Position, radius: u16) -> bool {
        self.spec_distance_squared(center) <= (radius * UNITS_PER_BLOCK) * (radius
            * UNITS_PER_BLOCK)
    }

    /// Whether this place lies in the ball of `radius` blocks round
    /// `center`, its surface included. Squares are compared: no root is
    /// taken.
    pub fn within(&self, center: &Position, radius: u16) -> (inside: bool)
        ensures
            inside == self.spec_within(*center, radius),
    {
        let reach: i128 = radius as i128 * UNITS_PER_BLOCK as i128;
        assert(reach == radius * 4096);
        let dx: i128 = self.x as i128 - center.x as i128;
        let dy: i128 = self.y as i128 - center.y as i128;
        let dz: i128 = self.z as i128 - center.z as i128;
        proof {
            lemma_square_nonnegative(dx as int);
            lemma_square_nonnegative(dy as int);
            lemma_square_nonnegative(dz as int);
        }
        if dx > reach || dx < -reach {
            proof {
                lemma_square_beyond(dx as int, reach as int);
            }
            return false;
        }
        if dy > reach || dy < -reach {
            proof {
                lemma_square_beyond(dy as int, reach as int);
            }
            return false;
        }
        if dz > reach || dz < -reach {
            proof {
                lemma_square_beyond(dz as int, reach as int);
            }
            return false;
        }
        proof {
            lemma_square_bounded(dx as int, reach as int);
            lemma_square_bounded(dy as int, reach as int);
            lemma_square_bounded(dz as int, reach as int);
            lemma_square_bounded(reach as int, reach as int);
            lemma_square_bounded(reach as int, 0x1000_0000);
        }
        dx * dx + dy * dy + dz * dz <= reach * reach
    }
}

/// A square is never negative.
proof fn lemma_square_nonnegative(d: int)
    ensures
        d * d >= 0,
{
    assert(d * d >= 0) by (nonlinear_arith);
}

/// A number further from zero than `r` has a larger square.
proof fn lemma_square_beyond(d: int, r: int)
    requires
        r >= 0,
        d > r || d < -r,
    ensures
        d * d > r * r,
{
    assert(d * d > r * r) by (nonlinear_arith)
        requires
            r >= 0,
            d > r || d < -r,
    ;
}

/// A number no further from zero than `r` has no larger square.
proof fn lemma_square_bounded(d: int, r: int)
    requires
        -r <= d <= r,
    ensures
        0 <= d * d <= r * r,
{
    assert(0 <= d * d <= r * r) by (nonlinear_arith)
        requires
            -r <= d <= r,
    ;
}

} // verus!
