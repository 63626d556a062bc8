//! Axis-aligned boxes in fixed-point block coordinates.
//!
//! Coordinates are integers in units of `1 / UNITS_PER_BLOCK` of a block edge
//! (see `constants::geometry`). A 2D box stands for the set of unit cells
//! `(x, y)` with `min.x <= x < max.x` and `min.y <= y < max.y`.
use vstd::prelude::*;
use crate::constants::geometry::UNITS_PER_BLOCK;
use crate::direction::{dir_offset, Direction};

verus! {

/// A 2D point in fixed-point units.
#[derive(Debug, Clone, Copy, PartialEq, Eq, Structural, Hash)]
pub struct Point2 {
    pub x: i32,
    pub y: i32,
}

/// A 3D point in fixed-point units.
#[derive(Debug, Clone, Copy, PartialEq, Eq, Structural, Hash)]
pub struct Point3 {
    pub x: i32,
    pub y: i32,
    pub z: i32,
}

/// 2D axis-aligned bounding box on a face plane.
#[derive(Debug, Clone, Copy, PartialEq, Eq, Structural, Hash)]
pub struct Aabb2d {
    pub min: Point2,
    pub max: Point2,
}

/// 3D axis-aligned bounding box in block space.
#[derive(Debug, Clone, Copy, PartialEq, Eq, Structural, Hash)]
pub struct Aabb3d {
    pub min: Point3,
    pub max: Point3,
}

pub open spec fn min_i(a: int, b: int) -> int {
    if a <= b { a } else { b }
}

pub open spec fn max_i(a: int, b: int) -> int {
    if a >= b { a } else { b }
}

/// The box with the given corner coordinates, each axis put in order.
pub open spec fn rect_spec(x0: int, y0: int, x1: int, y1: int) -> Aabb2d {
    Aabb2d {
        min: Point2 { x: min_i(x0, x1) as i32, y: min_i(y0, y1) as i32 },
        max: Point2 { x: max_i(x0, x1) as i32, y: max_i(y0, y1) as i32 },
    }
}

/// The box covers the cell `(x, y)`.
pub open spec fn covers(r: Aabb2d, x: int, y: int) -> bool {
    r.min.x <= x < r.max.x && r.min.y <= y < r.max.y
}

/// The box's minimum corner is not above its maximum corner on either axis.
pub open spec fn rect_wf(r: Aabb2d) -> bool {
    r.min.x <= r.max.x && r.min.y <= r.max.y
}

/// Width, at least zero.
pub open spec fn rect_width(r: Aabb2d) -> int {
    max_i(r.max.x - r.min.x, 0)
}

/// Height, at least zero.
pub open spec fn rect_height(r: Aabb2d) -> int {
    max_i(r.max.y - r.min.y, 0)
}

/// The box is at most `eps` wide or at most `eps` high.
pub open spec fn rect_is_empty(r: Aabb2d, eps: int) -> bool {
    rect_width(r) <= eps || rect_height(r) <= eps
}

/// `outer` covers `inner` up to `eps` on every side.
pub open spec fn rect_contains_rect(outer: Aabb2d, inner: Aabb2d, eps: int) -> bool {
    &&& outer.min.x <= inner.min.x + eps
    &&& outer.max.x >= inner.max.x - eps
    &&& outer.min.y <= inner.min.y + eps
    &&& outer.max.y >= inner.max.y - eps
}

/// The two boxes overlap with positive area.
pub open spec fn rect_intersects(a: Aabb2d, b: Aabb2d) -> bool {
    a.min.x < b.max.x && a.max.x > b.min.x && a.min.y < b.max.y && a.max.y > b.min.y
}

/// The overlap of the two boxes, when it has positive area.
pub open spec fn rect_intersection(a: Aabb2d, b: Aabb2d) -> Option<Aabb2d> {
    let x0 = max_i(a.min.x as int, b.min.x as int);
    let y0 = max_i(a.min.y as int, b.min.y as int);
    let x1 = min_i(a.max.x as int, b.max.x as int);
    let y1 = min_i(a.max.y as int, b.max.y as int);
    if x0 < x1 && y0 < y1 {
        Some(Aabb2d { min: Point2 { x: x0 as i32, y: y0 as i32 }, max: Point2 { x: x1 as i32, y: y1 as i32 } })
    } else {
        None
    }
}

fn min_i32(a: i32, b: i32) -> (r: i32)
    ensures
        r == min_i(a as int, b as int),
{
    if a <= b { a } else { b }
}

fn max_i32(a: i32, b: i32) -> (r: i32)
    ensures
        r == max_i(a as int, b as int),
{
    if a >= b { a } else { b }
}

impl Point2 {
    pub fn new(x: i32, y: i32) -> (p: Point2)
        ensures
            p.x == x && p.y == y,
    {
        Point2 { x, y }
    }
}

impl Point3 {
    pub fn new(x: i32, y: i32, z: i32) -> (p: Point3)
        ensures
            p.x == x && p.y == y && p.z == z,
    {
        Point3 { x, y, z }
    }
}

impl Aabb2d {
    /// The zero-size box at the origin.
    pub fn zero() -> (r: Aabb2d)
        ensures
            r.min.x == 0 && r.min.y == 0 && r.max.x == 0 && r.max.y == 0,
    {
        Aabb2d { min: Point2 { x: 0, y: 0 }, max: Point2 { x: 0, y: 0 } }
    }

    /// The unit box covering a whole block face.
    pub fn unit() -> (r: Aabb2d)
        ensures
            r.min.x == 0 && r.min.y == 0 && r.max.x == UNITS_PER_BLOCK && r.max.y == UNITS_PER_BLOCK,
    {
        Aabb2d { min: Point2 { x: 0, y: 0 }, max: Point2 { x: UNITS_PER_BLOCK, y: UNITS_PER_BLOCK } }
    }

    /// A box with the given corners, taken as they are.
    pub fn new(min: Point2, max: Point2) -> (r: Aabb2d)
        ensures
            r.min == min && r.max == max,
    {
        Aabb2d { min, max }
    }

    /// A box from two corners, each axis put in order.
    pub fn from_min_max(min_x: i32, min_y: i32, max_x: i32, max_y: i32) -> (r: Aabb2d)
        ensures
            r == rect_spec(min_x as int, min_y as int, max_x as int, max_y as int),
            rect_wf(r),
    {
        Aabb2d {
            min: Point2 { x: min_i32(min_x, max_x), y: min_i32(min_y, max_y) },
            max: Point2 { x: max_i32(min_x, max_x), y: max_i32(min_y, max_y) },
        }
    }

    /// Width, at least zero.
    pub fn width(&self) -> (w: i64)
        ensures
            w == rect_width(*self),
    {
        let d = self.max.x as i64 - self.min.x as i64;
        if d > 0 { d } else { 0 }
    }

    /// Height, at least zero.
    pub fn height(&self) -> (h: i64)
        ensures
            h == rect_height(*self),
    {
        let d = self.max.y as i64 - self.min.y as i64;
        if d > 0 { d } else { 0 }
    }

    /// Area in square units.
    pub fn area(&self) -> (a: i128)
        ensures
            a == rect_width(*self) * rect_height(*self),
    {
        let w = self.width();
        let h = self.height();
        proof {
            assert(0 <= w <= 0x1_0000_0000);
            assert(0 <= h <= 0x1_0000_0000);
            assert(w * h <= 0x1_0000_0000 * 0x1_0000_0000) by (nonlinear_arith)
                requires
                    0 <= w <= 0x1_0000_0000,
                    0 <= h <= 0x1_0000_0000,
            ;
        }
        (w as i128) * (h as i128)
    }

    /// Whether the box is at most `eps` wide or at most `eps` high.
    pub fn is_empty(&self, eps: i32) -> (b: bool)
        ensures
            b == rect_is_empty(*self, eps as int),
    {
        self.width() <= eps as i64 || self.height() <= eps as i64
    }

    /// Whether the point lies in the box, edges included.
    pub fn contains_point(&self, p: Point2) -> (b: bool)
        ensures
            b == (self.min.x <= p.x <= self.max.x && self.min.y <= p.y <= self.max.y),
    {
        p.x >= self.min.x && p.x <= self.max.x && p.y >= self.min.y && p.y <= self.max.y
    }

    /// Whether this box covers `other` up to `eps` on every side.
    pub fn contains_rect(&self, other: &Aabb2d, eps: i32) -> (b: bool)
        ensures
            b == rect_contains_rect(*self, *other, eps as int),
    {
        let e = eps as i64;
        (self.min.x as i64) <= (other.min.x as i64) + e && (self.max.x as i64) >= (other.max.x as i64)
            - e && (self.min.y as i64) <= (other.min.y as i64) + e && (self.max.y as i64) >= (
        other.max.y as i64) - e
    }

    /// Whether the two boxes overlap with positive area.
    pub fn intersects(&self, other: &Aabb2d) -> (b: bool)
        ensures
            b == rect_intersects(*self, *other),
    {
        self.min.x < other.max.x && self.max.x > other.min.x && self.min.y < other.max.y && self.max.y
            > other.min.y
    }

    /// The overlap of the two boxes, or `None` when it has no area.
    pub fn intersection(&self, other: &Aabb2d) -> (r: Option<Aabb2d>)
        ensures
            r == rect_intersection(*self, *other),
    {
        let x0 = max_i32(self.min.x, other.min.x);
        let y0 = max_i32(self.min.y, other.min.y);
        let x1 = min_i32(self.max.x, other.max.x);
        let y1 = min_i32(self.max.y, other.max.y);
        if x0 < x1 && y0 < y1 {
            Some(Aabb2d { min: Point2 { x: x0, y: y0 }, max: Point2 { x: x1, y: y1 } })
        } else {
            None
        }
    }
}

/// The overlap of two boxes covers exactly the cells that both cover.
pub proof fn lemma_intersection_cells(a: Aabb2d, b: Aabb2d, x: int, y: int)
    ensures
        rect_intersection(a, b) matches Some(i) ==> (covers(i, x, y) <==> (covers(a, x, y) && covers(
            b,
            x,
            y,
        ))),
        rect_intersection(a, b) is None ==> !(covers(a, x, y) && covers(b, x, y)),
        (a.min.x < a.max.x && a.min.y < a.max.y && b.min.x < b.max.x && b.min.y < b.max.y) ==> (
        rect_intersection(a, b) is Some <==> rect_intersects(a, b)),
{
}

impl Aabb3d {
    /// The zero-size box at the origin.
    pub fn zero() -> (r: Aabb3d)
        ensures
            r.min == (Point3 { x: 0, y: 0, z: 0 }) && r.max == (Point3 { x: 0, y: 0, z: 0 }),
    {
        Aabb3d { min: Point3 { x: 0, y: 0, z: 0 }, max: Point3 { x: 0, y: 0, z: 0 } }
    }

    /// The unit block.
    pub fn unit() -> (r: Aabb3d)
        ensures
            r.min == (Point3 { x: 0, y: 0, z: 0 }),
            r.max == (Point3 { x: UNITS_PER_BLOCK, y: UNITS_PER_BLOCK, z: UNITS_PER_BLOCK }),
    {
        Aabb3d {
            min: Point3 { x: 0, y: 0, z: 0 },
            max: Point3 { x: UNITS_PER_BLOCK, y: UNITS_PER_BLOCK, z: UNITS_PER_BLOCK },
        }
    }

    /// A box with the given corners, taken as they are.
    pub fn new(min: Point3, max: Point3) -> (r: Aabb3d)
        ensures
            r.min == min && r.max == max,
    {
        Aabb3d { min, max }
    }

    /// A box from two corners, each axis put in order.
    pub fn from_min_max(min_x: i32, min_y: i32, min_z: i32, max_x: i32, max_y: i32, max_z: i32) -> (r:
        Aabb3d)
        ensures
            r.min.x == min_i(min_x as int, max_x as int) && r.max.x == max_i(min_x as int, max_x as int),
            r.min.y == min_i(min_y as int, max_y as int) && r.max.y == max_i(min_y as int, max_y as int),
            r.min.z == min_i(min_z as int, max_z as int) && r.max.z == max_i(min_z as int, max_z as int),
    {
        Aabb3d {
            min: Point3 { x: min_i32(min_x, max_x), y: min_i32(min_y, max_y), z: min_i32(min_z, max_z) },
            max: Point3 { x: max_i32(min_x, max_x), y: max_i32(min_y, max_y), z: max_i32(min_z, max_z) },
        }
    }

    /// Extent along each axis, at least zero.
    pub fn size(&self) -> (s: (i64, i64, i64))
        ensures
            s.0 == max_i(self.max.x - self.min.x, 0),
            s.1 == max_i(self.max.y - self.min.y, 0),
            s.2 == max_i(self.max.z - self.min.z, 0),
    {
        let dx = self.max.x as i64 - self.min.x as i64;
        let dy = self.max.y as i64 - self.min.y as i64;
        let dz = self.max.z as i64 - self.min.z as i64;
        (if dx > 0 { dx } else { 0 }, if dy > 0 { dy } else { 0 }, if dz > 0 { dz } else { 0 })
    }

    /// Volume in cubic units.
    pub fn volume(&self) -> (v: i128)
        ensures
            v == max_i(self.max.x - self.min.x, 0) * max_i(self.max.y - self.min.y, 0) * max_i(
                self.max.z - self.min.z,
                0,
            ),
    {
        let s = self.size();
        let (a, b, c) = s;
        proof {
            assert(a * b * c <= 0x1_0000_0000 * 0x1_0000_0000 * 0x1_0000_0000) by (nonlinear_arith)
                requires
                    0 <= a <= 0x1_0000_0000,
                    0 <= b <= 0x1_0000_0000,
                    0 <= c <= 0x1_0000_0000,
            ;
            assert(0 <= a * b) by (nonlinear_arith)
                requires
                    0 <= a,
                    0 <= b,
            ;
            assert(a * b <= 0x1_0000_0000 * 0x1_0000_0000) by (nonlinear_arith)
                requires
                    0 <= a <= 0x1_0000_0000,
                    0 <= b <= 0x1_0000_0000,
            ;
        }
        (a as i128) * (b as i128) * (c as i128)
    }
}

/// IEEE-754 single-precision bit pattern of `0.0`.
pub const F32_ZERO_BITS: u32 = 0x0000_0000;

/// IEEE-754 single-precision bit pattern of `1.0`.
pub const F32_ONE_BITS: u32 = 0x3f80_0000;

/// IEEE-754 single-precision bit pattern of `-1.0`.
pub const F32_NEG_ONE_BITS: u32 = 0xbf80_0000;

/// A planar quad: four corners with their UVs and the face normal. Each
/// component is the bit pattern of an `f32`.
#[derive(Debug, Clone, Copy)]
pub struct Quad {
    pub vertices: [[u32; 3]; 4],
    pub uvs: [[u32; 2]; 4],
    pub normal: [u32; 3],
}

/// The bit pattern of the `f32` equal to `v`, for `v` in `{-1, 0, 1}`.
pub open spec fn unit_bits(v: int) -> u32 {
    if v == 1 {
        F32_ONE_BITS
    } else if v == -1 {
        F32_NEG_ONE_BITS
    } else {
        F32_ZERO_BITS
    }
}

/// Corner `i` of the unit-cube face `d` in Minecraft's face winding:
/// Down (0,0,1) (0,0,0) (1,0,0) (1,0,1); Up (0,1,0) (0,1,1) (1,1,1) (1,1,0);
/// North (1,1,0) (1,0,0) (0,0,0) (0,1,0); South (0,1,1) (0,0,1) (1,0,1) (1,1,1);
/// West (0,1,0) (0,0,0) (0,0,1) (0,1,1); East (1,1,1) (1,0,1) (1,0,0) (1,1,0).
pub open spec fn unit_face_corner(d: Direction, i: int) -> (int, int, int) {
    match d {
        Direction::Down => seq![(0int, 0int, 1int), (0, 0, 0), (1, 0, 0), (1, 0, 1)][i],
        Direction::Up => seq![(0int, 1int, 0int), (0, 1, 1), (1, 1, 1), (1, 1, 0)][i],
        Direction::North => seq![(1int, 1int, 0int), (1, 0, 0), (0, 0, 0), (0, 1, 0)][i],
        Direction::South => seq![(0int, 1int, 1int), (0, 0, 1), (1, 0, 1), (1, 1, 1)][i],
        Direction::West => seq![(0int, 1int, 0int), (0, 0, 0), (0, 0, 1), (0, 1, 1)][i],
        Direction::East => seq![(1int, 1int, 1int), (1, 0, 1), (1, 0, 0), (1, 1, 0)][i],
    }
}

/// The canonical UV of corner `i`: (0,1) (0,0) (1,0) (1,1).
pub open spec fn unit_face_uv(i: int) -> (int, int) {
    seq![(0int, 1int), (0, 0), (1, 0), (1, 1)][i]
}

impl Quad {
    /// The face of the unit cube `[0, 1]^3` on side `dir`, with Minecraft's corner
    /// winding, the canonical UVs and the outward unit normal.
    pub fn unit_cube_face(dir: Direction) -> (q: Quad)
        ensures
            forall|i: int|
                #![trigger unit_face_corner(dir, i)]
                0 <= i < 4 ==> {
                    &&& q.vertices[i][0] == unit_bits(unit_face_corner(dir, i).0)
                    &&& q.vertices[i][1] == unit_bits(unit_face_corner(dir, i).1)
                    &&& q.vertices[i][2] == unit_bits(unit_face_corner(dir, i).2)
                    &&& q.uvs[i][0] == unit_bits(unit_face_uv(i).0)
                    &&& q.uvs[i][1] == unit_bits(unit_face_uv(i).1)
                },
            q.normal[0] == unit_bits(dir_offset(dir).0),
            q.normal[1] == unit_bits(dir_offset(dir).1),
            q.normal[2] == unit_bits(dir_offset(dir).2),
    {
        let o = F32_ZERO_BITS;
        let l = F32_ONE_BITS;
        let m = F32_NEG_ONE_BITS;
        let (vertices, normal) = match dir {
            Direction::Down => ([[o, o, l], [o, o, o], [l, o, o], [l, o, l]], [o, m, o]),
            Direction::Up => ([[o, l, o], [o, l, l], [l, l, l], [l, l, o]], [o, l, o]),
            Direction::North => ([[l, l, o], [l, o, o], [o, o, o], [o, l, o]], [o, o, m]),
            Direction::South => ([[o, l, l], [o, o, l], [l, o, l], [l, l, l]], [o, o, l]),
            Direction::West => ([[o, l, o], [o, o, o], [o, o, l], [o, l, l]], [m, o, o]),
            Direction::East => ([[l, l, l], [l, o, l], [l, o, o], [l, l, o]], [l, o, o]),
        };
        let uvs = [[o, l], [o, o], [l, o], [l, l]];
        Quad { vertices, uvs, normal }
    }
}

/// Cross product of two integer vectors.
pub open spec fn cross(a: (int, int, int), b: (int, int, int)) -> (int, int, int) {
    (a.1 * b.2 - a.2 * b.1, a.2 * b.0 - a.0 * b.2, a.0 * b.1 - a.1 * b.0)
}

/// Difference `a - b` of two integer vectors.
pub open spec fn sub3(a: (int, int, int), b: (int, int, int)) -> (int, int, int) {
    (a.0 - b.0, a.1 - b.1, a.2 - b.2)
}

/// The unit-cube faces are wound counter-clockwise seen from outside: the cross
/// product of the edges from corner 0 to corners 1 and 2 is the face's outward
/// unit normal (the direction's step). Every corner lies in the face's plane:
/// its coordinate along the direction's axis is 1 on a positive side, 0 on a
/// negative one.
pub proof fn lemma_unit_face_winding(d: Direction)
    ensures
        cross(
            sub3(unit_face_corner(d, 1), unit_face_corner(d, 0)),
            sub3(unit_face_corner(d, 2), unit_face_corner(d, 0)),
        ) == dir_offset(d),
        forall|i: int|
            0 <= i < 4 ==> {
                let c = #[trigger] unit_face_corner(d, i);
                let o = dir_offset(d);
                &&& o.0 != 0 ==> c.0 == (if o.0 > 0 { 1int } else { 0int })
                &&& o.1 != 0 ==> c.1 == (if o.1 > 0 { 1int } else { 0int })
                &&& o.2 != 0 ==> c.2 == (if o.2 > 0 { 1int } else { 0int })
            },
{
    let c0 = unit_face_corner(d, 0);
    let c1 = unit_face_corner(d, 1);
    let c2 = unit_face_corner(d, 2);
    match d {
        Direction::East => {
            assert(c0 == (1int, 1int, 1int) && c1 == (1int, 0int, 1int) && c2 == (1int, 0int, 0int));
            assert(cross(sub3(c1, c0), sub3(c2, c0)) == (1int, 0int, 0int)) by (nonlinear_arith)
                requires
                    c0 == (1int, 1int, 1int) && c1 == (1int, 0int, 1int) && c2 == (1int, 0int, 0int),
            ;
        },
        Direction::West => {
            assert(c0 == (0int, 1int, 0int) && c1 == (0int, 0int, 0int) && c2 == (0int, 0int, 1int));
            assert(cross(sub3(c1, c0), sub3(c2, c0)) == (-1int, 0int, 0int)) by (nonlinear_arith)
                requires
                    c0 == (0int, 1int, 0int) && c1 == (0int, 0int, 0int) && c2 == (0int, 0int, 1int),
            ;
        },
        Direction::Up => {
            assert(c0 == (0int, 1int, 0int) && c1 == (0int, 1int, 1int) && c2 == (1int, 1int, 1int));
            assert(cross(sub3(c1, c0), sub3(c2, c0)) == (0int, 1int, 0int)) by (nonlinear_arith)
                requires
                    c0 == (0int, 1int, 0int) && c1 == (0int, 1int, 1int) && c2 == (1int, 1int, 1int),
            ;
        },
        Direction::Down => {
            assert(c0 == (0int, 0int, 1int) && c1 == (0int, 0int, 0int) && c2 == (1int, 0int, 0int));
            assert(cross(sub3(c1, c0), sub3(c2, c0)) == (0int, -1int, 0int)) by (nonlinear_arith)
                requires
                    c0 == (0int, 0int, 1int) && c1 == (0int, 0int, 0int) && c2 == (1int, 0int, 0int),
            ;
        },
        Direction::South => {
            assert(c0 == (0int, 1int, 1int) && c1 == (0int, 0int, 1int) && c2 == (1int, 0int, 1int));
            assert(cross(sub3(c1, c0), sub3(c2, c0)) == (0int, 0int, 1int)) by (nonlinear_arith)
                requires
                    c0 == (0int, 1int, 1int) && c1 == (0int, 0int, 1int) && c2 == (1int, 0int, 1int),
            ;
        },
        Direction::North => {
            assert(c0 == (1int, 1int, 0int) && c1 == (1int, 0int, 0int) && c2 == (0int, 0int, 0int));
            assert(cross(sub3(c1, c0), sub3(c2, c0)) == (0int, 0int, -1int)) by (nonlinear_arith)
                requires
                    c0 == (1int, 1int, 0int) && c1 == (1int, 0int, 0int) && c2 == (0int, 0int, 0int),
            ;
        },
    }
    assert forall|i: int| 0 <= i < 4 implies {
        let c = #[trigger] unit_face_corner(d, i);
        let o = dir_offset(d);
        &&& o.0 != 0 ==> c.0 == (if o.0 > 0 { 1int } else { 0int })
        &&& o.1 != 0 ==> c.1 == (if o.1 > 0 { 1int } else { 0int })
        &&& o.2 != 0 ==> c.2 == (if o.2 > 0 { 1int } else { 0int })
    } by {
        if i == 0 {
        } else if i == 1 {
        } else if i == 2 {
        } else {
        }
    }
}

} // verus!
