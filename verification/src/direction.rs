//! The six cardinal directions of block space and sets of them.
use vstd::prelude::*;
use crate::geometry::{unit_bits, F32_NEG_ONE_BITS, F32_ONE_BITS, F32_ZERO_BITS};
use crate::text::{
    ascii_lower, chars_of, chars_eq_ignore_case, eq_ignore_case, is_ws, lead_ws, lower, trail_ws, trim,
    trim_chars,
};

verus! {

/// The six cardinal directions of block space.
///
/// East is +X (index 0), West -X (1), Up +Y (2), Down -Y (3),
/// South +Z (4) and North -Z (5).
#[derive(Debug, Clone, Copy, PartialEq, Eq, Structural, Hash)]
pub enum Direction {
    East,
    West,
    Up,
    Down,
    South,
    North,
}

/// Canonical index of a direction.
pub open spec fn dir_index(d: Direction) -> int {
    match d {
        Direction::East => 0,
        Direction::West => 1,
        Direction::Up => 2,
        Direction::Down => 3,
        Direction::South => 4,
        Direction::North => 5,
    }
}

/// The direction with the given canonical index, if the index is below six.
pub open spec fn dir_from_index(i: int) -> Option<Direction> {
    if i == 0 {
        Some(Direction::East)
    } else if i == 1 {
        Some(Direction::West)
    } else if i == 2 {
        Some(Direction::Up)
    } else if i == 3 {
        Some(Direction::Down)
    } else if i == 4 {
        Some(Direction::South)
    } else if i == 5 {
        Some(Direction::North)
    } else {
        None
    }
}

/// The direction facing the other way along the same axis.
pub open spec fn dir_opposite(d: Direction) -> Direction {
    match d {
        Direction::East => Direction::West,
        Direction::West => Direction::East,
        Direction::Up => Direction::Down,
        Direction::Down => Direction::Up,
        Direction::South => Direction::North,
        Direction::North => Direction::South,
    }
}

/// The integer step one block away in a direction.
pub open spec fn dir_offset(d: Direction) -> (int, int, int) {
    match d {
        Direction::East => (1, 0, 0),
        Direction::West => (-1, 0, 0),
        Direction::Up => (0, 1, 0),
        Direction::Down => (0, -1, 0),
        Direction::South => (0, 0, 1),
        Direction::North => (0, 0, -1),
    }
}

/// Lower-case canonical name of a direction.
pub open spec fn dir_name(d: Direction) -> Seq<char> {
    match d {
        Direction::East => "east"@,
        Direction::West => "west"@,
        Direction::Up => "up"@,
        Direction::Down => "down"@,
        Direction::South => "south"@,
        Direction::North => "north"@,
    }
}

/// Signed axis name of a direction ("+x", "-x", ...).
pub open spec fn dir_axis_name(d: Direction) -> Seq<char> {
    match d {
        Direction::East => "+x"@,
        Direction::West => "-x"@,
        Direction::Up => "+y"@,
        Direction::Down => "-y"@,
        Direction::South => "+z"@,
        Direction::North => "-z"@,
    }
}

/// The text names `d`: its name or its signed axis, in any ASCII case.
pub open spec fn names_dir(t: Seq<char>, d: Direction) -> bool {
    eq_ignore_case(t, dir_name(d)) || eq_ignore_case(t, dir_axis_name(d))
}

/// What `Direction::parse_loose` gives for a text: the first direction, in
/// index order, that the trimmed text names.
pub open spec fn parse_loose_spec(s: Seq<char>) -> Option<Direction> {
    let t = trim(s);
    if names_dir(t, Direction::East) {
        Some(Direction::East)
    } else if names_dir(t, Direction::West) {
        Some(Direction::West)
    } else if names_dir(t, Direction::Up) {
        Some(Direction::Up)
    } else if names_dir(t, Direction::Down) {
        Some(Direction::Down)
    } else if names_dir(t, Direction::South) {
        Some(Direction::South)
    } else if names_dir(t, Direction::North) {
        Some(Direction::North)
    } else {
        None
    }
}

/// The single bit of a direction in a `DirMask`.
pub open spec fn dir_bit(d: Direction) -> u8 {
    match d {
        Direction::East => 1,
        Direction::West => 2,
        Direction::Up => 4,
        Direction::Down => 8,
        Direction::South => 16,
        Direction::North => 32,
    }
}

fn text_names_dir(t: &[char], name: &str, axis: &str) -> (b: bool)
    ensures
        b == (eq_ignore_case(t@, name@) || eq_ignore_case(t@, axis@)),
{
    let n = chars_of(name);
    let a = chars_of(axis);
    chars_eq_ignore_case(t, n.as_slice()) || chars_eq_ignore_case(t, a.as_slice())
}

impl Direction {
    /// All six directions in canonical index order.
    pub const ALL: [Direction; 6] = [
        Direction::East,
        Direction::West,
        Direction::Up,
        Direction::Down,
        Direction::South,
        Direction::North,
    ];

    /// Returns the canonical index of the direction (0 to 5).
    pub fn to_index(self) -> (i: usize)
        ensures
            i == dir_index(self),
            i < 6,
    {
        match self {
            Direction::East => 0,
            Direction::West => 1,
            Direction::Up => 2,
            Direction::Down => 3,
            Direction::South => 4,
            Direction::North => 5,
        }
    }

    /// Converts an index (0..6) back into a direction; `None` for any other index.
    pub fn from_index(index: usize) -> (d: Option<Direction>)
        ensures
            d == dir_from_index(index as int),
    {
        match index {
            0 => Some(Direction::East),
            1 => Some(Direction::West),
            2 => Some(Direction::Up),
            3 => Some(Direction::Down),
            4 => Some(Direction::South),
            5 => Some(Direction::North),
            _ => None,
        }
    }

    /// Returns the opposite direction.
    pub fn opposite(self) -> (d: Direction)
        ensures
            d == dir_opposite(self),
    {
        match self {
            Direction::East => Direction::West,
            Direction::West => Direction::East,
            Direction::Up => Direction::Down,
            Direction::Down => Direction::Up,
            Direction::South => Direction::North,
            Direction::North => Direction::South,
        }
    }

    /// Returns the integer step `(dx, dy, dz)` one block away in this direction.
    pub fn offset(self) -> (o: (i32, i32, i32))
        ensures
            (o.0 as int, o.1 as int, o.2 as int) == dir_offset(self),
    {
        match self {
            Direction::East => (1, 0, 0),
            Direction::West => (-1, 0, 0),
            Direction::Up => (0, 1, 0),
            Direction::Down => (0, -1, 0),
            Direction::South => (0, 0, 1),
            Direction::North => (0, 0, -1),
        }
    }

    /// Returns the outward unit normal, each component as the bit pattern of an `f32`.
    pub fn normal(self) -> (n: [u32; 3])
        ensures
            n[0] == unit_bits(dir_offset(self).0),
            n[1] == unit_bits(dir_offset(self).1),
            n[2] == unit_bits(dir_offset(self).2),
    {
        let o = F32_ZERO_BITS;
        let l = F32_ONE_BITS;
        let m = F32_NEG_ONE_BITS;
        match self {
            Direction::East => [l, o, o],
            Direction::West => [m, o, o],
            Direction::Up => [o, l, o],
            Direction::Down => [o, m, o],
            Direction::South => [o, o, l],
            Direction::North => [o, o, m],
        }
    }

    /// Returns the single-direction mask for this direction.
    pub fn mask(self) -> (m: DirMask)
        ensures
            m.bits == dir_bit(self),
    {
        match self {
            Direction::East => DirMask { bits: 1 },
            Direction::West => DirMask { bits: 2 },
            Direction::Up => DirMask { bits: 4 },
            Direction::Down => DirMask { bits: 8 },
            Direction::South => DirMask { bits: 16 },
            Direction::North => DirMask { bits: 32 },
        }
    }

    /// Parses a direction name ("east", "East", ...) or signed axis ("+x", "-Z", ...),
    /// ignoring surrounding white space and ASCII case.
    pub fn parse_loose(s: &str) -> (d: Option<Direction>)
        ensures
            d == parse_loose_spec(s@),
    {
        let v = chars_of(s);
        let t = trim_chars(v.as_slice());
        let t = t.as_slice();
        if text_names_dir(t, "east", "+x") {
            Some(Direction::East)
        } else if text_names_dir(t, "west", "-x") {
            Some(Direction::West)
        } else if text_names_dir(t, "up", "+y") {
            Some(Direction::Up)
        } else if text_names_dir(t, "down", "-y") {
            Some(Direction::Down)
        } else if text_names_dir(t, "south", "+z") {
            Some(Direction::South)
        } else if text_names_dir(t, "north", "-z") {
            Some(Direction::North)
        } else {
            None
        }
    }

    /// Canonical lower-case name ("east", "west", ...).
    pub fn as_str(self) -> (s: &'static str)
        ensures
            s@ == dir_name(self),
    {
        match self {
            Direction::East => "east",
            Direction::West => "west",
            Direction::Up => "up",
            Direction::Down => "down",
            Direction::South => "south",
            Direction::North => "north",
        }
    }
}

/// A set of directions, one bit per direction (East is bit 0, ..., North bit 5).
#[derive(Debug, Clone, Copy, PartialEq, Eq, Structural, Hash)]
pub struct DirMask {
    pub bits: u8,
}

/// The directions whose bit is set in `bits`.
pub open spec fn mask_has(bits: u8, d: Direction) -> bool {
    bits & dir_bit(d) != 0
}

impl DirMask {
    /// The empty set.
    pub fn empty() -> (m: DirMask)
        ensures
            m.bits == 0,
    {
        DirMask { bits: 0 }
    }

    /// The set of all six directions.
    pub fn all() -> (m: DirMask)
        ensures
            m.bits == 63,
    {
        DirMask { bits: 63 }
    }

    /// The raw bits.
    pub fn bits(self) -> (b: u8)
        ensures
            b == self.bits,
    {
        self.bits
    }

    /// The set holding the directions of the six low bits of `bits`.
    pub fn from_bits_truncate(bits: u8) -> (m: DirMask)
        ensures
            m.bits == bits & 63,
    {
        DirMask { bits: bits & 63 }
    }

    /// Whether no direction is set.
    pub fn is_empty(self) -> (b: bool)
        ensures
            b == (self.bits == 0),
    {
        self.bits == 0
    }

    /// Whether every direction of `other` is set here.
    pub fn contains(self, other: DirMask) -> (b: bool)
        ensures
            b == (self.bits & other.bits == other.bits),
    {
        self.bits & other.bits == other.bits
    }

    /// The union of the two sets.
    pub fn union(self, other: DirMask) -> (m: DirMask)
        ensures
            m.bits == self.bits | other.bits,
    {
        DirMask { bits: self.bits | other.bits }
    }

    /// Adds the directions of `other` to this set.
    pub fn insert(&mut self, other: DirMask)
        ensures
            final(self).bits == old(self).bits | other.bits,
    {
        self.bits = self.bits | other.bits;
    }

    /// Removes the directions of `other` from this set.
    pub fn remove(&mut self, other: DirMask)
        ensures
            final(self).bits == old(self).bits & !other.bits,
    {
        self.bits = self.bits & !other.bits;
    }

    /// Checks if a given direction is set in this mask.
    pub fn contains_dir(self, dir: Direction) -> (b: bool)
        ensures
            b == mask_has(self.bits, dir),
    {
        (self.bits & dir.mask().bits) != 0
    }
}

} // verus!

verus! {

/// Turning around twice gives back the same direction, and opposite directions
/// step in opposite ways.
pub proof fn lemma_opposite_involutive(d: Direction)
    ensures
        dir_opposite(dir_opposite(d)) == d,
        dir_opposite(d) != d,
        dir_offset(dir_opposite(d)).0 == -dir_offset(d).0,
        dir_offset(dir_opposite(d)).1 == -dir_offset(d).1,
        dir_offset(dir_opposite(d)).2 == -dir_offset(d).2,
{
}

/// The index of a direction converts back to that direction, and every index
/// below six is the index of exactly one direction.
pub proof fn lemma_index_roundtrip(d: Direction, i: int)
    ensures
        0 <= dir_index(d) < 6,
        dir_from_index(dir_index(d)) == Some(d),
        0 <= i < 6 ==> (dir_from_index(i) is Some && dir_index(dir_from_index(i)->0) == i),
        !(0 <= i < 6) ==> dir_from_index(i) is None,
{
}

/// The mask of a direction holds that direction and no other.
pub proof fn lemma_mask_single(d: Direction, e: Direction)
    ensures
        mask_has(dir_bit(d), e) <==> d == e,
        mask_has(63, e),
        !mask_has(0, e),
{
    let a = dir_bit(d);
    let b = dir_bit(e);
    assert(a == 1 || a == 2 || a == 4 || a == 8 || a == 16 || a == 32);
    assert(b == 1 || b == 2 || b == 4 || b == 8 || b == 16 || b == 32);
    assert((a == 1 || a == 2 || a == 4 || a == 8 || a == 16 || a == 32) && (b == 1 || b == 2 || b
        == 4 || b == 8 || b == 16 || b == 32) ==> ((a & b != 0) <==> a == b)) by (bit_vector);
    assert((b == 1 || b == 2 || b == 4 || b == 8 || b == 16 || b == 32) ==> (63u8 & b != 0 && 0u8
        & b == 0)) by (bit_vector);
}

/// Adding a direction's mask to a set makes the set hold that direction and
/// keeps every direction it held.
pub proof fn lemma_mask_insert(bits: u8, d: Direction, e: Direction)
    ensures
        mask_has(bits | dir_bit(d), e) <==> (mask_has(bits, e) || d == e),
{
    lemma_mask_single(d, e);
    let a = dir_bit(d);
    let b = dir_bit(e);
    assert(a == 1 || a == 2 || a == 4 || a == 8 || a == 16 || a == 32);
    assert(b == 1 || b == 2 || b == 4 || b == 8 || b == 16 || b == 32);
    assert((bits | a) & b != 0 <==> (bits & b != 0 || a & b != 0)) by (bit_vector);
}


/// First character of a direction's name.
spec fn name_head(d: Direction) -> char {
    match d {
        Direction::East => 'e',
        Direction::West => 'w',
        Direction::Up => 'u',
        Direction::Down => 'd',
        Direction::South => 's',
        Direction::North => 'n',
    }
}

/// Sign character of a direction's signed axis.
spec fn axis_sign(d: Direction) -> char {
    match d {
        Direction::East | Direction::Up | Direction::South => '+',
        _ => '-',
    }
}

/// Letter of a direction's signed axis.
spec fn axis_letter(d: Direction) -> char {
    match d {
        Direction::East | Direction::West => 'x',
        Direction::Up | Direction::Down => 'y',
        _ => 'z',
    }
}

/// The name and the signed axis of a direction are lower-case, at least two
/// characters long, free of white space, and begin as `name_head`, `axis_sign`
/// and `axis_letter` say.
proof fn lemma_dir_texts(d: Direction)
    ensures
        lower(dir_name(d)) == dir_name(d),
        lower(dir_axis_name(d)) == dir_axis_name(d),
        dir_name(d).len() >= 2,
        dir_axis_name(d).len() == 2,
        forall|k: int| 0 <= k < dir_name(d).len() ==> !is_ws(#[trigger] dir_name(d)[k]),
        forall|k: int| 0 <= k < dir_axis_name(d).len() ==> !is_ws(#[trigger] dir_axis_name(d)[k]),
        dir_name(d)[0] == name_head(d),
        dir_axis_name(d)[0] == axis_sign(d),
        dir_axis_name(d)[1] == axis_letter(d),
{
    reveal_strlit("east");
    reveal_strlit("west");
    reveal_strlit("up");
    reveal_strlit("down");
    reveal_strlit("south");
    reveal_strlit("north");
    reveal_strlit("+x");
    reveal_strlit("-x");
    reveal_strlit("+y");
    reveal_strlit("-y");
    reveal_strlit("+z");
    reveal_strlit("-z");
    assert(lower(dir_name(d)) =~= dir_name(d));
    assert(lower(dir_axis_name(d)) =~= dir_axis_name(d));
}

/// A text names at most one direction.
proof fn lemma_names_one_dir(t: Seq<char>, d: Direction, e: Direction)
    requires
        names_dir(t, d),
        names_dir(t, e),
    ensures
        d == e,
{
    lemma_dir_texts(d);
    lemma_dir_texts(e);
    let l = lower(t);
    assert(l == dir_name(d) || l == dir_axis_name(d));
    assert(l == dir_name(e) || l == dir_axis_name(e));
    assert(l[0] == name_head(d) || (l[0] == axis_sign(d) && l[1] == axis_letter(d)));
    assert(l[0] == name_head(e) || (l[0] == axis_sign(e) && l[1] == axis_letter(e)));
}

/// Leading white space followed by a text that starts with a non-space character.
proof fn lemma_lead_ws_prefix(p: Seq<char>, r: Seq<char>)
    requires
        forall|k: int| 0 <= k < p.len() ==> is_ws(#[trigger] p[k]),
        r.len() > 0,
        !is_ws(r[0]),
    ensures
        lead_ws(p + r) == p.len(),
    decreases p.len(),
{
    if p.len() > 0 {
        assert((p + r).drop_first() =~= p.drop_first() + r);
        assert(is_ws(p[0]));
        lemma_lead_ws_prefix(p.drop_first(), r);
    } else {
        assert(p + r =~= r);
    }
}

/// Trailing white space after a text that ends with a non-space character.
proof fn lemma_trail_ws_suffix(r: Seq<char>, q: Seq<char>)
    requires
        forall|k: int| 0 <= k < q.len() ==> is_ws(#[trigger] q[k]),
        r.len() > 0,
        !is_ws(r.last()),
    ensures
        trail_ws(r + q) == q.len(),
    decreases q.len(),
{
    if q.len() > 0 {
        assert((r + q).drop_last() =~= r + q.drop_last());
        assert(is_ws(q[q.len() - 1]));
        lemma_trail_ws_suffix(r, q.drop_last());
    } else {
        assert(r + q =~= r);
    }
}

/// A text naming a direction, in any ASCII case and with any white space
/// around it, parses back to that direction: in particular `parse_loose` of a
/// direction's name, upper-cased and padded, gives the direction.
pub proof fn lemma_parse_loose_reads_names(d: Direction, pre: Seq<char>, t: Seq<char>, post: Seq<char>)
    requires
        forall|k: int| 0 <= k < pre.len() ==> is_ws(#[trigger] pre[k]),
        forall|k: int| 0 <= k < post.len() ==> is_ws(#[trigger] post[k]),
        names_dir(t, d),
    ensures
        parse_loose_spec(pre + t + post) == Some(d),
{
    lemma_dir_texts(d);
    let l = lower(t);
    assert(l == dir_name(d) || l == dir_axis_name(d));
    assert(t.len() == l.len());
    assert(t.len() >= 2);
    // A white-space character is not an ASCII capital, so lower-casing keeps it.
    assert(l[0] == ascii_lower(t[0]));
    assert(l[t.len() - 1] == ascii_lower(t[t.len() - 1]));
    assert(!is_ws(l[0]));
    assert(!is_ws(l[t.len() - 1]));
    assert(!is_ws(t[0]));
    assert(!is_ws(t.last()));
    let s = pre + t + post;
    assert(s =~= pre + (t + post));
    assert((t + post)[0] == t[0]);
    lemma_lead_ws_prefix(pre, t + post);
    let u = s.skip(pre.len() as int);
    assert(u =~= t + post);
    lemma_trail_ws_suffix(t, post);
    assert(u.take(u.len() - post.len()) =~= t);
    assert(trim(s) == t);
    if names_dir(t, Direction::East) {
        lemma_names_one_dir(t, d, Direction::East);
    }
    if names_dir(t, Direction::West) {
        lemma_names_one_dir(t, d, Direction::West);
    }
    if names_dir(t, Direction::Up) {
        lemma_names_one_dir(t, d, Direction::Up);
    }
    if names_dir(t, Direction::Down) {
        lemma_names_one_dir(t, d, Direction::Down);
    }
    if names_dir(t, Direction::South) {
        lemma_names_one_dir(t, d, Direction::South);
    }
}

/// `parse_loose` succeeds only on a text whose trimmed form names a direction
/// (its name or signed axis, in any ASCII case), and then gives that direction.
pub proof fn lemma_parse_loose_only_names(s: Seq<char>)
    ensures
        parse_loose_spec(s) matches Some(d) ==> names_dir(trim(s), d),
        parse_loose_spec(s) is None <==> forall|e: Direction| !#[trigger] names_dir(trim(s), e),
{
    if parse_loose_spec(s) is None {
        assert forall|e: Direction| !#[trigger] names_dir(trim(s), e) by {
            match e {
                Direction::East => {},
                Direction::West => {},
                Direction::Up => {},
                Direction::Down => {},
                Direction::South => {},
                Direction::North => {},
            }
        }
    } else {
        let d = parse_loose_spec(s)->0;
        assert(names_dir(trim(s), d));
    }
}

} // verus!
