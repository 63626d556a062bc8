//! Per-face and per-vertex attribute descriptors.
use vstd::prelude::*;
use crate::vecs::{append_copies, append_strings, copy_strings, copy_vec, texts};

verus! {

/// Biome / model tint index; -1 means no tint.
pub type TintIndex = i16;

/// Material slot identifier.
pub type MaterialSlotId = u16;

/// Block light (0..=15) and sky light (0..=15) levels.
#[derive(Debug, Clone, Copy, PartialEq, Eq, Structural, Hash)]
pub struct LightLevel {
    pub block: u8,
    pub sky: u8,
}

/// Both levels are in `0..=15`.
pub open spec fn light_valid(l: LightLevel) -> bool {
    l.block <= 15 && l.sky <= 15
}

/// The packed byte of a light level: block light in the low nibble, sky light in the high one.
pub open spec fn light_packed(l: LightLevel) -> int {
    (l.block % 16) + (l.sky % 16) * 16
}

impl LightLevel {
    /// Creates a light level, clamping each level to at most 15.
    pub fn new(block: u8, sky: u8) -> (l: LightLevel)
        ensures
            l.block == if block > 15 { 15 } else { block },
            l.sky == if sky > 15 { 15 } else { sky },
            light_valid(l),
    {
        LightLevel { block: if block > 15 { 15 } else { block }, sky: if sky > 15 { 15 } else { sky } }
    }

    /// The level with both lights at zero.
    pub fn zero() -> (l: LightLevel)
        ensures
            l.block == 0 && l.sky == 0,
    {
        LightLevel { block: 0, sky: 0 }
    }

    /// The level with both lights at fifteen.
    pub fn max() -> (l: LightLevel)
        ensures
            l.block == 15 && l.sky == 15,
    {
        LightLevel { block: 15, sky: 15 }
    }

    /// Packs the two levels into one byte: `(block & 0x0F) | ((sky & 0x0F) << 4)`.
    pub fn pack_u8(self) -> (p: u8)
        ensures
            p == light_packed(self),
    {
        let b = self.block;
        let s = self.sky;
        let p = (b & 0x0F) | ((s & 0x0F) << 4u8);
        proof {
            assert((b & 0x0Fu8) | ((s & 0x0Fu8) << 4u8) == (b % 16) + (s % 16) * 16) by (bit_vector);
        }
        p
    }

    /// Unpacks a byte made by `pack_u8`: block light from the low nibble, sky light from the high one.
    pub fn unpack_u8(packed: u8) -> (l: LightLevel)
        ensures
            l.block == packed % 16,
            l.sky == packed / 16,
            light_valid(l),
    {
        let l = LightLevel { block: packed & 0x0F, sky: (packed >> 4u8) & 0x0F };
        proof {
            assert(packed & 0x0Fu8 == packed % 16) by (bit_vector);
            assert((packed >> 4u8) & 0x0Fu8 == packed / 16) by (bit_vector);
        }
        l
    }
}

/// Unpacking a packed level gives the level back, and packing an unpacked byte
/// gives the byte back.
pub proof fn lemma_light_pack_roundtrip(l: LightLevel, b: u8)
    ensures
        light_valid(l) ==> (light_packed(l) < 256 && light_packed(l) % 16 == l.block
            && light_packed(l) / 16 == l.sky),
        light_packed(LightLevel { block: (b % 16) as u8, sky: (b / 16) as u8 }) == b,
{
}

/// Geometric attribute domain, as in DCC and USD conventions.
#[derive(Debug, Clone, Copy, PartialEq, Eq, Structural, Hash)]
pub enum AttributeDomain {
    /// Per-vertex data.
    Point,
    /// Per-face-corner data.
    Corner,
    /// Per-face data.
    Face,
    /// Mesh-level data.
    Mesh,
}

/// Canonical name of a domain.
pub open spec fn domain_name(d: AttributeDomain) -> Seq<char> {
    match d {
        AttributeDomain::Point => "point"@,
        AttributeDomain::Corner => "corner"@,
        AttributeDomain::Face => "face"@,
        AttributeDomain::Mesh => "mesh"@,
    }
}

impl Default for AttributeDomain {
    fn default() -> (d: AttributeDomain)
        ensures
            d == AttributeDomain::Point,
    {
        AttributeDomain::Point
    }
}

impl AttributeDomain {
    /// Canonical lower-case name of the domain.
    pub fn as_str(&self) -> (s: &'static str)
        ensures
            s@ == domain_name(*self),
    {
        match self {
            AttributeDomain::Point => "point",
            AttributeDomain::Corner => "corner",
            AttributeDomain::Face => "face",
            AttributeDomain::Mesh => "mesh",
        }
    }
}

/// Typed per-element attribute storage. Floating-point components are held as
/// their IEEE-754 single-precision bit patterns; the library copies them and never
/// computes on them.
#[derive(Debug)]
pub enum AttributeData {
    Float(Vec<u32>),
    Float2(Vec<[u32; 2]>),
    Float3(Vec<[u32; 3]>),
    Float4(Vec<[u32; 4]>),
    Int8(Vec<i8>),
    Int16(Vec<i16>),
    Int32(Vec<i32>),
    UInt8(Vec<u8>),
    UInt16(Vec<u16>),
    UInt32(Vec<u32>),
    String(Vec<String>),
    Bool(Vec<bool>),
}

/// The mathematical contents of an `AttributeData`: the variant and its elements.
pub enum AttrValues {
    Float(Seq<u32>),
    Float2(Seq<[u32; 2]>),
    Float3(Seq<[u32; 3]>),
    Float4(Seq<[u32; 4]>),
    Int8(Seq<i8>),
    Int16(Seq<i16>),
    Int32(Seq<i32>),
    UInt8(Seq<u8>),
    UInt16(Seq<u16>),
    UInt32(Seq<u32>),
    Text(Seq<Seq<char>>),
    Bool(Seq<bool>),
}

impl View for AttributeData {
    type V = AttrValues;

    open spec fn view(&self) -> AttrValues {
        match self {
            AttributeData::Float(v) => AttrValues::Float(v@),
            AttributeData::Float2(v) => AttrValues::Float2(v@),
            AttributeData::Float3(v) => AttrValues::Float3(v@),
            AttributeData::Float4(v) => AttrValues::Float4(v@),
            AttributeData::Int8(v) => AttrValues::Int8(v@),
            AttributeData::Int16(v) => AttrValues::Int16(v@),
            AttributeData::Int32(v) => AttrValues::Int32(v@),
            AttributeData::UInt8(v) => AttrValues::UInt8(v@),
            AttributeData::UInt16(v) => AttrValues::UInt16(v@),
            AttributeData::UInt32(v) => AttrValues::UInt32(v@),
            AttributeData::String(v) => AttrValues::Text(texts(v@)),
            AttributeData::Bool(v) => AttrValues::Bool(v@),
        }
    }
}

/// Number of elements held.
pub open spec fn values_len(v: AttrValues) -> nat {
    match v {
        AttrValues::Float(s) => s.len(),
        AttrValues::Float2(s) => s.len(),
        AttrValues::Float3(s) => s.len(),
        AttrValues::Float4(s) => s.len(),
        AttrValues::Int8(s) => s.len(),
        AttrValues::Int16(s) => s.len(),
        AttrValues::Int32(s) => s.len(),
        AttrValues::UInt8(s) => s.len(),
        AttrValues::UInt16(s) => s.len(),
        AttrValues::UInt32(s) => s.len(),
        AttrValues::Text(s) => s.len(),
        AttrValues::Bool(s) => s.len(),
    }
}

/// The name of the element type of a variant.
pub open spec fn values_type_name(v: AttrValues) -> Seq<char> {
    match v {
        AttrValues::Float(_) => "float"@,
        AttrValues::Float2(_) => "float2"@,
        AttrValues::Float3(_) => "float3"@,
        AttrValues::Float4(_) => "float4"@,
        AttrValues::Int8(_) => "int8"@,
        AttrValues::Int16(_) => "int16"@,
        AttrValues::Int32(_) => "int32"@,
        AttrValues::UInt8(_) => "uint8"@,
        AttrValues::UInt16(_) => "uint16"@,
        AttrValues::UInt32(_) => "uint32"@,
        AttrValues::Text(_) => "string"@,
        AttrValues::Bool(_) => "bool"@,
    }
}

/// The same variant with no elements.
pub open spec fn values_emptied(v: AttrValues) -> AttrValues {
    match v {
        AttrValues::Float(_) => AttrValues::Float(Seq::empty()),
        AttrValues::Float2(_) => AttrValues::Float2(Seq::empty()),
        AttrValues::Float3(_) => AttrValues::Float3(Seq::empty()),
        AttrValues::Float4(_) => AttrValues::Float4(Seq::empty()),
        AttrValues::Int8(_) => AttrValues::Int8(Seq::empty()),
        AttrValues::Int16(_) => AttrValues::Int16(Seq::empty()),
        AttrValues::Int32(_) => AttrValues::Int32(Seq::empty()),
        AttrValues::UInt8(_) => AttrValues::UInt8(Seq::empty()),
        AttrValues::UInt16(_) => AttrValues::UInt16(Seq::empty()),
        AttrValues::UInt32(_) => AttrValues::UInt32(Seq::empty()),
        AttrValues::Text(_) => AttrValues::Text(Seq::empty()),
        AttrValues::Bool(_) => AttrValues::Bool(Seq::empty()),
    }
}

/// `a` followed by the elements of `b` when both hold the same variant; `a` otherwise.
pub open spec fn values_concat(a: AttrValues, b: AttrValues) -> AttrValues {
    match (a, b) {
        (AttrValues::Float(x), AttrValues::Float(y)) => AttrValues::Float(x + y),
        (AttrValues::Float2(x), AttrValues::Float2(y)) => AttrValues::Float2(x + y),
        (AttrValues::Float3(x), AttrValues::Float3(y)) => AttrValues::Float3(x + y),
        (AttrValues::Float4(x), AttrValues::Float4(y)) => AttrValues::Float4(x + y),
        (AttrValues::Int8(x), AttrValues::Int8(y)) => AttrValues::Int8(x + y),
        (AttrValues::Int16(x), AttrValues::Int16(y)) => AttrValues::Int16(x + y),
        (AttrValues::Int32(x), AttrValues::Int32(y)) => AttrValues::Int32(x + y),
        (AttrValues::UInt8(x), AttrValues::UInt8(y)) => AttrValues::UInt8(x + y),
        (AttrValues::UInt16(x), AttrValues::UInt16(y)) => AttrValues::UInt16(x + y),
        (AttrValues::UInt32(x), AttrValues::UInt32(y)) => AttrValues::UInt32(x + y),
        (AttrValues::Text(x), AttrValues::Text(y)) => AttrValues::Text(x + y),
        (AttrValues::Bool(x), AttrValues::Bool(y)) => AttrValues::Bool(x + y),
        _ => a,
    }
}

impl AttributeData {
    /// Number of elements in the array.
    pub fn len(&self) -> (n: usize)
        ensures
            n == values_len(self@),
    {
        match self {
            AttributeData::Float(v) => v.len(),
            AttributeData::Float2(v) => v.len(),
            AttributeData::Float3(v) => v.len(),
            AttributeData::Float4(v) => v.len(),
            AttributeData::Int8(v) => v.len(),
            AttributeData::Int16(v) => v.len(),
            AttributeData::Int32(v) => v.len(),
            AttributeData::UInt8(v) => v.len(),
            AttributeData::UInt16(v) => v.len(),
            AttributeData::UInt32(v) => v.len(),
            AttributeData::String(v) => v.len(),
            AttributeData::Bool(v) => v.len(),
        }
    }

    /// Whether the array holds no element.
    pub fn is_empty(&self) -> (b: bool)
        ensures
            b == (values_len(self@) == 0),
    {
        self.len() == 0
    }

    /// The name of the element type.
    pub fn kind_name(&self) -> (s: &'static str)
        ensures
            s@ == values_type_name(self@),
    {
        match self {
            AttributeData::Float(_) => "float",
            AttributeData::Float2(_) => "float2",
            AttributeData::Float3(_) => "float3",
            AttributeData::Float4(_) => "float4",
            AttributeData::Int8(_) => "int8",
            AttributeData::Int16(_) => "int16",
            AttributeData::Int32(_) => "int32",
            AttributeData::UInt8(_) => "uint8",
            AttributeData::UInt16(_) => "uint16",
            AttributeData::UInt32(_) => "uint32",
            AttributeData::String(_) => "string",
            AttributeData::Bool(_) => "bool",
        }
    }

    /// A copy holding the same variant and elements.
    pub fn duplicate(&self) -> (r: AttributeData)
        ensures
            r@ == self@,
    {
        match self {
            AttributeData::Float(v) => AttributeData::Float(copy_vec(v)),
            AttributeData::Float2(v) => AttributeData::Float2(copy_vec(v)),
            AttributeData::Float3(v) => AttributeData::Float3(copy_vec(v)),
            AttributeData::Float4(v) => AttributeData::Float4(copy_vec(v)),
            AttributeData::Int8(v) => AttributeData::Int8(copy_vec(v)),
            AttributeData::Int16(v) => AttributeData::Int16(copy_vec(v)),
            AttributeData::Int32(v) => AttributeData::Int32(copy_vec(v)),
            AttributeData::UInt8(v) => AttributeData::UInt8(copy_vec(v)),
            AttributeData::UInt16(v) => AttributeData::UInt16(copy_vec(v)),
            AttributeData::UInt32(v) => AttributeData::UInt32(copy_vec(v)),
            AttributeData::String(v) => AttributeData::String(copy_strings(v)),
            AttributeData::Bool(v) => AttributeData::Bool(copy_vec(v)),
        }
    }

    /// The same variant with no elements.
    pub fn emptied(&self) -> (r: AttributeData)
        ensures
            r@ == values_emptied(self@),
    {
        let r = match self {
            AttributeData::Float(_) => AttributeData::Float(Vec::new()),
            AttributeData::Float2(_) => AttributeData::Float2(Vec::new()),
            AttributeData::Float3(_) => AttributeData::Float3(Vec::new()),
            AttributeData::Float4(_) => AttributeData::Float4(Vec::new()),
            AttributeData::Int8(_) => AttributeData::Int8(Vec::new()),
            AttributeData::Int16(_) => AttributeData::Int16(Vec::new()),
            AttributeData::Int32(_) => AttributeData::Int32(Vec::new()),
            AttributeData::UInt8(_) => AttributeData::UInt8(Vec::new()),
            AttributeData::UInt16(_) => AttributeData::UInt16(Vec::new()),
            AttributeData::UInt32(_) => AttributeData::UInt32(Vec::new()),
            AttributeData::String(_) => AttributeData::String(Vec::new()),
            AttributeData::Bool(_) => AttributeData::Bool(Vec::new()),
        };
        assert(texts(Seq::<String>::empty()) =~= Seq::empty());
        r
    }

    /// Appends the elements of `other` when it holds the same variant; otherwise
    /// leaves `self` as it is.
    pub fn extend_from(&mut self, other: &AttributeData)
        ensures
            final(self)@ == values_concat(old(self)@, other@),
    {
        match (self, other) {
            (AttributeData::Float(a), AttributeData::Float(b)) => append_copies(a, b),
            (AttributeData::Float2(a), AttributeData::Float2(b)) => append_copies(a, b),
            (AttributeData::Float3(a), AttributeData::Float3(b)) => append_copies(a, b),
            (AttributeData::Float4(a), AttributeData::Float4(b)) => append_copies(a, b),
            (AttributeData::Int8(a), AttributeData::Int8(b)) => append_copies(a, b),
            (AttributeData::Int16(a), AttributeData::Int16(b)) => append_copies(a, b),
            (AttributeData::Int32(a), AttributeData::Int32(b)) => append_copies(a, b),
            (AttributeData::UInt8(a), AttributeData::UInt8(b)) => append_copies(a, b),
            (AttributeData::UInt16(a), AttributeData::UInt16(b)) => append_copies(a, b),
            (AttributeData::UInt32(a), AttributeData::UInt32(b)) => append_copies(a, b),
            (AttributeData::String(a), AttributeData::String(b)) => append_strings(a, b),
            (AttributeData::Bool(a), AttributeData::Bool(b)) => append_copies(a, b),
            _ => {},
        }
    }
}

/// The `n` low-order bytes of `w`, least significant first (`n` is 1, 2 or 4).
pub open spec fn le_bytes(w: u32, n: nat) -> Seq<u8> {
    if n == 1 {
        seq![(w & 0xff) as u8]
    } else if n == 2 {
        seq![(w & 0xff) as u8, ((w >> 8) & 0xff) as u8]
    } else {
        seq![(w & 0xff) as u8, ((w >> 8) & 0xff) as u8, ((w >> 16) & 0xff) as u8, ((w >> 24) & 0xff) as u8]
    }
}

/// Each word as `n` little-endian bytes, in order.
pub open spec fn words_bytes(ws: Seq<u32>, n: nat) -> Seq<u8>
    decreases ws.len(),
{
    if ws.len() == 0 {
        Seq::empty()
    } else {
        words_bytes(ws.drop_last(), n) + le_bytes(ws.last(), n)
    }
}

/// The components of a sequence of pairs, in order.
pub open spec fn flat2(s: Seq<[u32; 2]>) -> Seq<u32>
    decreases s.len(),
{
    if s.len() == 0 {
        Seq::empty()
    } else {
        flat2(s.drop_last()) + seq![s.last()[0], s.last()[1]]
    }
}

/// The components of a sequence of triples, in order.
pub open spec fn flat3(s: Seq<[u32; 3]>) -> Seq<u32>
    decreases s.len(),
{
    if s.len() == 0 {
        Seq::empty()
    } else {
        flat3(s.drop_last()) + seq![s.last()[0], s.last()[1], s.last()[2]]
    }
}

/// The components of a sequence of quadruples, in order.
pub open spec fn flat4(s: Seq<[u32; 4]>) -> Seq<u32>
    decreases s.len(),
{
    if s.len() == 0 {
        Seq::empty()
    } else {
        flat4(s.drop_last()) + seq![s.last()[0], s.last()[1], s.last()[2], s.last()[3]]
    }
}

/// The storage words of the elements (each component of a vector element in
/// turn; a signed value by its two's-complement pattern; `true` as 1).
pub open spec fn values_words(v: AttrValues) -> Seq<u32> {
    match v {
        AttrValues::Float(s) => s,
        AttrValues::Float2(s) => flat2(s),
        AttrValues::Float3(s) => flat3(s),
        AttrValues::Float4(s) => flat4(s),
        AttrValues::Int8(s) => s.map_values(|x: i8| (x as u8) as u32),
        AttrValues::Int16(s) => s.map_values(|x: i16| (x as u16) as u32),
        AttrValues::Int32(s) => s.map_values(|x: i32| x as u32),
        AttrValues::UInt8(s) => s.map_values(|x: u8| x as u32),
        AttrValues::UInt16(s) => s.map_values(|x: u16| x as u32),
        AttrValues::UInt32(s) => s,
        AttrValues::Text(_) => Seq::empty(),
        AttrValues::Bool(s) => s.map_values(|x: bool| if x { 1u32 } else { 0u32 }),
    }
}

/// Bytes per storage word.
pub open spec fn values_width(v: AttrValues) -> nat {
    match v {
        AttrValues::Int8(_) | AttrValues::UInt8(_) | AttrValues::Bool(_) => 1,
        AttrValues::Int16(_) | AttrValues::UInt16(_) => 2,
        _ => 4,
    }
}

/// The raw bytes of the elements in little-endian layout; none for strings.
pub open spec fn values_bytes(v: AttrValues) -> Option<Seq<u8>> {
    match v {
        AttrValues::Text(_) => None,
        _ => Some(words_bytes(values_words(v), values_width(v))),
    }
}

pub(crate) fn flatten2(v: &Vec<[u32; 2]>) -> (r: Vec<u32>)
    ensures
        r@ == flat2(v@),
{
    let mut r: Vec<u32> = Vec::new();
    let mut i: usize = 0;
    while i < v.len()
        invariant
            i <= v.len(),
            r@ == flat2(v@.take(i as int)),
        decreases v.len() - i,
    {
        let e = v[i];
        r.push(e[0]);
        r.push(e[1]);
        i += 1;
        assert(v@.take(i as int).drop_last() == v@.take(i as int - 1));
    }
    assert(v@.take(v.len() as int) == v@);
    r
}

pub(crate) fn flatten3(v: &Vec<[u32; 3]>) -> (r: Vec<u32>)
    ensures
        r@ == flat3(v@),
{
    let mut r: Vec<u32> = Vec::new();
    let mut i: usize = 0;
    while i < v.len()
        invariant
            i <= v.len(),
            r@ == flat3(v@.take(i as int)),
        decreases v.len() - i,
    {
        let e = v[i];
        r.push(e[0]);
        r.push(e[1]);
        r.push(e[2]);
        i += 1;
        assert(v@.take(i as int).drop_last() == v@.take(i as int - 1));
    }
    assert(v@.take(v.len() as int) == v@);
    r
}

pub(crate) fn flatten4(v: &Vec<[u32; 4]>) -> (r: Vec<u32>)
    ensures
        r@ == flat4(v@),
{
    let mut r: Vec<u32> = Vec::new();
    let mut i: usize = 0;
    while i < v.len()
        invariant
            i <= v.len(),
            r@ == flat4(v@.take(i as int)),
        decreases v.len() - i,
    {
        let e = v[i];
        r.push(e[0]);
        r.push(e[1]);
        r.push(e[2]);
        r.push(e[3]);
        i += 1;
        assert(v@.take(i as int).drop_last() == v@.take(i as int - 1));
    }
    assert(v@.take(v.len() as int) == v@);
    r
}

fn words_i8(v: &Vec<i8>) -> (r: Vec<u32>)
    ensures
        r@ == v@.map_values(|x: i8| (x as u8) as u32),
{
    let mut r: Vec<u32> = Vec::new();
    let mut i: usize = 0;
    while i < v.len()
        invariant
            i <= v.len(),
            r@ == v@.take(i as int).map_values(|x: i8| (x as u8) as u32),
        decreases v.len() - i,
    {
        r.push((v[i] as u8) as u32);
        i += 1;
        assert(r@ =~= v@.take(i as int).map_values(|x: i8| (x as u8) as u32));
    }
    assert(v@.take(v.len() as int) == v@);
    r
}

fn words_i16(v: &Vec<i16>) -> (r: Vec<u32>)
    ensures
        r@ == v@.map_values(|x: i16| (x as u16) as u32),
{
    let mut r: Vec<u32> = Vec::new();
    let mut i: usize = 0;
    while i < v.len()
        invariant
            i <= v.len(),
            r@ == v@.take(i as int).map_values(|x: i16| (x as u16) as u32),
        decreases v.len() - i,
    {
        r.push((v[i] as u16) as u32);
        i += 1;
        assert(r@ =~= v@.take(i as int).map_values(|x: i16| (x as u16) as u32));
    }
    assert(v@.take(v.len() as int) == v@);
    r
}

fn words_i32(v: &Vec<i32>) -> (r: Vec<u32>)
    ensures
        r@ == v@.map_values(|x: i32| x as u32),
{
    let mut r: Vec<u32> = Vec::new();
    let mut i: usize = 0;
    while i < v.len()
        invariant
            i <= v.len(),
            r@ == v@.take(i as int).map_values(|x: i32| x as u32),
        decreases v.len() - i,
    {
        r.push(v[i] as u32);
        i += 1;
        assert(r@ =~= v@.take(i as int).map_values(|x: i32| x as u32));
    }
    assert(v@.take(v.len() as int) == v@);
    r
}

fn words_u8(v: &Vec<u8>) -> (r: Vec<u32>)
    ensures
        r@ == v@.map_values(|x: u8| x as u32),
{
    let mut r: Vec<u32> = Vec::new();
    let mut i: usize = 0;
    while i < v.len()
        invariant
            i <= v.len(),
            r@ == v@.take(i as int).map_values(|x: u8| x as u32),
        decreases v.len() - i,
    {
        r.push(v[i] as u32);
        i += 1;
        assert(r@ =~= v@.take(i as int).map_values(|x: u8| x as u32));
    }
    assert(v@.take(v.len() as int) == v@);
    r
}

fn words_u16(v: &Vec<u16>) -> (r: Vec<u32>)
    ensures
        r@ == v@.map_values(|x: u16| x as u32),
{
    let mut r: Vec<u32> = Vec::new();
    let mut i: usize = 0;
    while i < v.len()
        invariant
            i <= v.len(),
            r@ == v@.take(i as int).map_values(|x: u16| x as u32),
        decreases v.len() - i,
    {
        r.push(v[i] as u32);
        i += 1;
        assert(r@ =~= v@.take(i as int).map_values(|x: u16| x as u32));
    }
    assert(v@.take(v.len() as int) == v@);
    r
}

fn words_bool(v: &Vec<bool>) -> (r: Vec<u32>)
    ensures
        r@ == v@.map_values(|x: bool| if x { 1u32 } else { 0u32 }),
{
    let mut r: Vec<u32> = Vec::new();
    let mut i: usize = 0;
    while i < v.len()
        invariant
            i <= v.len(),
            r@ == v@.take(i as int).map_values(|x: bool| if x { 1u32 } else { 0u32 }),
        decreases v.len() - i,
    {
        r.push(if v[i] { 1u32 } else { 0u32 });
        i += 1;
        assert(r@ =~= v@.take(i as int).map_values(|x: bool| if x { 1u32 } else { 0u32 }));
    }
    assert(v@.take(v.len() as int) == v@);
    r
}

/// Each word as `n` little-endian bytes.
fn bytes_of_words(ws: &Vec<u32>, n: usize) -> (r: Vec<u8>)
    requires
        n == 1 || n == 2 || n == 4,
    ensures
        r@ == words_bytes(ws@, n as nat),
{
    let mut r: Vec<u8> = Vec::new();
    let mut i: usize = 0;
    while i < ws.len()
        invariant
            i <= ws.len(),
            n == 1 || n == 2 || n == 4,
            r@ == words_bytes(ws@.take(i as int), n as nat),
        decreases ws.len() - i,
    {
        let w = ws[i];
        let ghost before = r@;
        r.push((w & 0xff) as u8);
        if n >= 2 {
            r.push(((w >> 8) & 0xff) as u8);
        }
        if n == 4 {
            r.push(((w >> 16) & 0xff) as u8);
            r.push(((w >> 24) & 0xff) as u8);
        }
        assert(r@ =~= before + le_bytes(w, n as nat));
        i += 1;
        assert(ws@.take(i as int).drop_last() == ws@.take(i as int - 1));
    }
    assert(ws@.take(ws.len() as int) == ws@);
    r
}

impl AttributeData {
    /// The raw bytes of the elements, each in little-endian layout (the memory
    /// layout of the buffer on the platforms the library targets); `None` for
    /// strings, which have no flat byte form.
    pub fn as_bytes(&self) -> (r: Option<Vec<u8>>)
        ensures
            match values_bytes(self@) {
                None => r.is_none(),
                Some(b) => r.is_some() && r.unwrap()@ == b,
            },
    {
        let (words, n): (Vec<u32>, usize) = match self {
            AttributeData::Float(v) => (copy_vec(v), 4),
            AttributeData::Float2(v) => (flatten2(v), 4),
            AttributeData::Float3(v) => (flatten3(v), 4),
            AttributeData::Float4(v) => (flatten4(v), 4),
            AttributeData::Int8(v) => (words_i8(v), 1),
            AttributeData::Int16(v) => (words_i16(v), 2),
            AttributeData::Int32(v) => (words_i32(v), 4),
            AttributeData::UInt8(v) => (words_u8(v), 1),
            AttributeData::UInt16(v) => (words_u16(v), 2),
            AttributeData::UInt32(v) => (copy_vec(v), 4),
            AttributeData::String(_) => {
                return None;
            },
            AttributeData::Bool(v) => (words_bool(v), 1),
        };
        Some(bytes_of_words(&words, n))
    }
}

impl Clone for AttributeData {
    fn clone(&self) -> (r: AttributeData)
        ensures
            r@ == self@,
    {
        self.duplicate()
    }
}

/// A named attribute array attached to a mesh.
#[derive(Debug)]
pub struct MeshAttribute {
    pub name: String,
    pub domain: AttributeDomain,
    pub data: AttributeData,
}

/// The mathematical contents of a `MeshAttribute`.
pub struct MeshAttrView {
    pub name: Seq<char>,
    pub domain: AttributeDomain,
    pub values: AttrValues,
}

impl View for MeshAttribute {
    type V = MeshAttrView;

    open spec fn view(&self) -> MeshAttrView {
        MeshAttrView { name: self.name@, domain: self.domain, values: self.data@ }
    }
}

impl MeshAttribute {
    /// An attribute with the given name, domain and data.
    pub fn new(name: &str, domain: AttributeDomain, data: AttributeData) -> (a: MeshAttribute)
        ensures
            a.name@ == name@,
            a.domain == domain,
            a.data == data,
    {
        MeshAttribute { name: name.to_owned(), domain, data }
    }

    /// Number of elements.
    pub fn len(&self) -> (n: usize)
        ensures
            n == values_len(self.data@),
    {
        self.data.len()
    }

    /// Whether the attribute holds no element.
    pub fn is_empty(&self) -> (b: bool)
        ensures
            b == (values_len(self.data@) == 0),
    {
        self.data.is_empty()
    }

    /// The raw little-endian bytes of the elements; `None` for strings.
    pub fn as_bytes(&self) -> (r: Option<Vec<u8>>)
        ensures
            match values_bytes(self.data@) {
                None => r.is_none(),
                Some(b) => r.is_some() && r.unwrap()@ == b,
            },
    {
        self.data.as_bytes()
    }

    /// A copy with the same name, domain and data.
    pub fn duplicate(&self) -> (r: MeshAttribute)
        ensures
            r@ == self@,
    {
        MeshAttribute { name: self.name.clone(), domain: self.domain, data: self.data.duplicate() }
    }
}

impl Clone for MeshAttribute {
    fn clone(&self) -> (r: MeshAttribute)
        ensures
            r@ == self@,
    {
        self.duplicate()
    }
}

/// Face-level metadata attached to baked geometry.
#[derive(Debug)]
pub struct FaceAttributes {
    /// Texture identifier or atlas sprite key.
    pub texture_key: String,
    /// Material slot index.
    pub material_slot: MaterialSlotId,
    /// Tint index for colormap or biome blending (-1 for none).
    pub tint_index: TintIndex,
    /// Baked emission intensity, as IEEE-754 single-precision bits.
    pub emission: u32,
    /// Whether this face is an overlay layer.
    pub is_overlay: bool,
    /// UV routing mode: 0 atlas, 1 standalone static, 2 standalone animated, 3 overlay local.
    pub uv_mode: u8,
    /// Atlas chunk id when the face is mapped into a global atlas.
    pub atlas_chunk_id: Option<u32>,
}

impl Default for FaceAttributes {
    fn default() -> (f: FaceAttributes)
        ensures
            f.texture_key@ == Seq::<char>::empty(),
            f.material_slot == 0,
            f.tint_index == -1,
            f.emission == 0,
            !f.is_overlay,
            f.uv_mode == 0,
            f.atlas_chunk_id.is_none(),
    {
        FaceAttributes {
            texture_key: String::new(),
            material_slot: 0,
            tint_index: -1,
            emission: 0,
            is_overlay: false,
            uv_mode: 0,
            atlas_chunk_id: None,
        }
    }
}

impl Clone for FaceAttributes {
    fn clone(&self) -> (r: FaceAttributes)
        ensures
            r.texture_key@ == self.texture_key@,
            r.material_slot == self.material_slot,
            r.tint_index == self.tint_index,
            r.emission == self.emission,
            r.is_overlay == self.is_overlay,
            r.uv_mode == self.uv_mode,
            r.atlas_chunk_id == self.atlas_chunk_id,
    {
        FaceAttributes {
            texture_key: self.texture_key.clone(),
            material_slot: self.material_slot,
            tint_index: self.tint_index,
            emission: self.emission,
            is_overlay: self.is_overlay,
            uv_mode: self.uv_mode,
            atlas_chunk_id: self.atlas_chunk_id,
        }
    }
}

} // verus!
