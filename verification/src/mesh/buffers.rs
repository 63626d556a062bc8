//! Custom attributes from raw byte buffers: the element type and domain named
//! by text, and the decoding of little-endian element bytes.
use vstd::prelude::*;
use crate::attributes::{AttrValues, AttributeData, AttributeDomain, MeshAttribute};
use crate::mesh::{attr_insert, MeshData, MeshView};
use crate::text::{lower_case, str_eq, to_lowercase, trim, trim_chars, chars_of, string_from};
use crate::vecs::texts;

verus! {

/// Element type of a raw attribute buffer.
#[derive(Debug, Clone, Copy, PartialEq, Eq, Structural)]
pub enum AttributeKind {
    Float,
    Float2,
    Float3,
    Float4,
    Int8,
    Int16,
    Int32,
    UInt8,
    UInt16,
    UInt32,
    Bool,
}

/// Why a raw buffer could not become an attribute.
#[derive(Debug, Clone, Copy, PartialEq, Eq, Structural)]
pub enum AttributeBufferError {
    /// The domain name is not one of the known names.
    InvalidDomain,
    /// The element type name is not one of the known names.
    UnsupportedType,
    /// The buffer length is not a whole number of elements of this type.
    MisalignedLength(AttributeKind),
}

/// The domain named by a lower-case text: `point`/`vertex`,
/// `corner`/`loop`/`face_varying`, `face`/`polygon`/`uniform`,
/// `mesh`/`global`/`constant`.
pub open spec fn domain_named(u: Seq<char>) -> Option<AttributeDomain> {
    if u == "point"@ || u == "vertex"@ {
        Some(AttributeDomain::Point)
    } else if u == "corner"@ || u == "loop"@ || u == "face_varying"@ {
        Some(AttributeDomain::Corner)
    } else if u == "face"@ || u == "polygon"@ || u == "uniform"@ {
        Some(AttributeDomain::Face)
    } else if u == "mesh"@ || u == "global"@ || u == "constant"@ {
        Some(AttributeDomain::Mesh)
    } else {
        None
    }
}

/// The element type named by a lower-case text.
pub open spec fn kind_named(u: Seq<char>) -> Option<AttributeKind> {
    if u == "float"@ || u == "float32"@ || u == "f32"@ {
        Some(AttributeKind::Float)
    } else if u == "float2"@ || u == "vec2"@ {
        Some(AttributeKind::Float2)
    } else if u == "float3"@ || u == "vec3"@ {
        Some(AttributeKind::Float3)
    } else if u == "float4"@ || u == "vec4"@ || u == "color"@ {
        Some(AttributeKind::Float4)
    } else if u == "int8"@ || u == "i8"@ {
        Some(AttributeKind::Int8)
    } else if u == "int16"@ || u == "i16"@ {
        Some(AttributeKind::Int16)
    } else if u == "int32"@ || u == "int"@ || u == "i32"@ {
        Some(AttributeKind::Int32)
    } else if u == "uint8"@ || u == "u8"@ || u == "byte"@ {
        Some(AttributeKind::UInt8)
    } else if u == "uint16"@ || u == "u16"@ {
        Some(AttributeKind::UInt16)
    } else if u == "uint32"@ || u == "u32"@ {
        Some(AttributeKind::UInt32)
    } else if u == "bool"@ || u == "boolean"@ {
        Some(AttributeKind::Bool)
    } else {
        None
    }
}

/// Bytes per storage word of a type.
pub open spec fn kind_width(k: AttributeKind) -> nat {
    match k {
        AttributeKind::Int8 | AttributeKind::UInt8 | AttributeKind::Bool => 1,
        AttributeKind::Int16 | AttributeKind::UInt16 => 2,
        _ => 4,
    }
}

/// Storage words per element of a type.
pub open spec fn kind_words(k: AttributeKind) -> nat {
    match k {
        AttributeKind::Float2 => 2,
        AttributeKind::Float3 => 3,
        AttributeKind::Float4 => 4,
        _ => 1,
    }
}

/// Bytes per element of a type.
pub open spec fn kind_size(k: AttributeKind) -> nat {
    kind_width(k) * kind_words(k)
}

/// The word held by `n` little-endian bytes (`n` is 1, 2 or 4).
pub open spec fn le_word(b: Seq<u8>, n: nat) -> u32 {
    if n == 1 {
        b[0] as u32
    } else if n == 2 {
        (b[0] as u32) | ((b[1] as u32) << 8u32)
    } else {
        (b[0] as u32) | ((b[1] as u32) << 8u32) | ((b[2] as u32) << 16u32) | ((b[3] as u32) << 24u32)
    }
}

/// The words held by consecutive groups of `n` little-endian bytes.
pub open spec fn bytes_words(b: Seq<u8>, n: nat) -> Seq<u32>
    decreases b.len(),
{
    if n == 0 || b.len() < n {
        Seq::empty()
    } else {
        bytes_words(b.take(b.len() - n), n).push(le_word(b.skip(b.len() - n), n))
    }
}

/// Consecutive pairs of words.
pub open spec fn group2(w: Seq<u32>) -> Seq<[u32; 2]>
    decreases w.len(),
{
    if w.len() < 2 {
        Seq::empty()
    } else {
        group2(w.take(w.len() - 2)).push([w[w.len() - 2], w[w.len() - 1]])
    }
}

/// Consecutive triples of words.
pub open spec fn group3(w: Seq<u32>) -> Seq<[u32; 3]>
    decreases w.len(),
{
    if w.len() < 3 {
        Seq::empty()
    } else {
        group3(w.take(w.len() - 3)).push([w[w.len() - 3], w[w.len() - 2], w[w.len() - 1]])
    }
}

/// Consecutive quadruples of words.
pub open spec fn group4(w: Seq<u32>) -> Seq<[u32; 4]>
    decreases w.len(),
{
    if w.len() < 4 {
        Seq::empty()
    } else {
        group4(w.take(w.len() - 4)).push([w[w.len() - 4], w[w.len() - 3], w[w.len() - 2], w[w.len() - 1]])
    }
}

/// The elements of a type held by storage words (a signed value from its
/// two's-complement pattern; a boolean is set when its word is not zero).
pub open spec fn values_from_words(k: AttributeKind, w: Seq<u32>) -> AttrValues {
    match k {
        AttributeKind::Float => AttrValues::Float(w),
        AttributeKind::Float2 => AttrValues::Float2(group2(w)),
        AttributeKind::Float3 => AttrValues::Float3(group3(w)),
        AttributeKind::Float4 => AttrValues::Float4(group4(w)),
        AttributeKind::Int8 => AttrValues::Int8(w.map_values(|x: u32| (x as u8) as i8)),
        AttributeKind::Int16 => AttrValues::Int16(w.map_values(|x: u32| (x as u16) as i16)),
        AttributeKind::Int32 => AttrValues::Int32(w.map_values(|x: u32| x as i32)),
        AttributeKind::UInt8 => AttrValues::UInt8(w.map_values(|x: u32| x as u8)),
        AttributeKind::UInt16 => AttrValues::UInt16(w.map_values(|x: u32| x as u16)),
        AttributeKind::UInt32 => AttrValues::UInt32(w),
        AttributeKind::Bool => AttrValues::Bool(w.map_values(|x: u32| x != 0)),
    }
}

/// The element type of a variant; strings have none.
pub open spec fn values_kind(v: AttrValues) -> Option<AttributeKind> {
    match v {
        AttrValues::Float(_) => Some(AttributeKind::Float),
        AttrValues::Float2(_) => Some(AttributeKind::Float2),
        AttrValues::Float3(_) => Some(AttributeKind::Float3),
        AttrValues::Float4(_) => Some(AttributeKind::Float4),
        AttrValues::Int8(_) => Some(AttributeKind::Int8),
        AttrValues::Int16(_) => Some(AttributeKind::Int16),
        AttrValues::Int32(_) => Some(AttributeKind::Int32),
        AttrValues::UInt8(_) => Some(AttributeKind::UInt8),
        AttrValues::UInt16(_) => Some(AttributeKind::UInt16),
        AttrValues::UInt32(_) => Some(AttributeKind::UInt32),
        AttrValues::Bool(_) => Some(AttributeKind::Bool),
        AttrValues::Text(_) => None,
    }
}

/// The elements of a type held by a little-endian byte buffer, or the error
/// when the buffer is not a whole number of elements.
pub open spec fn decode_spec(k: AttributeKind, b: Seq<u8>) -> Result<AttrValues, AttributeBufferError> {
    if b.len() % kind_size(k) != 0 {
        Err(AttributeBufferError::MisalignedLength(k))
    } else {
        Ok(values_from_words(k, bytes_words(b, kind_width(k))))
    }
}

/// The domain named by an already lower-cased text.
pub fn domain_from_lower(u: &str) -> (r: Option<AttributeDomain>)
    ensures
        r == domain_named(u@),
{
    if str_eq(u, "point") || str_eq(u, "vertex") {
        Some(AttributeDomain::Point)
    } else if str_eq(u, "corner") || str_eq(u, "loop") || str_eq(u, "face_varying") {
        Some(AttributeDomain::Corner)
    } else if str_eq(u, "face") || str_eq(u, "polygon") || str_eq(u, "uniform") {
        Some(AttributeDomain::Face)
    } else if str_eq(u, "mesh") || str_eq(u, "global") || str_eq(u, "constant") {
        Some(AttributeDomain::Mesh)
    } else {
        None
    }
}

/// The element type named by an already lower-cased text.
pub fn kind_from_lower(u: &str) -> (r: Option<AttributeKind>)
    ensures
        r == kind_named(u@),
{
    if str_eq(u, "float") || str_eq(u, "float32") || str_eq(u, "f32") {
        Some(AttributeKind::Float)
    } else if str_eq(u, "float2") || str_eq(u, "vec2") {
        Some(AttributeKind::Float2)
    } else if str_eq(u, "float3") || str_eq(u, "vec3") {
        Some(AttributeKind::Float3)
    } else if str_eq(u, "float4") || str_eq(u, "vec4") || str_eq(u, "color") {
        Some(AttributeKind::Float4)
    } else if str_eq(u, "int8") || str_eq(u, "i8") {
        Some(AttributeKind::Int8)
    } else if str_eq(u, "int16") || str_eq(u, "i16") {
        Some(AttributeKind::Int16)
    } else if str_eq(u, "int32") || str_eq(u, "int") || str_eq(u, "i32") {
        Some(AttributeKind::Int32)
    } else if str_eq(u, "uint8") || str_eq(u, "u8") || str_eq(u, "byte") {
        Some(AttributeKind::UInt8)
    } else if str_eq(u, "uint16") || str_eq(u, "u16") {
        Some(AttributeKind::UInt16)
    } else if str_eq(u, "uint32") || str_eq(u, "u32") {
        Some(AttributeKind::UInt32)
    } else if str_eq(u, "bool") || str_eq(u, "boolean") {
        Some(AttributeKind::Bool)
    } else {
        None
    }
}

/// The lower-case form of a text with surrounding white space removed.
fn trimmed_lower(s: &str) -> (r: String)
    ensures
        r@ == lower_case(trim(s@)),
{
    let chars = chars_of(s);
    let t = string_from(trim_chars(chars.as_slice()).as_slice());
    to_lowercase(t.as_str())
}

/// The domain named by a text, ignoring surrounding white space and case.
pub fn parse_attribute_domain(s: &str) -> (r: Option<AttributeDomain>)
    ensures
        r == domain_named(lower_case(trim(s@))),
{
    let u = trimmed_lower(s);
    domain_from_lower(u.as_str())
}

/// The element type named by a text, ignoring surrounding white space and case.
pub fn parse_attribute_kind(s: &str) -> (r: Option<AttributeKind>)
    ensures
        r == kind_named(lower_case(trim(s@))),
{
    let u = trimmed_lower(s);
    kind_from_lower(u.as_str())
}

proof fn lemma_next_chunk(off: int, len: int, n: int)
    requires
        n == 1 || n == 2 || n == 4,
        0 <= off < len,
        off % n == 0,
        len % n == 0,
    ensures
        off + n <= len,
        (off + n) % n == 0,
{
}

/// The words held by consecutive groups of `n` little-endian bytes.
fn words_from_bytes(b: &[u8], n: usize) -> (r: Vec<u32>)
    requires
        n == 1 || n == 2 || n == 4,
        b@.len() % (n as nat) == 0,
    ensures
        r@ == bytes_words(b@, n as nat),
{
    let mut r: Vec<u32> = Vec::new();
    let mut off: usize = 0;
    assert(b@.take(0).len() == 0);
    while off < b.len()
        invariant
            n == 1 || n == 2 || n == 4,
            off <= b@.len(),
            off % n == 0,
            b@.len() % (n as nat) == 0,
            r@ == bytes_words(b@.take(off as int), n as nat),
        decreases b.len() - off,
    {
        proof {
            lemma_next_chunk(off as int, b@.len() as int, n as int);
        }
        let w: u32 = if n == 1 {
            b[off] as u32
        } else if n == 2 {
            (b[off] as u32) | ((b[off + 1] as u32) << 8u32)
        } else {
            (b[off] as u32) | ((b[off + 1] as u32) << 8u32) | ((b[off + 2] as u32) << 16u32) | ((b[off + 3] as u32)
                << 24u32)
        };
        let ghost next = b@.take(off + n);
        assert(next.take(off as int) == b@.take(off as int));
        assert(next.skip(off as int) =~= b@.subrange(off as int, off + n));
        assert(w == le_word(next.skip(off as int), n as nat));
        r.push(w);
        off += n;
    }
    assert(b@.take(b@.len() as int) == b@);
    r
}

/// Consecutive pairs of words.
fn pairs_of(w: &Vec<u32>) -> (r: Vec<[u32; 2]>)
    requires
        w@.len() % 2 == 0,
    ensures
        r@ == group2(w@),
{
    let mut r: Vec<[u32; 2]> = Vec::new();
    let mut i: usize = 0;
    while i < w.len()
        invariant
            i <= w@.len(),
            i % 2 == 0,
            w@.len() % 2 == 0,
            r@ == group2(w@.take(i as int)),
        decreases w.len() - i,
    {
        let e = [w[i], w[i + 1]];
        let ghost next = w@.take(i + 2);
        assert(next.take(i as int) == w@.take(i as int));
        assert(e == [next[next.len() - 2], next[next.len() - 1]]);
        r.push(e);
        i += 2;
    }
    assert(w@.take(w@.len() as int) == w@);
    r
}

/// Consecutive triples of words.
fn triples_of(w: &Vec<u32>) -> (r: Vec<[u32; 3]>)
    requires
        w@.len() % 3 == 0,
    ensures
        r@ == group3(w@),
{
    let mut r: Vec<[u32; 3]> = Vec::new();
    let mut i: usize = 0;
    while i < w.len()
        invariant
            i <= w@.len(),
            i % 3 == 0,
            w@.len() % 3 == 0,
            r@ == group3(w@.take(i as int)),
        decreases w.len() - i,
    {
        let e = [w[i], w[i + 1], w[i + 2]];
        let ghost next = w@.take(i + 3);
        assert(next.take(i as int) == w@.take(i as int));
        assert(e == [next[next.len() - 3], next[next.len() - 2], next[next.len() - 1]]);
        r.push(e);
        i += 3;
    }
    assert(w@.take(w@.len() as int) == w@);
    r
}

/// Consecutive quadruples of words.
fn quadruples_of(w: &Vec<u32>) -> (r: Vec<[u32; 4]>)
    requires
        w@.len() % 4 == 0,
    ensures
        r@ == group4(w@),
{
    let mut r: Vec<[u32; 4]> = Vec::new();
    let mut i: usize = 0;
    while i < w.len()
        invariant
            i <= w@.len(),
            i % 4 == 0,
            w@.len() % 4 == 0,
            r@ == group4(w@.take(i as int)),
        decreases w.len() - i,
    {
        let e = [w[i], w[i + 1], w[i + 2], w[i + 3]];
        let ghost next = w@.take(i + 4);
        assert(next.take(i as int) == w@.take(i as int));
        assert(e == [next[next.len() - 4], next[next.len() - 3], next[next.len() - 2], next[next.len() - 1]]);
        r.push(e);
        i += 4;
    }
    assert(w@.take(w@.len() as int) == w@);
    r
}

fn words_to_i8(w: &Vec<u32>) -> (r: Vec<i8>)
    ensures
        r@ == w@.map_values(|x: u32| (x as u8) as i8),
{
    let mut r: Vec<i8> = Vec::new();
    let mut i: usize = 0;
    while i < w.len()
        invariant
            i <= w@.len(),
            r@ == w@.take(i as int).map_values(|x: u32| (x as u8) as i8),
        decreases w.len() - i,
    {
        r.push((w[i] as u8) as i8);
        i += 1;
        assert(r@ =~= w@.take(i as int).map_values(|x: u32| (x as u8) as i8));
    }
    assert(w@.take(w@.len() as int) == w@);
    r
}

fn words_to_i16(w: &Vec<u32>) -> (r: Vec<i16>)
    ensures
        r@ == w@.map_values(|x: u32| (x as u16) as i16),
{
    let mut r: Vec<i16> = Vec::new();
    let mut i: usize = 0;
    while i < w.len()
        invariant
            i <= w@.len(),
            r@ == w@.take(i as int).map_values(|x: u32| (x as u16) as i16),
        decreases w.len() - i,
    {
        r.push((w[i] as u16) as i16);
        i += 1;
        assert(r@ =~= w@.take(i as int).map_values(|x: u32| (x as u16) as i16));
    }
    assert(w@.take(w@.len() as int) == w@);
    r
}

fn words_to_i32(w: &Vec<u32>) -> (r: Vec<i32>)
    ensures
        r@ == w@.map_values(|x: u32| x as i32),
{
    let mut r: Vec<i32> = Vec::new();
    let mut i: usize = 0;
    while i < w.len()
        invariant
            i <= w@.len(),
            r@ == w@.take(i as int).map_values(|x: u32| x as i32),
        decreases w.len() - i,
    {
        r.push(w[i] as i32);
        i += 1;
        assert(r@ =~= w@.take(i as int).map_values(|x: u32| x as i32));
    }
    assert(w@.take(w@.len() as int) == w@);
    r
}

fn words_to_u8(w: &Vec<u32>) -> (r: Vec<u8>)
    ensures
        r@ == w@.map_values(|x: u32| x as u8),
{
    let mut r: Vec<u8> = Vec::new();
    let mut i: usize = 0;
    while i < w.len()
        invariant
            i <= w@.len(),
            r@ == w@.take(i as int).map_values(|x: u32| x as u8),
        decreases w.len() - i,
    {
        r.push(w[i] as u8);
        i += 1;
        assert(r@ =~= w@.take(i as int).map_values(|x: u32| x as u8));
    }
    assert(w@.take(w@.len() as int) == w@);
    r
}

fn words_to_u16(w: &Vec<u32>) -> (r: Vec<u16>)
    ensures
        r@ == w@.map_values(|x: u32| x as u16),
{
    let mut r: Vec<u16> = Vec::new();
    let mut i: usize = 0;
    while i < w.len()
        invariant
            i <= w@.len(),
            r@ == w@.take(i as int).map_values(|x: u32| x as u16),
        decreases w.len() - i,
    {
        r.push(w[i] as u16);
        i += 1;
        assert(r@ =~= w@.take(i as int).map_values(|x: u32| x as u16));
    }
    assert(w@.take(w@.len() as int) == w@);
    r
}

fn words_to_bool(w: &Vec<u32>) -> (r: Vec<bool>)
    ensures
        r@ == w@.map_values(|x: u32| x != 0),
{
    let mut r: Vec<bool> = Vec::new();
    let mut i: usize = 0;
    while i < w.len()
        invariant
            i <= w@.len(),
            r@ == w@.take(i as int).map_values(|x: u32| x != 0),
        decreases w.len() - i,
    {
        r.push(w[i] != 0);
        i += 1;
        assert(r@ =~= w@.take(i as int).map_values(|x: u32| x != 0));
    }
    assert(w@.take(w@.len() as int) == w@);
    r
}

/// Decodes a little-endian byte buffer into elements of type `kind` (see
/// `decode_spec`).
pub fn decode_attribute_bytes(kind: AttributeKind, bytes: &[u8]) -> (r: Result<AttributeData, AttributeBufferError>)
    ensures
        match decode_spec(kind, bytes@) {
            Ok(v) => r matches Ok(d) && d@ == v,
            Err(e) => r == Err::<AttributeData, AttributeBufferError>(e),
        },
{
    let (width, words_per): (usize, usize) = match kind {
        AttributeKind::Int8 | AttributeKind::UInt8 | AttributeKind::Bool => (1, 1),
        AttributeKind::Int16 | AttributeKind::UInt16 => (2, 1),
        AttributeKind::Float2 => (4, 2),
        AttributeKind::Float3 => (4, 3),
        AttributeKind::Float4 => (4, 4),
        _ => (4, 1),
    };
    let size = width * words_per;
    if bytes.len() % size != 0 {
        return Err(AttributeBufferError::MisalignedLength(kind));
    }
    proof {
        assert(bytes@.len() % (width as nat) == 0) by {
            let l = bytes@.len() as int;
            if words_per == 2 {
                assert(l % 4 == 0) by (nonlinear_arith)
                    requires
                        l % 8 == 0,
                        l >= 0,
                ;
            } else if words_per == 3 {
                assert(l % 4 == 0) by (nonlinear_arith)
                    requires
                        l % 12 == 0,
                        l >= 0,
                ;
            } else if words_per == 4 {
                assert(l % 4 == 0) by (nonlinear_arith)
                    requires
                        l % 16 == 0,
                        l >= 0,
                ;
            }
        }
    }
    let w = words_from_bytes(bytes, width);
    proof {
        lemma_words_count(bytes@, width as nat);
    }
    let data = match kind {
        AttributeKind::Float => AttributeData::Float(w),
        AttributeKind::Float2 => {
            assert(w@.len() % 2 == 0) by (nonlinear_arith)
                requires
                    w@.len() * 4 == bytes@.len(),
                    bytes@.len() % 8 == 0,
            ;
            AttributeData::Float2(pairs_of(&w))
        },
        AttributeKind::Float3 => {
            assert(w@.len() % 3 == 0) by (nonlinear_arith)
                requires
                    w@.len() * 4 == bytes@.len(),
                    bytes@.len() % 12 == 0,
            ;
            AttributeData::Float3(triples_of(&w))
        },
        AttributeKind::Float4 => {
            assert(w@.len() % 4 == 0) by (nonlinear_arith)
                requires
                    w@.len() * 4 == bytes@.len(),
                    bytes@.len() % 16 == 0,
            ;
            AttributeData::Float4(quadruples_of(&w))
        },
        AttributeKind::Int8 => AttributeData::Int8(words_to_i8(&w)),
        AttributeKind::Int16 => AttributeData::Int16(words_to_i16(&w)),
        AttributeKind::Int32 => AttributeData::Int32(words_to_i32(&w)),
        AttributeKind::UInt8 => AttributeData::UInt8(words_to_u8(&w)),
        AttributeKind::UInt16 => AttributeData::UInt16(words_to_u16(&w)),
        AttributeKind::UInt32 => AttributeData::UInt32(w),
        AttributeKind::Bool => AttributeData::Bool(words_to_bool(&w)),
    };
    Ok(data)
}

/// A buffer of `n`-byte words holds one word per `n` bytes.
pub proof fn lemma_words_count(b: Seq<u8>, n: nat)
    requires
        n == 1 || n == 2 || n == 4,
        b.len() % n == 0,
    ensures
        bytes_words(b, n).len() * n == b.len(),
    decreases b.len(),
{
    if b.len() >= n {
        let front = b.take(b.len() - n);
        assert(front.len() % n == 0);
        lemma_words_count(front, n);
    }
}

/// `m` with the attribute `name` set to `values` in domain `d`.
pub open spec fn with_attribute(m: MeshView, name: Seq<char>, d: AttributeDomain, values: AttrValues) -> MeshView {
    MeshView {
        attributes: attr_insert(m.attributes, crate::attributes::MeshAttrView { name, domain: d, values }),
        ..m
    }
}

/// The outcome of adding an attribute from a buffer, for a domain name and an
/// element type name already lower-cased and trimmed: the mesh after, or the
/// error (the mesh then stays as it was).
pub open spec fn buffer_attribute_spec(
    m: MeshView,
    name: Seq<char>,
    domain: Seq<char>,
    dtype: Seq<char>,
    bytes: Seq<u8>,
) -> Result<MeshView, AttributeBufferError> {
    match domain_named(domain) {
        None => Err(AttributeBufferError::InvalidDomain),
        Some(d) => match kind_named(dtype) {
            None => Err(AttributeBufferError::UnsupportedType),
            Some(k) => match decode_spec(k, bytes) {
                Err(e) => Err(e),
                Ok(v) => Ok(with_attribute(m, name, d, v)),
            },
        },
    }
}

impl MeshData {
    /// Adds (or replaces) attribute `name` decoded from `bytes`, the domain and
    /// element type named by already lower-cased texts (see `buffer_attribute_spec`).
    pub fn add_attribute_from_lower(&mut self, name: &str, domain: &str, dtype: &str, bytes: &[u8]) -> (r: Result<
        (),
        AttributeBufferError,
    >)
        ensures
            match buffer_attribute_spec(old(self)@, name@, domain@, dtype@, bytes@) {
                Ok(m) => r is Ok && final(self)@ == m,
                Err(e) => r == Err::<(), AttributeBufferError>(e) && final(self)@ == old(self)@,
            },
    {
        let d = match domain_from_lower(domain) {
            Some(d) => d,
            None => {
                return Err(AttributeBufferError::InvalidDomain);
            },
        };
        let k = match kind_from_lower(dtype) {
            Some(k) => k,
            None => {
                return Err(AttributeBufferError::UnsupportedType);
            },
        };
        let data = match decode_attribute_bytes(k, bytes) {
            Ok(data) => data,
            Err(e) => {
                return Err(e);
            },
        };
        self.add_custom_attribute(MeshAttribute::new(name, d, data));
        Ok(())
    }

    /// Adds (or replaces) attribute `name` decoded from the little-endian bytes
    /// of a raw buffer, the domain and element type named by texts read without
    /// surrounding white space and case.
    pub fn add_attribute_from_bytes(&mut self, name: &str, domain: &str, dtype: &str, bytes: &[u8]) -> (r: Result<
        (),
        AttributeBufferError,
    >)
        ensures
            match buffer_attribute_spec(
                old(self)@,
                name@,
                lower_case(trim(domain@)),
                lower_case(trim(dtype@)),
                bytes@,
            ) {
                Ok(m) => r is Ok && final(self)@ == m,
                Err(e) => r == Err::<(), AttributeBufferError>(e) && final(self)@ == old(self)@,
            },
    {
        let d = trimmed_lower(domain);
        let t = trimmed_lower(dtype);
        self.add_attribute_from_lower(name, d.as_str(), t.as_str(), bytes)
    }

    /// Adds (or replaces) the string attribute `name` in the domain named by a
    /// text read without surrounding white space and case.
    pub fn add_string_attribute(&mut self, name: &str, domain: &str, values: Vec<String>) -> (r: Result<
        (),
        AttributeBufferError,
    >)
        ensures
            match domain_named(lower_case(trim(domain@))) {
                Some(d) => r is Ok && final(self)@ == with_attribute(
                    old(self)@,
                    name@,
                    d,
                    AttrValues::Text(texts(values@)),
                ),
                None => r == Err::<(), AttributeBufferError>(AttributeBufferError::InvalidDomain) && final(self)@
                    == old(self)@,
            },
    {
        match parse_attribute_domain(domain) {
            Some(d) => {
                self.add_custom_attribute(MeshAttribute::new(name, d, AttributeData::String(values)));
                Ok(())
            },
            None => Err(AttributeBufferError::InvalidDomain),
        }
    }
}

impl MeshData {
    /// The four corners of each quad face: indices 0, 1, 2 and 5 of each run of
    /// six (the triangles 0-1-2 and 0-2-3 of a quad).
    pub fn quad_indices(&self) -> (r: Vec<[u32; 4]>)
        ensures
            r@.len() == self@.indices.len() / 6,
            forall|q: int|
                0 <= q < r@.len() ==> #[trigger] r@[q] == [
                    self@.indices[6 * q],
                    self@.indices[6 * q + 1],
                    self@.indices[6 * q + 2],
                    self@.indices[6 * q + 5],
                ],
    {
        let total = self.indices.len();
        let n = total / 6;
        let mut r: Vec<[u32; 4]> = Vec::new();
        let mut q: usize = 0;
        while q < n
            invariant
                q <= n,
                total == self@.indices.len(),
                n == total / 6,
                r@.len() == q,
                forall|j: int|
                    0 <= j < q ==> #[trigger] r@[j] == [
                        self@.indices[6 * j],
                        self@.indices[6 * j + 1],
                        self@.indices[6 * j + 2],
                        self@.indices[6 * j + 5],
                    ],
            decreases n - q,
        {
            let b = q * 6;
            r.push([self.indices[b], self.indices[b + 1], self.indices[b + 2], self.indices[b + 5]]);
            q += 1;
        }
        r
    }
}

} // verus!
