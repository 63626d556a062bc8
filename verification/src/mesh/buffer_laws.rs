//! Round trips between attribute elements and their raw little-endian bytes.
use vstd::prelude::*;
use crate::attributes::{flat2, flat3, flat4, le_bytes, values_bytes, values_width, values_words, words_bytes, AttrValues};
use crate::mesh::buffers::{
    bytes_words, decode_spec, group2, group3, group4, kind_size, kind_width, le_word, lemma_words_count,
    values_from_words, values_kind, AttributeKind,
};

verus! {

/// The largest word that `n` bytes hold, plus one.
pub open spec fn word_limit(n: nat) -> int {
    if n == 1 {
        0x100
    } else if n == 2 {
        0x1_0000
    } else {
        0x1_0000_0000
    }
}

/// Every word fits in `n` bytes.
pub open spec fn words_fit(ws: Seq<u32>, n: nat) -> bool {
    forall|i: int| 0 <= i < ws.len() ==> (#[trigger] ws[i]) < word_limit(n)
}

proof fn lemma_word_bytes_word(w: u32, n: nat)
    requires
        n == 1 || n == 2 || n == 4,
        w < word_limit(n),
    ensures
        le_bytes(w, n).len() == n,
        le_word(le_bytes(w, n), n) == w,
{
    let b = le_bytes(w, n);
    if n == 1 {
        assert(b[0] == (w & 0xff) as u8);
        assert(((w & 0xff) as u8) as u32 == w) by (bit_vector)
            requires
                w < 0x100,
        ;
    } else if n == 2 {
        assert(b[0] == (w & 0xff) as u8 && b[1] == ((w >> 8) & 0xff) as u8);
        assert((((w & 0xff) as u8) as u32) | ((((w >> 8) & 0xff) as u8) as u32) << 8u32 == w) by (bit_vector)
            requires
                w < 0x1_0000,
        ;
    } else {
        assert(b[0] == (w & 0xff) as u8 && b[1] == ((w >> 8) & 0xff) as u8 && b[2] == ((w >> 16) & 0xff) as u8
            && b[3] == ((w >> 24) & 0xff) as u8);
        assert((((w & 0xff) as u8) as u32) | ((((w >> 8) & 0xff) as u8) as u32) << 8u32 | ((((w >> 16) & 0xff) as u8)
            as u32) << 16u32 | ((((w >> 24) & 0xff) as u8) as u32) << 24u32 == w) by (bit_vector);
    }
}

proof fn lemma_bytes_word_bytes(b: Seq<u8>, n: nat)
    requires
        n == 1 || n == 2 || n == 4,
        b.len() == n,
    ensures
        le_bytes(le_word(b, n), n) == b,
        le_word(b, n) < word_limit(n),
{
    if n == 1 {
        let b0 = b[0];
        assert((((b0 as u32) & 0xff) as u8) == b0 && (b0 as u32) < 0x100) by (bit_vector);
        assert(le_bytes(le_word(b, n), n) =~= b);
    } else if n == 2 {
        let b0 = b[0];
        let b1 = b[1];
        let w = (b0 as u32) | ((b1 as u32) << 8u32);
        assert(((w & 0xff) as u8) == b0 && (((w >> 8) & 0xff) as u8) == b1 && w < 0x1_0000) by (bit_vector)
            requires
                w == (b0 as u32) | ((b1 as u32) << 8u32),
        ;
        assert(le_bytes(le_word(b, n), n) =~= b);
    } else {
        let b0 = b[0];
        let b1 = b[1];
        let b2 = b[2];
        let b3 = b[3];
        let w = (b0 as u32) | ((b1 as u32) << 8u32) | ((b2 as u32) << 16u32) | ((b3 as u32) << 24u32);
        assert(((w & 0xff) as u8) == b0 && (((w >> 8) & 0xff) as u8) == b1 && (((w >> 16) & 0xff) as u8) == b2
            && (((w >> 24) & 0xff) as u8) == b3) by (bit_vector)
            requires
                w == (b0 as u32) | ((b1 as u32) << 8u32) | ((b2 as u32) << 16u32) | ((b3 as u32) << 24u32),
        ;
        assert(le_bytes(le_word(b, n), n) =~= b);
    }
}

/// Reading back the bytes of fitting words gives the words.
pub proof fn lemma_bytes_words_of_words_bytes(ws: Seq<u32>, n: nat)
    requires
        n == 1 || n == 2 || n == 4,
        words_fit(ws, n),
    ensures
        bytes_words(words_bytes(ws, n), n) == ws,
    decreases ws.len(),
{
    if ws.len() > 0 {
        let front = ws.drop_last();
        assert(words_fit(front, n)) by {
            assert forall|i: int| 0 <= i < front.len() implies (#[trigger] front[i]) < word_limit(n) by {
                assert(front[i] == ws[i]);
            }
        }
        lemma_bytes_words_of_words_bytes(front, n);
        assert(ws.last() == ws[ws.len() - 1]);
        lemma_word_bytes_word(ws.last(), n);
        let a = words_bytes(front, n);
        let t = le_bytes(ws.last(), n);
        let b = a + t;
        assert(b.take(b.len() - n) =~= a);
        assert(b.skip(b.len() - n) =~= t);
        assert(ws =~= front.push(ws.last()));
    }
}

/// Writing back the words read from whole groups of bytes gives the bytes, and
/// each word read fits.
pub proof fn lemma_words_bytes_of_bytes_words(b: Seq<u8>, n: nat)
    requires
        n == 1 || n == 2 || n == 4,
        b.len() % n == 0,
    ensures
        words_bytes(bytes_words(b, n), n) == b,
        words_fit(bytes_words(b, n), n),
    decreases b.len(),
{
    if b.len() == 0 {
        assert(b =~= Seq::<u8>::empty());
    } else {
        assert(b.len() >= n);
        let front = b.take(b.len() - n);
        let tail = b.skip(b.len() - n);
        assert(front.len() % n == 0);
        lemma_words_bytes_of_bytes_words(front, n);
        lemma_bytes_word_bytes(tail, n);
        let ws = bytes_words(b, n);
        assert(ws == bytes_words(front, n).push(le_word(tail, n)));
        assert(ws.drop_last() =~= bytes_words(front, n));
        assert(b =~= front + tail);
        assert forall|i: int| 0 <= i < ws.len() implies (#[trigger] ws[i]) < word_limit(n) by {
            if i < ws.len() - 1 {
                assert(ws[i] == bytes_words(front, n)[i]);
            }
        }
    }
}

proof fn lemma_group2_flat2(s: Seq<[u32; 2]>)
    ensures
        group2(flat2(s)) == s,
    decreases s.len(),
{
    if s.len() > 0 {
        let front = s.drop_last();
        lemma_group2_flat2(front);
        let l = s.last();
        let a = flat2(front);
        let w = flat2(s);
        assert(w == a + seq![l[0], l[1]]);
        assert(w.take(w.len() - 2) =~= a);
        assert([w[w.len() - 2], w[w.len() - 1]] =~= l);
        assert(s =~= front.push(l));
    }
}

proof fn lemma_flat2_group2(w: Seq<u32>)
    requires
        w.len() % 2 == 0,
    ensures
        flat2(group2(w)) == w,
    decreases w.len(),
{
    if w.len() > 0 {
        let front = w.take(w.len() - 2);
        lemma_flat2_group2(front);
        let g = group2(w);
        let e = [w[w.len() - 2], w[w.len() - 1]];
        assert(g == group2(front).push(e));
        assert(g.drop_last() =~= group2(front));
        assert(w =~= front + seq![e[0], e[1]]);
    }
}

proof fn lemma_group3_flat3(s: Seq<[u32; 3]>)
    ensures
        group3(flat3(s)) == s,
    decreases s.len(),
{
    if s.len() > 0 {
        let front = s.drop_last();
        lemma_group3_flat3(front);
        let l = s.last();
        let a = flat3(front);
        let w = flat3(s);
        assert(w == a + seq![l[0], l[1], l[2]]);
        assert(w.take(w.len() - 3) =~= a);
        assert([w[w.len() - 3], w[w.len() - 2], w[w.len() - 1]] =~= l);
        assert(s =~= front.push(l));
    }
}

proof fn lemma_flat3_group3(w: Seq<u32>)
    requires
        w.len() % 3 == 0,
    ensures
        flat3(group3(w)) == w,
    decreases w.len(),
{
    if w.len() > 0 {
        let front = w.take(w.len() - 3);
        lemma_flat3_group3(front);
        let g = group3(w);
        let e = [w[w.len() - 3], w[w.len() - 2], w[w.len() - 1]];
        assert(g == group3(front).push(e));
        assert(g.drop_last() =~= group3(front));
        assert(w =~= front + seq![e[0], e[1], e[2]]);
    }
}

proof fn lemma_group4_flat4(s: Seq<[u32; 4]>)
    ensures
        group4(flat4(s)) == s,
    decreases s.len(),
{
    if s.len() > 0 {
        let front = s.drop_last();
        lemma_group4_flat4(front);
        let l = s.last();
        let a = flat4(front);
        let w = flat4(s);
        assert(w == a + seq![l[0], l[1], l[2], l[3]]);
        assert(w.take(w.len() - 4) =~= a);
        assert([w[w.len() - 4], w[w.len() - 3], w[w.len() - 2], w[w.len() - 1]] =~= l);
        assert(s =~= front.push(l));
    }
}

proof fn lemma_flat4_group4(w: Seq<u32>)
    requires
        w.len() % 4 == 0,
    ensures
        flat4(group4(w)) == w,
    decreases w.len(),
{
    if w.len() > 0 {
        let front = w.take(w.len() - 4);
        lemma_flat4_group4(front);
        let g = group4(w);
        let e = [w[w.len() - 4], w[w.len() - 3], w[w.len() - 2], w[w.len() - 1]];
        assert(g == group4(front).push(e));
        assert(g.drop_last() =~= group4(front));
        assert(w =~= front + seq![e[0], e[1], e[2], e[3]]);
    }
}

proof fn lemma_words_bytes_len(ws: Seq<u32>, n: nat)
    requires
        n == 1 || n == 2 || n == 4,
    ensures
        words_bytes(ws, n).len() == ws.len() * n,
    decreases ws.len(),
{
    if ws.len() > 0 {
        lemma_words_bytes_len(ws.drop_last(), n);
        assert(ws.drop_last().len() * n + n == ws.len() * n) by (nonlinear_arith)
            requires
                ws.drop_last().len() + 1 == ws.len(),
        ;
    }
}

proof fn lemma_flat_lens(s2: Seq<[u32; 2]>, s3: Seq<[u32; 3]>, s4: Seq<[u32; 4]>)
    ensures
        flat2(s2).len() == 2 * s2.len(),
        flat3(s3).len() == 3 * s3.len(),
        flat4(s4).len() == 4 * s4.len(),
    decreases s2.len() + s3.len() + s4.len(),
{
    if s2.len() > 0 {
        lemma_flat_lens(s2.drop_last(), s3, s4);
    } else if s3.len() > 0 {
        lemma_flat_lens(s2, s3.drop_last(), s4);
    } else if s4.len() > 0 {
        lemma_flat_lens(s2, s3, s4.drop_last());
    }
}

/// Element words of every type but strings fit in the type's word width, and
/// turning them back into elements gives the elements.
proof fn lemma_words_of_values(v: AttrValues, k: AttributeKind)
    requires
        values_kind(v) == Some(k),
    ensures
        values_width(v) == kind_width(k),
        words_fit(values_words(v), kind_width(k)),
        values_from_words(k, values_words(v)) == v,
{
    let ws = values_words(v);
    let n = kind_width(k);
    match v {
        AttrValues::Float(s) => {},
        AttrValues::Float2(s) => {
            lemma_group2_flat2(s);
        },
        AttrValues::Float3(s) => {
            lemma_group3_flat3(s);
        },
        AttrValues::Float4(s) => {
            lemma_group4_flat4(s);
        },
        AttrValues::Int8(s) => {
            assert forall|i: int| 0 <= i < ws.len() implies (#[trigger] ws[i]) < word_limit(n) by {
                let x = s[i];
                assert(((x as u8) as u32) < 0x100) by (bit_vector);
            }
            assert forall|i: int| 0 <= i < s.len() implies ((ws[i] as u8) as i8) == #[trigger] s[i] by {
                let x = s[i];
                assert((((x as u8) as u32) as u8) as i8 == x) by (bit_vector);
            }
            assert(values_from_words(k, ws) == AttrValues::Int8(ws.map_values(|x: u32| (x as u8) as i8)));
            assert(ws.map_values(|x: u32| (x as u8) as i8) =~= s);
        },
        AttrValues::Int16(s) => {
            assert forall|i: int| 0 <= i < ws.len() implies (#[trigger] ws[i]) < word_limit(n) by {
                let x = s[i];
                assert(((x as u16) as u32) < 0x1_0000) by (bit_vector);
            }
            assert forall|i: int| 0 <= i < s.len() implies ((ws[i] as u16) as i16) == #[trigger] s[i] by {
                let x = s[i];
                assert((((x as u16) as u32) as u16) as i16 == x) by (bit_vector);
            }
            assert(ws.map_values(|x: u32| (x as u16) as i16) =~= s);
        },
        AttrValues::Int32(s) => {
            assert forall|i: int| 0 <= i < s.len() implies (ws[i] as i32) == #[trigger] s[i] by {
                let x = s[i];
                assert((x as u32) as i32 == x) by (bit_vector);
            }
            assert(ws.map_values(|x: u32| x as i32) =~= s);
        },
        AttrValues::UInt8(s) => {
            assert forall|i: int| 0 <= i < ws.len() implies (#[trigger] ws[i]) < word_limit(n) by {
                let x = s[i];
                assert((x as u32) < 0x100) by (bit_vector);
            }
            assert forall|i: int| 0 <= i < s.len() implies (ws[i] as u8) == #[trigger] s[i] by {
                let x = s[i];
                assert((x as u32) as u8 == x) by (bit_vector);
            }
            assert(ws.map_values(|x: u32| x as u8) =~= s);
        },
        AttrValues::UInt16(s) => {
            assert forall|i: int| 0 <= i < ws.len() implies (#[trigger] ws[i]) < word_limit(n) by {
                let x = s[i];
                assert((x as u32) < 0x1_0000) by (bit_vector);
            }
            assert forall|i: int| 0 <= i < s.len() implies (ws[i] as u16) == #[trigger] s[i] by {
                let x = s[i];
                assert((x as u32) as u16 == x) by (bit_vector);
            }
            assert(ws.map_values(|x: u32| x as u16) =~= s);
        },
        AttrValues::UInt32(s) => {},
        AttrValues::Bool(s) => {
            assert(ws.map_values(|x: u32| x != 0) =~= s);
        },
        AttrValues::Text(_) => {},
    }
}

/// Decoding the bytes of attribute elements gives the elements back: a read
/// gives back what was written, for every element type but strings.
pub proof fn lemma_decode_of_encode(v: AttrValues)
    requires
        values_kind(v) is Some,
    ensures
        values_bytes(v) is Some,
        decode_spec(values_kind(v).unwrap(), values_bytes(v).unwrap()) == Ok::<AttrValues, crate::mesh::buffers::AttributeBufferError>(v),
{
    let k = values_kind(v).unwrap();
    let n = kind_width(k);
    let ws = values_words(v);
    lemma_words_of_values(v, k);
    let b = words_bytes(ws, n);
    lemma_bytes_words_of_words_bytes(ws, n);
    lemma_words_bytes_len(ws, n);
    let blen = b.len() as int;
    let wlen = ws.len() as int;
    match v {
        AttrValues::Float2(s) => {
            lemma_flat_lens(s, Seq::empty(), Seq::empty());
            assert(blen % 8 == 0) by (nonlinear_arith)
                requires
                    blen == wlen * 4,
                    wlen == 2 * s.len(),
            ;
        },
        AttrValues::Float3(s) => {
            lemma_flat_lens(Seq::empty(), s, Seq::empty());
            assert(blen % 12 == 0) by (nonlinear_arith)
                requires
                    blen == wlen * 4,
                    wlen == 3 * s.len(),
            ;
        },
        AttrValues::Float4(s) => {
            lemma_flat_lens(Seq::empty(), Seq::empty(), s);
            assert(blen % 16 == 0) by (nonlinear_arith)
                requires
                    blen == wlen * 4,
                    wlen == 4 * s.len(),
            ;
        },
        _ => {
            assert(kind_size(k) == n);
            assert(blen % (n as int) == 0) by (nonlinear_arith)
                requires
                    blen == wlen * n,
                    n > 0,
            ;
        },
    }
}

/// Writing back the elements decoded from a buffer gives the buffer back, for
/// every element type but booleans (which keep only whether a byte is zero).
pub proof fn lemma_encode_of_decode(k: AttributeKind, b: Seq<u8>)
    requires
        k != AttributeKind::Bool,
    ensures
        decode_spec(k, b) matches Ok(v) ==> values_bytes(v) == Some(b),
{
    if decode_spec(k, b) is Ok {
        let n = kind_width(k);
        let blen = b.len() as int;
        assert(blen % (n as int) == 0) by {
            if k == AttributeKind::Float2 {
                assert(blen % 4 == 0) by (nonlinear_arith)
                    requires
                        blen % 8 == 0,
                        blen >= 0,
                ;
            } else if k == AttributeKind::Float3 {
                assert(blen % 4 == 0) by (nonlinear_arith)
                    requires
                        blen % 12 == 0,
                        blen >= 0,
                ;
            } else if k == AttributeKind::Float4 {
                assert(blen % 4 == 0) by (nonlinear_arith)
                    requires
                        blen % 16 == 0,
                        blen >= 0,
                ;
            }
        }
        let ws = bytes_words(b, n);
        lemma_words_bytes_of_bytes_words(b, n);
        lemma_words_count(b, n);
        let wlen = ws.len() as int;
        let v = values_from_words(k, ws);
        assert(values_words(v) == ws && values_width(v) == n) by {
            match k {
                AttributeKind::Float2 => {
                    assert(wlen % 2 == 0) by (nonlinear_arith)
                        requires
                            wlen * 4 == blen,
                            blen % 8 == 0,
                    ;
                    lemma_flat2_group2(ws);
                },
                AttributeKind::Float3 => {
                    assert(wlen % 3 == 0) by (nonlinear_arith)
                        requires
                            wlen * 4 == blen,
                            blen % 12 == 0,
                    ;
                    lemma_flat3_group3(ws);
                },
                AttributeKind::Float4 => {
                    assert(wlen % 4 == 0) by (nonlinear_arith)
                        requires
                            wlen * 4 == blen,
                            blen % 16 == 0,
                    ;
                    lemma_flat4_group4(ws);
                },
                AttributeKind::Int8 => {
                    let s = ws.map_values(|x: u32| (x as u8) as i8);
                    assert forall|i: int| 0 <= i < ws.len() implies ((s[i] as u8) as u32) == #[trigger] ws[i] by {
                        let w = ws[i];
                        assert(w < 0x100);
                        assert((((w as u8) as i8) as u8) as u32 == w) by (bit_vector)
                            requires
                                w < 0x100,
                        ;
                    }
                    assert(s.map_values(|x: i8| (x as u8) as u32) =~= ws);
                },
                AttributeKind::Int16 => {
                    let s = ws.map_values(|x: u32| (x as u16) as i16);
                    assert forall|i: int| 0 <= i < ws.len() implies ((s[i] as u16) as u32) == #[trigger] ws[i] by {
                        let w = ws[i];
                        assert(w < 0x1_0000);
                        assert((((w as u16) as i16) as u16) as u32 == w) by (bit_vector)
                            requires
                                w < 0x1_0000,
                        ;
                    }
                    assert(s.map_values(|x: i16| (x as u16) as u32) =~= ws);
                },
                AttributeKind::Int32 => {
                    let s = ws.map_values(|x: u32| x as i32);
                    assert forall|i: int| 0 <= i < ws.len() implies (s[i] as u32) == #[trigger] ws[i] by {
                        let w = ws[i];
                        assert((w as i32) as u32 == w) by (bit_vector);
                    }
                    assert(s.map_values(|x: i32| x as u32) =~= ws);
                },
                AttributeKind::UInt8 => {
                    let s = ws.map_values(|x: u32| x as u8);
                    assert forall|i: int| 0 <= i < ws.len() implies (s[i] as u32) == #[trigger] ws[i] by {
                        let w = ws[i];
                        assert(w < 0x100);
                        assert((w as u8) as u32 == w) by (bit_vector)
                            requires
                                w < 0x100,
                        ;
                    }
                    assert(s.map_values(|x: u8| x as u32) =~= ws);
                },
                AttributeKind::UInt16 => {
                    let s = ws.map_values(|x: u32| x as u16);
                    assert forall|i: int| 0 <= i < ws.len() implies (s[i] as u32) == #[trigger] ws[i] by {
                        let w = ws[i];
                        assert(w < 0x1_0000);
                        assert((w as u16) as u32 == w) by (bit_vector)
                            requires
                                w < 0x1_0000,
                        ;
                    }
                    assert(s.map_values(|x: u16| x as u32) =~= ws);
                },
                _ => {},
            }
        }
    }
}

} // verus!
