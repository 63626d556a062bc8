//! Parsing of block state strings (`namespace:name[key=value,...]`) and of
//! their properties.
use vstd::prelude::*;
use crate::text::{
    after_last, after_last_char, chars_eq_str, chars_lt, chars_of, find, find_char,
    lemma_text_lt_strict_total, lemma_text_lt_transitive, rfind, rfind_char, slice_chars, split,
    split_once, string_from, text_lt, trim, trim_chars,
};

verus! {

/// Block state properties as key / value character sequences.
pub type PropsView = Seq<(Seq<char>, Seq<char>)>;

/// Position of the first entry with key `k`, or -1.
pub open spec fn key_pos(ps: PropsView, k: Seq<char>) -> int
    decreases ps.len(),
{
    if ps.len() == 0 {
        -1
    } else {
        let p = key_pos(ps.drop_last(), k);
        if p >= 0 {
            p
        } else if ps.last().0 == k {
            ps.len() - 1
        } else {
            -1
        }
    }
}

/// Position of the first entry whose key does not come before `k`, or the
/// length: where `k` goes to keep the keys in order.
pub open spec fn insert_index(ps: PropsView, k: Seq<char>) -> int
    decreases ps.len(),
{
    if ps.len() == 0 {
        0
    } else {
        let q = insert_index(ps.drop_last(), k);
        if q < ps.len() - 1 {
            q
        } else if !text_lt(ps.last().0, k) {
            ps.len() - 1
        } else {
            ps.len() as int
        }
    }
}

/// Sets `k` to `v`: replaces the value of an existing key, or inserts the pair
/// where it keeps the keys in order.
pub open spec fn prop_insert(ps: PropsView, k: Seq<char>, v: Seq<char>) -> PropsView {
    let p = key_pos(ps, k);
    if p >= 0 {
        ps.update(p, (k, v))
    } else {
        ps.insert(insert_index(ps, k), (k, v))
    }
}

/// The keys are in strictly increasing order (so no key occurs twice).
pub open spec fn keys_sorted(ps: PropsView) -> bool {
    forall|i: int, j: int| 0 <= i < j < ps.len() ==> text_lt(ps[i].0, ps[j].0)
}

/// The value of key `k`.
pub open spec fn prop_value(ps: PropsView, k: Seq<char>) -> Option<Seq<char>> {
    let p = key_pos(ps, k);
    if p >= 0 {
        Some(ps[p].1)
    } else {
        None
    }
}

/// Properties of `key=value` items, trimmed, later items overriding earlier
/// ones; items without `=` are ignored.
pub open spec fn props_of_items(items: Seq<Seq<char>>) -> PropsView
    decreases items.len(),
{
    if items.len() == 0 {
        seq![]
    } else {
        let ps = props_of_items(items.drop_last());
        match split_once(items.last(), '=') {
            Some(kv) => prop_insert(ps, trim(kv.0), trim(kv.1)),
            None => ps,
        }
    }
}

/// The state text can be parsed: when it has both a `[` and a `]`, the last `]`
/// comes after the first `[`.
pub open spec fn parse_ok(s: Seq<char>) -> bool {
    let t = trim(s);
    match (find(t, '['), rfind(t, ']')) {
        (Some(o), Some(c)) => o < c,
        _ => true,
    }
}

/// Block name (without namespace) and properties of a block state text.
///
/// An empty (or all white-space) text is `air`. With `[` and `]` the name is
/// what precedes the first `[` and the properties are the comma-separated
/// `key=value` items up to the last `]`; otherwise the whole text is the name.
/// The namespace, up to the last `:`, is dropped from the name.
pub open spec fn parse_spec(s: Seq<char>) -> (Seq<char>, PropsView) {
    let t = trim(s);
    if t.len() == 0 {
        ("air"@, seq![])
    } else {
        match (find(t, '['), rfind(t, ']')) {
            (Some(o), Some(c)) => (
                after_last(t.take(o), ':'),
                props_of_items(split(t.subrange(o + 1, c), ',')),
            ),
            _ => (after_last(t, ':'), seq![]),
        }
    }
}

/// The abstract content of property pairs.
pub open spec fn pairs_view(p: Seq<(String, String)>) -> PropsView {
    p.map_values(|kv: (String, String)| (kv.0@, kv.1@))
}

/// The character sequences of a vector of character vectors.
pub open spec fn items_view(v: Seq<Vec<char>>) -> Seq<Seq<char>> {
    v.map_values(|x: Vec<char>| x@)
}

proof fn lemma_key_pos_first(ps: PropsView, k: Seq<char>, j: int)
    requires
        0 <= j <= ps.len(),
        forall|m: int| 0 <= m < j ==> ps[m].0 != k,
        j == ps.len() || ps[j].0 == k,
    ensures
        key_pos(ps, k) == (if j < ps.len() { j } else { -1 }),
    decreases ps.len(),
{
    if ps.len() > 0 {
        let front = ps.drop_last();
        if j < ps.len() - 1 {
            lemma_key_pos_first(front, k, j);
        } else {
            assert forall|m: int| 0 <= m < front.len() implies front[m].0 != k by {
                assert(front[m] == ps[m]);
            }
            lemma_key_pos_first(front, k, front.len() as int);
        }
    }
}

proof fn lemma_key_pos_range(ps: PropsView, k: Seq<char>)
    ensures
        -1 <= key_pos(ps, k) < ps.len(),
        key_pos(ps, k) >= 0 ==> ps[key_pos(ps, k)].0 == k,
    decreases ps.len(),
{
    if ps.len() > 0 {
        lemma_key_pos_range(ps.drop_last(), k);
    }
}

/// Index of the entry with key `k` in the property pairs.
fn find_key(props: &Vec<(String, String)>, k: &[char]) -> (r: Option<usize>)
    ensures
        match r {
            Some(i) => key_pos(pairs_view(props@), k@) == i as int && i < props.len(),
            None => key_pos(pairs_view(props@), k@) == -1,
        },
{
    let ghost ps = pairs_view(props@);
    let mut j: usize = 0;
    while j < props.len()
        invariant
            j <= props.len(),
            ps == pairs_view(props@),
            forall|m: int| 0 <= m < j ==> ps[m].0 != k@,
        decreases props.len() - j,
    {
        if chars_eq_str(k, props[j].0.as_str()) {
            proof {
                lemma_key_pos_first(ps, k@, j as int);
            }
            return Some(j);
        }
        j += 1;
    }
    proof {
        lemma_key_pos_first(ps, k@, j as int);
    }
    None
}

proof fn lemma_insert_index_first(ps: PropsView, k: Seq<char>, j: int)
    requires
        0 <= j <= ps.len(),
        forall|m: int| 0 <= m < j ==> text_lt(ps[m].0, k),
        j == ps.len() || !text_lt(ps[j].0, k),
    ensures
        insert_index(ps, k) == j,
    decreases ps.len(),
{
    if ps.len() > 0 {
        let front = ps.drop_last();
        if j < ps.len() {
            if j < ps.len() - 1 {
                lemma_insert_index_first(front, k, j);
            } else {
                assert forall|m: int| 0 <= m < front.len() implies text_lt(front[m].0, k) by {
                    assert(front[m] == ps[m]);
                }
                lemma_insert_index_first(front, k, front.len() as int);
            }
        } else {
            assert forall|m: int| 0 <= m < front.len() implies text_lt(front[m].0, k) by {
                assert(front[m] == ps[m]);
            }
            lemma_insert_index_first(front, k, front.len() as int);
        }
    }
}

/// Index of the first entry whose key does not come before `k`, or the length.
fn find_insert_index(props: &Vec<(String, String)>, k: &[char]) -> (r: usize)
    ensures
        r as int == insert_index(pairs_view(props@), k@),
        r <= props.len(),
{
    let ghost ps = pairs_view(props@);
    let mut j: usize = 0;
    while j < props.len()
        invariant
            j <= props.len(),
            ps == pairs_view(props@),
            forall|m: int| 0 <= m < j ==> text_lt(ps[m].0, k@),
        decreases props.len() - j,
    {
        let key = chars_of(props[j].0.as_str());
        if !chars_lt(key.as_slice(), k) {
            proof {
                lemma_insert_index_first(ps, k@, j as int);
            }
            return j;
        }
        j += 1;
    }
    proof {
        lemma_insert_index_first(ps, k@, j as int);
    }
    j
}

/// Sets the property `k` to `v` (see `prop_insert`).
pub fn props_insert(props: &mut Vec<(String, String)>, k: &[char], v: &[char])
    ensures
        pairs_view(final(props)@) == prop_insert(pairs_view(old(props)@), k@, v@),
{
    let ks = string_from(k);
    let vs = string_from(v);
    let ghost old_ps = pairs_view(props@);
    match find_key(props, k) {
        Some(i) => {
            props.set(i, (ks, vs));
            assert(pairs_view(props@) =~= old_ps.update(i as int, (k@, v@)));
        },
        None => {
            let q = find_insert_index(props, k);
            props.insert(q, (ks, vs));
            assert(pairs_view(props@) =~= old_ps.insert(q as int, (k@, v@)));
        },
    }
}

/// The value of property `key`, if present.
pub fn props_get<'a>(props: &'a Vec<(String, String)>, key: &str) -> (r: Option<&'a String>)
    ensures
        match r {
            Some(v) => prop_value(pairs_view(props@), key@) == Some(v@),
            None => prop_value(pairs_view(props@), key@) is None,
        },
{
    let kv = chars_of(key);
    match find_key(props, kv.as_slice()) {
        Some(i) => {
            proof {
                lemma_key_pos_range(pairs_view(props@), key@);
            }
            Some(&props[i].1)
        },
        None => None,
    }
}

/// Whether property `key` is present with exactly the value `value`.
pub fn props_value_is(props: &Vec<(String, String)>, key: &str, value: &str) -> (r: bool)
    ensures
        r == (prop_value(pairs_view(props@), key@) == Some(value@)),
{
    match props_get(props, key) {
        Some(v) => chars_eq_str(chars_of(v.as_str()).as_slice(), value),
        None => false,
    }
}

proof fn lemma_split_step(pre: Seq<Seq<char>>, s: Seq<char>, c: char, i: int)
    requires
        find(s, c) == Some(i),
        0 <= i < s.len(),
    ensures
        pre + split(s, c) == pre.push(s.take(i)) + split(s.skip(i + 1), c),
{
    assert(split(s, c) == seq![s.take(i)] + split(s.skip(i + 1), c));
    assert(pre + (seq![s.take(i)] + split(s.skip(i + 1), c)) =~= pre.push(s.take(i)) + split(
        s.skip(i + 1),
        c,
    ));
}

proof fn lemma_split_last(pre: Seq<Seq<char>>, s: Seq<char>, c: char)
    requires
        find(s, c) is None,
    ensures
        pre + split(s, c) == pre.push(s),
{
    assert(split(s, c) == seq![s]);
    assert(pre + seq![s] =~= pre.push(s));
}

proof fn lemma_items_push(items: Seq<Vec<char>>, x: Vec<char>)
    ensures
        items_view(items.push(x)) == items_view(items).push(x@),
{
    assert(items_view(items.push(x)) =~= items_view(items).push(x@));
}

/// The items of `v` separated by `c` (see `split`).
pub fn split_chars(v: &[char], c: char) -> (r: Vec<Vec<char>>)
    ensures
        items_view(r@) == split(v@, c),
{
    let mut items: Vec<Vec<char>> = Vec::new();
    let mut rest = slice_chars(v, 0, v.len());
    assert(rest@ == v@);
    loop
        invariant
            items_view(items@) + split(rest@, c) == split(v@, c),
        decreases rest@.len(),
    {
        match find_char(rest.as_slice(), c) {
            Some(i) => {
                let item = slice_chars(rest.as_slice(), 0, i);
                let next = slice_chars(rest.as_slice(), i + 1, rest.len());
                proof {
                    lemma_split_step(items_view(items@), rest@, c, i as int);
                    assert(item@ == rest@.take(i as int));
                    assert(next@ == rest@.skip(i + 1));
                    lemma_items_push(items@, item);
                }
                items.push(item);
                rest = next;
            },
            None => {
                proof {
                    lemma_split_last(items_view(items@), rest@, c);
                    lemma_items_push(items@, rest);
                }
                items.push(rest);
                return items;
            },
        }
    }
}

/// Properties of the `key=value` items (see `props_of_items`).
pub fn props_from_items(items: &Vec<Vec<char>>) -> (r: Vec<(String, String)>)
    ensures
        pairs_view(r@) == props_of_items(items_view(items@)),
{
    let mut props: Vec<(String, String)> = Vec::new();
    let mut i: usize = 0;
    while i < items.len()
        invariant
            i <= items.len(),
            pairs_view(props@) == props_of_items(items_view(items@).take(i as int)),
        decreases items.len() - i,
    {
        let item = items[i].as_slice();
        proof {
            assert(items_view(items@).take(i + 1).drop_last() =~= items_view(items@).take(i as int));
            assert(items_view(items@).take(i + 1).last() == item@);
        }
        match find_char(item, '=') {
            Some(e) => {
                let k = slice_chars(item, 0, e);
                let v = slice_chars(item, e + 1, item.len());
                let kt = trim_chars(k.as_slice());
                let vt = trim_chars(v.as_slice());
                props_insert(&mut props, kt.as_slice(), vt.as_slice());
            },
            None => {},
        }
        i += 1;
    }
    assert(items_view(items@).take(items.len() as int) =~= items_view(items@));
    props
}

/// Whether a block state text can be parsed (see `parse_ok`): when it has both
/// a `[` and a `]`, the last `]` comes after the first `[`.
pub fn state_text_parses(state_str: &str) -> (b: bool)
    ensures
        b == parse_ok(state_str@),
{
    let all = chars_of(state_str);
    let t = trim_chars(all.as_slice());
    match (find_char(t.as_slice(), '['), rfind_char(t.as_slice(), ']')) {
        (Some(o), Some(c)) => o < c,
        _ => true,
    }
}

/// Block name and properties of a block state string (see `parse_spec`).
///
/// The name keeps its case; the namespace before the last `:` is dropped.
pub fn parse_block_name_and_props(state_str: &str) -> (r: (String, Vec<(String, String)>))
    requires
        parse_ok(state_str@),
    ensures
        r.0@ == parse_spec(state_str@).0,
        pairs_view(r.1@) == parse_spec(state_str@).1,
{
    let all = chars_of(state_str);
    let t = trim_chars(all.as_slice());
    if t.len() == 0 {
        let name = string_from(chars_of("air").as_slice());
        let props: Vec<(String, String)> = Vec::new();
        assert(pairs_view(props@) =~= Seq::<(Seq<char>, Seq<char>)>::empty());
        return (name, props);
    }
    let open = find_char(t.as_slice(), '[');
    let close = rfind_char(t.as_slice(), ']');
    match (open, close) {
        (Some(o), Some(c)) => {
            let base = slice_chars(t.as_slice(), 0, o);
            let name = after_last_char(base.as_slice(), ':');
            let inner = slice_chars(t.as_slice(), o + 1, c);
            let items = split_chars(inner.as_slice(), ',');
            let props = props_from_items(&items);
            (string_from(name.as_slice()), props)
        },
        _ => {
            let name = after_last_char(t.as_slice(), ':');
            let props: Vec<(String, String)> = Vec::new();
            assert(pairs_view(props@) =~= Seq::<(Seq<char>, Seq<char>)>::empty());
            (string_from(name.as_slice()), props)
        },
    }
}

proof fn lemma_insert_index_props(ps: PropsView, k: Seq<char>)
    ensures
        0 <= insert_index(ps, k) <= ps.len(),
        forall|m: int| 0 <= m < insert_index(ps, k) ==> text_lt(ps[m].0, k),
        insert_index(ps, k) < ps.len() ==> !text_lt(ps[insert_index(ps, k)].0, k),
    decreases ps.len(),
{
    if ps.len() > 0 {
        let front = ps.drop_last();
        lemma_insert_index_props(front, k);
        assert forall|m: int| 0 <= m < front.len() implies front[m] == ps[m] by {}
    }
}

proof fn lemma_key_pos_none(ps: PropsView, k: Seq<char>, m: int)
    requires
        key_pos(ps, k) < 0,
        0 <= m < ps.len(),
    ensures
        ps[m].0 != k,
    decreases ps.len(),
{
    let front = ps.drop_last();
    if m < ps.len() - 1 {
        if key_pos(front, k) >= 0 {
            lemma_key_pos_range(front, k);
        }
        lemma_key_pos_none(front, k, m);
        assert(front[m] == ps[m]);
    }
}

/// Setting a property keeps the keys in strictly increasing order.
pub proof fn lemma_prop_insert_sorted(ps: PropsView, k: Seq<char>, v: Seq<char>)
    requires
        keys_sorted(ps),
    ensures
        keys_sorted(prop_insert(ps, k, v)),
{
    let p = key_pos(ps, k);
    lemma_key_pos_range(ps, k);
    let r = prop_insert(ps, k, v);
    if p >= 0 {
        assert forall|i: int, j: int| 0 <= i < j < r.len() implies text_lt(r[i].0, r[j].0) by {
            assert(r[i].0 == ps[i].0);
            assert(r[j].0 == ps[j].0);
        }
    } else {
        let q = insert_index(ps, k);
        lemma_insert_index_props(ps, k);
        assert forall|i: int, j: int| 0 <= i < j < r.len() implies text_lt(r[i].0, r[j].0) by {
            if j < q {
                assert(r[i] == ps[i] && r[j] == ps[j]);
            } else if j == q {
                assert(r[i] == ps[i]);
            } else if i == q {
                assert(r[j] == ps[j - 1]);
                lemma_key_pos_none(ps, k, q);
                lemma_text_lt_strict_total(ps[q].0, k);
                if j - 1 > q {
                    lemma_text_lt_transitive(k, ps[q].0, ps[j - 1].0);
                }
            } else if i < q {
                assert(r[i] == ps[i] && r[j] == ps[j - 1]);
            } else {
                assert(r[i] == ps[i - 1] && r[j] == ps[j - 1]);
            }
        }
    }
}

/// After setting `k` to `v`, looking `k` up gives `v`.
pub proof fn lemma_prop_insert_get(ps: PropsView, k: Seq<char>, v: Seq<char>)
    ensures
        prop_value(prop_insert(ps, k, v), k) == Some(v),
{
    let p = key_pos(ps, k);
    lemma_key_pos_range(ps, k);
    let r = prop_insert(ps, k, v);
    if p >= 0 {
        lemma_key_pos_first_index(ps, k);
        assert forall|m: int| 0 <= m < p implies r[m].0 != k by {
            assert(r[m] == ps[m]);
        }
        lemma_key_pos_first(r, k, p);
    } else {
        let q = insert_index(ps, k);
        lemma_insert_index_props(ps, k);
        assert forall|m: int| 0 <= m < q implies r[m].0 != k by {
            assert(r[m] == ps[m]);
            lemma_key_pos_none(ps, k, m);
        }
        lemma_key_pos_first(r, k, q);
    }
}

proof fn lemma_key_pos_first_index(ps: PropsView, k: Seq<char>)
    requires
        key_pos(ps, k) >= 0,
    ensures
        forall|m: int| 0 <= m < key_pos(ps, k) ==> ps[m].0 != k,
    decreases ps.len(),
{
    let front = ps.drop_last();
    if key_pos(front, k) >= 0 {
        lemma_key_pos_first_index(front, k);
        lemma_key_pos_range(front, k);
        assert forall|m: int| 0 <= m < key_pos(ps, k) implies ps[m].0 != k by {
            assert(front[m] == ps[m]);
        }
    } else {
        assert(key_pos(ps, k) == ps.len() - 1);
        assert forall|m: int| 0 <= m < key_pos(ps, k) implies ps[m].0 != k by {
            lemma_key_pos_none(front, k, m);
            assert(front[m] == ps[m]);
        }
    }
}

/// Setting `k` leaves the value of every other key as it was.
pub proof fn lemma_prop_insert_other(ps: PropsView, k: Seq<char>, v: Seq<char>, k2: Seq<char>)
    requires
        k2 != k,
    ensures
        prop_value(prop_insert(ps, k, v), k2) == prop_value(ps, k2),
{
    let p = key_pos(ps, k);
    lemma_key_pos_range(ps, k);
    lemma_key_pos_range(ps, k2);
    let r = prop_insert(ps, k, v);
    let p2 = key_pos(ps, k2);
    if p >= 0 {
        if p2 >= 0 {
            lemma_key_pos_first_index(ps, k2);
            assert forall|m: int| 0 <= m < p2 implies r[m].0 != k2 by {
                assert(r[m].0 == ps[m].0);
            }
            assert(r[p2] == ps[p2]);
            lemma_key_pos_first(r, k2, p2);
        } else {
            assert forall|m: int| 0 <= m < r.len() implies r[m].0 != k2 by {
                if m != p {
                    lemma_key_pos_none(ps, k2, m);
                }
            }
            lemma_key_pos_first(r, k2, r.len() as int);
        }
    } else {
        let q = insert_index(ps, k);
        lemma_insert_index_props(ps, k);
        if p2 >= 0 {
            lemma_key_pos_first_index(ps, k2);
            let j = if p2 < q { p2 } else { p2 + 1 };
            assert forall|m: int| 0 <= m < j implies r[m].0 != k2 by {
                if m < q {
                    assert(r[m] == ps[m]);
                } else if m > q {
                    assert(r[m] == ps[m - 1]);
                }
            }
            assert(r[j] == ps[p2]);
            lemma_key_pos_first(r, k2, j);
        } else {
            assert forall|m: int| 0 <= m < r.len() implies r[m].0 != k2 by {
                if m < q {
                    lemma_key_pos_none(ps, k2, m);
                    assert(r[m] == ps[m]);
                } else if m > q {
                    lemma_key_pos_none(ps, k2, m - 1);
                    assert(r[m] == ps[m - 1]);
                }
            }
            lemma_key_pos_first(r, k2, r.len() as int);
        }
    }
}

/// Parsed properties have their keys in strictly increasing order, each key
/// once.
pub proof fn lemma_parsed_props_sorted(items: Seq<Seq<char>>)
    ensures
        keys_sorted(props_of_items(items)),
    decreases items.len(),
{
    if items.len() > 0 {
        lemma_parsed_props_sorted(items.drop_last());
        match split_once(items.last(), '=') {
            Some(kv) => lemma_prop_insert_sorted(props_of_items(items.drop_last()), trim(kv.0), trim(kv.1)),
            None => {},
        }
    }
}

} // verus!
