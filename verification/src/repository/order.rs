//! The order in which the store walks its keys, and the keys that record ids are stored under.

use vstd::arithmetic::div_mod::lemma_div_denominator;
use vstd::prelude::*;

verus! {

/// What an ordered log holds: pairs of key and value.
pub type Entries = Seq<(Seq<u8>, Seq<u8>)>;

/// `a` sorts before `b` when byte strings are compared byte by byte: the first
/// byte in which they differ decides, and a proper prefix sorts before every
/// string that continues it.
pub open spec fn lex_lt(a: Seq<u8>, b: Seq<u8>) -> bool
    decreases a.len(),
{
    if b.len() == 0 {
        false
    } else if a.len() == 0 {
        true
    } else if a[0] != b[0] {
        a[0] < b[0]
    } else {
        lex_lt(a.drop_first(), b.drop_first())
    }
}

/// `a` sorts before `b` or is `b`.
pub open spec fn lex_le(a: Seq<u8>, b: Seq<u8>) -> bool {
    a == b || lex_lt(a, b)
}

/// The keys of `s` rise strictly from each entry to the next.
pub open spec fn ascending(s: Entries) -> bool {
    forall|i: int, j: int| 0 <= i < j < s.len() ==> lex_lt(#[trigger] s[i].0, #[trigger] s[j].0)
}

/// Some entry of `s` stands under `key`.
pub open spec fn has_key(s: Entries, key: Seq<u8>) -> bool {
    exists|i: int| 0 <= i < s.len() && (#[trigger] s[i]).0 == key
}

/// The test that an entry's key sorts before `key`.
pub open spec fn sorts_before(key: Seq<u8>) -> spec_fn((Seq<u8>, Seq<u8>)) -> bool {
    |e: (Seq<u8>, Seq<u8>)| lex_lt(e.0, key)
}

/// The test that an entry's key sorts after `key`.
pub open spec fn sorts_after(key: Seq<u8>) -> spec_fn((Seq<u8>, Seq<u8>)) -> bool {
    |e: (Seq<u8>, Seq<u8>)| lex_lt(key, e.0)
}

/// The test that an entry's key is another than `key`.
pub open spec fn not_under(key: Seq<u8>) -> spec_fn((Seq<u8>, Seq<u8>)) -> bool {
    |e: (Seq<u8>, Seq<u8>)| e.0 != key
}

/// The entries of `s` that sort before `key`, then `key` with `value`, then
/// the entries of `s` that sort after `key`.
pub open spec fn with_entry(s: Entries, key: Seq<u8>, value: Seq<u8>) -> Entries {
    s.filter(sorts_before(key)).push((key, value)) + s.filter(sorts_after(key))
}

/// The entries of `s` but the one under `key`.
pub open spec fn without_key(s: Entries, key: Seq<u8>) -> Entries {
    s.filter(not_under(key))
}

/// No byte string sorts before itself.
pub proof fn lemma_lex_irreflexive(a: Seq<u8>)
    ensures
        !lex_lt(a, a),
    decreases a.len(),
{
    if a.len() > 0 {
        lemma_lex_irreflexive(a.drop_first());
    }
}

/// Of two byte strings at most one sorts before the other.
pub proof fn lemma_lex_asymmetric(a: Seq<u8>, b: Seq<u8>)
    requires
        lex_lt(a, b),
    ensures
        !lex_lt(b, a),
    decreases a.len(),
{
    if a.len() > 0 && b.len() > 0 && a[0] == b[0] {
        lemma_lex_asymmetric(a.drop_first(), b.drop_first());
    }
}

/// Sorting before is passed along a chain.
pub proof fn lemma_lex_transitive(a: Seq<u8>, b: Seq<u8>, c: Seq<u8>)
    requires
        lex_lt(a, b),
        lex_lt(b, c),
    ensures
        lex_lt(a, c),
    decreases a.len(),
{
    if a.len() > 0 && b.len() > 0 && c.len() > 0 && a[0] == b[0] && b[0] == c[0] {
        lemma_lex_transitive(a.drop_first(), b.drop_first(), c.drop_first());
    }
}

/// Two different byte strings are always ordered, one way or the other.
pub proof fn lemma_lex_total(a: Seq<u8>, b: Seq<u8>)
    ensures
        lex_lt(a, b) || a == b || lex_lt(b, a),
    decreases a.len(),
{
    if a.len() == 0 || b.len() == 0 {
        if a.len() == 0 && b.len() == 0 {
            assert(a =~= b);
        }
    } else if a[0] == b[0] {
        lemma_lex_total(a.drop_first(), b.drop_first());
        if a.drop_first() == b.drop_first() {
            assert(a =~= seq![a[0]] + a.drop_first());
            assert(b =~= seq![b[0]] + b.drop_first());
        }
    }
}

/// The key under which the record with this id is stored: the eight bytes of
/// the id, most significant first.
pub open spec fn key_bytes(id: u64) -> Seq<u8> {
    seq![
        (id / 0x100_0000_0000_0000) as u8,
        ((id / 0x1_0000_0000_0000) % 0x100) as u8,
        ((id / 0x100_0000_0000) % 0x100) as u8,
        ((id / 0x1_0000_0000) % 0x100) as u8,
        ((id / 0x100_0000) % 0x100) as u8,
        ((id / 0x1_0000) % 0x100) as u8,
        ((id / 0x100) % 0x100) as u8,
        (id % 0x100) as u8,
    ]
}

/// Builds the key of a record id.
pub fn record_key(id: u64) -> (key: Vec<u8>)
    ensures
        key@ == key_bytes(id),
{
    let mut key: Vec<u8> = Vec::new();
    key.push((id / 0x100_0000_0000_0000) as u8);
    key.push(((id / 0x1_0000_0000_0000) % 0x100) as u8);
    key.push(((id / 0x100_0000_0000) % 0x100) as u8);
    key.push(((id / 0x1_0000_0000) % 0x100) as u8);
    key.push(((id / 0x100_0000) % 0x100) as u8);
    key.push(((id / 0x1_0000) % 0x100) as u8);
    key.push(((id / 0x100) % 0x100) as u8);
    key.push((id % 0x100) as u8);
    assert(key@ =~= key_bytes(id));
    key
}

/// Where byte strings of one length are compared from `from` on, the first
/// place in which they differ decides.
proof fn lemma_lex_from(a: Seq<u8>, b: Seq<u8>, from: int)
    requires
        a.len() == b.len(),
        0 <= from <= a.len(),
    ensures
        lex_lt(a.subrange(from, a.len() as int), b.subrange(from, b.len() as int)) <==> exists|i: int|
            from <= i < a.len() && a[i] < b[i] && forall|j: int| from <= j < i ==> a[j] == b[j],
    decreases a.len() - from,
{
    let ta = a.subrange(from, a.len() as int);
    let tb = b.subrange(from, b.len() as int);
    if from < a.len() {
        lemma_lex_from(a, b, from + 1);
        assert(ta.drop_first() =~= a.subrange(from + 1, a.len() as int));
        assert(tb.drop_first() =~= b.subrange(from + 1, b.len() as int));
        assert(ta[0] == a[from] && tb[0] == b[from]);
        if a[from] != b[from] {
            if a[from] < b[from] {
                assert(from <= from < a.len() && a[from] < b[from] && forall|j: int|
                    from <= j < from ==> a[j] == b[j]);
            }
        } else {
            if lex_lt(ta, tb) {
                let i = choose|i: int|
                    from + 1 <= i < a.len() && a[i] < b[i] && forall|j: int|
                        from + 1 <= j < i ==> a[j] == b[j];
                assert(from <= i < a.len() && a[i] < b[i] && forall|j: int|
                    from <= j < i ==> a[j] == b[j]);
            }
        }
    }
}

/// The value of eight bytes read as one number, most significant byte first.
spec fn be_value(k: Seq<u8>) -> int {
    k[0] * 0x100_0000_0000_0000 + k[1] * 0x1_0000_0000_0000 + k[2] * 0x100_0000_0000 + k[3]
        * 0x1_0000_0000 + k[4] * 0x100_0000 + k[5] * 0x1_0000 + k[6] * 0x100 + k[7]
}

proof fn lemma_key_value(id: u64)
    ensures
        key_bytes(id).len() == 8,
        be_value(key_bytes(id)) == id,
{
    let x = id as int;
    let q1 = x / 0x100;
    let q2 = q1 / 0x100;
    let q3 = q2 / 0x100;
    let q4 = q3 / 0x100;
    let q5 = q4 / 0x100;
    let q6 = q5 / 0x100;
    let q7 = q6 / 0x100;
    lemma_div_denominator(x, 0x100, 0x100);
    lemma_div_denominator(x, 0x1_0000, 0x100);
    lemma_div_denominator(x, 0x100_0000, 0x100);
    lemma_div_denominator(x, 0x1_0000_0000, 0x100);
    lemma_div_denominator(x, 0x100_0000_0000, 0x100);
    lemma_div_denominator(x, 0x1_0000_0000_0000, 0x100);
    assert(q2 == x / 0x1_0000);
    assert(q3 == x / 0x100_0000);
    assert(q4 == x / 0x1_0000_0000);
    assert(q5 == x / 0x100_0000_0000);
    assert(q6 == x / 0x1_0000_0000_0000);
    assert(q7 == x / 0x100_0000_0000_0000);
    assert(q7 < 0x100);
}

/// Keys sort as the ids they stand for, and no two ids share a key.
pub proof fn lemma_key_order(a: u64, b: u64)
    ensures
        lex_lt(key_bytes(a), key_bytes(b)) <==> a < b,
        key_bytes(a) == key_bytes(b) <==> a == b,
{
    let ka = key_bytes(a);
    let kb = key_bytes(b);
    lemma_key_value(a);
    lemma_key_value(b);
    lemma_lex_from(ka, kb, 0);
    lemma_lex_from(kb, ka, 0);
    assert(ka.subrange(0, 8) =~= ka);
    assert(kb.subrange(0, 8) =~= kb);
    lemma_lex_total(ka, kb);
    if lex_lt(ka, kb) {
        lemma_lex_asymmetric(ka, kb);
        let i = choose|i: int|
            0 <= i < 8 && ka[i] < kb[i] && forall|j: int| 0 <= j < i ==> ka[j] == kb[j];
        assert(forall|j: int| 0 <= j < i ==> ka[j] == kb[j]);
        assert(a < b);
    } else if lex_lt(kb, ka) {
        let i = choose|i: int|
            0 <= i < 8 && kb[i] < ka[i] && forall|j: int| 0 <= j < i ==> kb[j] == ka[j];
        assert(forall|j: int| 0 <= j < i ==> kb[j] == ka[j]);
        assert(b < a);
    } else {
        lemma_lex_irreflexive(ka);
        assert(a == b);
    }
}

/// Where a test holds of the entries before `p` and from `q` on, and of none
/// between, filtering by it leaves the entries before `p` and from `q` on.
proof fn lemma_filter_gap(s: Entries, pred: spec_fn((Seq<u8>, Seq<u8>)) -> bool, p: int, q: int)
    requires
        0 <= p <= q <= s.len(),
        forall|i: int| 0 <= i < p ==> pred(#[trigger] s[i]),
        forall|i: int| p <= i < q ==> !pred(#[trigger] s[i]),
        forall|i: int| q <= i < s.len() ==> pred(#[trigger] s[i]),
    ensures
        s.filter(pred) == s.take(p) + s.skip(q),
    decreases s.len(),
{
    if s.len() == 0 {
        reveal(Seq::filter);
        assert(s.filter(pred) =~= s.take(p) + s.skip(q));
    } else {
        let t = s.drop_last();
        let last = s.last();
        assert(s =~= t.push(last));
        t.lemma_filter_push(last, pred);
        if q == s.len() {
            if p == s.len() {
                lemma_filter_gap(t, pred, p - 1, q - 1);
                assert(pred(s[s.len() - 1]));
                assert(t.filter(pred).push(last) =~= s.take(p) + s.skip(q));
            } else {
                lemma_filter_gap(t, pred, p, q - 1);
                assert(!pred(s[s.len() - 1]));
                assert(t.filter(pred) =~= s.take(p) + s.skip(q));
            }
        } else {
            lemma_filter_gap(t, pred, p, q);
            assert(pred(s[s.len() - 1]));
            assert(t.filter(pred).push(last) =~= s.take(p) + s.skip(q));
        }
    }
}

/// How many entries of `s` sort before `key`, where `s` rises.
pub open spec fn rank(s: Entries, key: Seq<u8>) -> int
    decreases s.len(),
{
    if s.len() == 0 {
        0
    } else if lex_lt(s.last().0, key) {
        s.len() as int
    } else {
        rank(s.drop_last(), key)
    }
}

/// Where the entries that do not sort before `key`, nor stand under it, begin.
pub open spec fn rank_after(s: Entries, key: Seq<u8>) -> int {
    if rank(s, key) < s.len() && s[rank(s, key)].0 == key {
        rank(s, key) + 1
    } else {
        rank(s, key)
    }
}

/// In a rising list the entries before `rank` are those that sort before
/// `key`, the entries from `rank_after` on are those that sort after it, and
/// what stands between, one entry at most, stands under `key`.
pub proof fn lemma_rank(s: Entries, key: Seq<u8>)
    requires
        ascending(s),
    ensures
        0 <= rank(s, key) <= rank_after(s, key) <= s.len(),
        forall|i: int| 0 <= i < rank(s, key) ==> lex_lt((#[trigger] s[i]).0, key),
        forall|i: int| rank(s, key) <= i < s.len() ==> !lex_lt((#[trigger] s[i]).0, key),
        forall|i: int| rank_after(s, key) <= i < s.len() ==> lex_lt(key, (#[trigger] s[i]).0),
        forall|i: int| 0 <= i < rank_after(s, key) ==> !lex_lt(key, (#[trigger] s[i]).0),
        forall|i: int| 0 <= i < s.len() ==> ((#[trigger] s[i]).0 == key <==> rank(s, key) <= i < rank_after(s, key)),
        has_key(s, key) <==> rank(s, key) < rank_after(s, key),
    decreases s.len(),
{
    if s.len() > 0 {
        let t = s.drop_last();
        assert(forall|i: int| 0 <= i < t.len() ==> t[i] == s[i]);
        lemma_rank(t, key);
        let r = rank(s, key);
        if lex_lt(s.last().0, key) {
            assert forall|i: int| 0 <= i < r implies lex_lt((#[trigger] s[i]).0, key) by {
                if i < s.len() - 1 {
                    lemma_lex_transitive(s[i].0, s[s.len() - 1].0, key);
                }
            }
        }
        assert forall|i: int| r <= i < s.len() implies !lex_lt((#[trigger] s[i]).0, key) by {}
        assert forall|i: int| 0 <= i < s.len() implies ((#[trigger] s[i]).0 == key <==> r <= i
            < rank_after(s, key)) by {
            lemma_lex_irreflexive(key);
            if s[i].0 == key && r < s.len() && i != r {
                if r < i {
                    lemma_lex_total(s[r].0, key);
                    lemma_lex_asymmetric(s[r].0, s[i].0);
                }
            }
            if s[i].0 != key && r < s.len() && i == r {
            }
        }
        assert forall|i: int| rank_after(s, key) <= i < s.len() implies lex_lt(
            key,
            (#[trigger] s[i]).0,
        ) by {
            lemma_lex_total(s[i].0, key);
        }
        assert forall|i: int| 0 <= i < rank_after(s, key) implies !lex_lt(
            key,
            (#[trigger] s[i]).0,
        ) by {
            if i < r {
                lemma_lex_asymmetric(s[i].0, key);
            } else {
                lemma_lex_irreflexive(key);
            }
        }
        if has_key(s, key) {
            let i = choose|i: int| 0 <= i < s.len() && (#[trigger] s[i]).0 == key;
            assert(r <= i < rank_after(s, key));
        }
        if r < rank_after(s, key) {
            assert(s[r].0 == key);
        }
    }
}

/// In a rising list, putting a value under a key keeps what sorts before the
/// key, then has the new entry, then keeps what sorts after the key.
pub proof fn lemma_with_entry_shape(s: Entries, key: Seq<u8>, value: Seq<u8>)
    requires
        ascending(s),
    ensures
        with_entry(s, key, value) == s.take(rank(s, key)).push((key, value)) + s.skip(
            rank_after(s, key),
        ),
{
    lemma_rank(s, key);
    lemma_filter_gap(s, sorts_before(key), rank(s, key), s.len() as int);
    lemma_filter_gap(s, sorts_after(key), 0, rank_after(s, key));
    assert(s.take(rank(s, key)) + s.skip(s.len() as int) =~= s.take(rank(s, key)));
    assert(s.take(0) + s.skip(rank_after(s, key)) =~= s.skip(rank_after(s, key)));
}

/// In a rising list, taking a key out keeps what sorts before the key and
/// what sorts after it.
pub proof fn lemma_without_key_shape(s: Entries, key: Seq<u8>)
    requires
        ascending(s),
    ensures
        without_key(s, key) == s.take(rank(s, key)) + s.skip(rank_after(s, key)),
{
    lemma_rank(s, key);
    lemma_filter_gap(s, not_under(key), rank(s, key), rank_after(s, key));
}

/// A key that sorts after every key of a rising list goes to its end.
pub proof fn lemma_with_newest_entry(s: Entries, key: Seq<u8>, value: Seq<u8>)
    requires
        ascending(s),
        forall|i: int| 0 <= i < s.len() ==> lex_lt((#[trigger] s[i]).0, key),
    ensures
        with_entry(s, key, value) == s.push((key, value)),
{
    lemma_rank(s, key);
    lemma_with_entry_shape(s, key, value);
    if rank(s, key) < s.len() {
        assert(!lex_lt(s[rank(s, key)].0, key));
    }
    assert(s.take(s.len() as int).push((key, value)) + s.skip(s.len() as int) =~= s.push(
        (key, value),
    ));
}

/// Taking the first key out of a rising list leaves the rest of the list.
pub proof fn lemma_without_first(s: Entries)
    requires
        ascending(s),
        s.len() > 0,
    ensures
        without_key(s, s[0].0) == s.skip(1),
{
    let key = s[0].0;
    lemma_rank(s, key);
    lemma_without_key_shape(s, key);
    assert(s[0].0 == key);
    assert(rank(s, key) == 0);
    assert(s.take(0) + s.skip(1) =~= s.skip(1));
}

/// Putting a value under a key keeps a rising list rising.
pub proof fn lemma_with_entry_ascending(s: Entries, key: Seq<u8>, value: Seq<u8>)
    requires
        ascending(s),
    ensures
        ascending(with_entry(s, key, value)),
{
    lemma_rank(s, key);
    lemma_with_entry_shape(s, key, value);
    let n = with_entry(s, key, value);
    let r = rank(s, key);
    let q = rank_after(s, key);
    assert forall|i: int, j: int| 0 <= i < j < n.len() implies lex_lt(
        #[trigger] n[i].0,
        #[trigger] n[j].0,
    ) by {
        if j < r {
            assert(n[i] == s[i] && n[j] == s[j]);
        } else if j == r {
            assert(n[i] == s[i]);
        } else if i < r {
            assert(n[i] == s[i] && n[j] == s[j - r - 1 + q]);
        } else if i == r {
            assert(n[j] == s[j - r - 1 + q]);
        } else {
            assert(n[i] == s[i - r - 1 + q] && n[j] == s[j - r - 1 + q]);
        }
    }
}

/// Taking a key out keeps a rising list rising.
pub proof fn lemma_without_key_ascending(s: Entries, key: Seq<u8>)
    requires
        ascending(s),
    ensures
        ascending(without_key(s, key)),
{
    lemma_rank(s, key);
    lemma_without_key_shape(s, key);
    let n = without_key(s, key);
    let r = rank(s, key);
    let q = rank_after(s, key);
    assert forall|i: int, j: int| 0 <= i < j < n.len() implies lex_lt(
        #[trigger] n[i].0,
        #[trigger] n[j].0,
    ) by {
        if j < r {
            assert(n[i] == s[i] && n[j] == s[j]);
        } else if i < r {
            assert(n[i] == s[i] && n[j] == s[j - r + q]);
        } else {
            assert(n[i] == s[i - r + q] && n[j] == s[j - r + q]);
        }
    }
}

/// The value that stands under `key` in a rising list, if one does.
pub open spec fn value_under(s: Entries, key: Seq<u8>) -> Option<Seq<u8>> {
    if has_key(s, key) {
        Some(s[rank(s, key)].1)
    } else {
        None
    }
}

/// In a rising list an entry is the one that stands under its key.
pub proof fn lemma_value_under(s: Entries, key: Seq<u8>, value: Seq<u8>)
    requires
        ascending(s),
    ensures
        s.contains((key, value)) <==> value_under(s, key) == Some(value),
{
    lemma_rank(s, key);
    if s.contains((key, value)) {
        let i = choose|i: int| 0 <= i < s.len() && s[i] == (key, value);
        assert(s[i].0 == key);
    }
    if value_under(s, key) == Some(value) {
        assert(s[rank(s, key)] == (key, value));
    }
}

/// After a value is put under a key, it is what stands under that key, and
/// every other key has what it had.
pub proof fn lemma_with_entry_values(s: Entries, key: Seq<u8>, value: Seq<u8>, other: Seq<u8>)
    requires
        ascending(s),
    ensures
        value_under(with_entry(s, key, value), key) == Some(value),
        other != key ==> value_under(with_entry(s, key, value), other) == value_under(s, other),
{
    let n = with_entry(s, key, value);
    lemma_with_entry_ascending(s, key, value);
    lemma_with_entry_shape(s, key, value);
    lemma_rank(s, key);
    let r = rank(s, key);
    let q = rank_after(s, key);
    assert(n[r] == (key, value));
    lemma_value_under(n, key, value);
    if other != key {
        lemma_rank(s, other);
        lemma_rank(n, other);
        if has_key(s, other) {
            let i = rank(s, other);
            let v = s[i].1;
            assert(s[i].0 == other);
            if i < r {
                assert(n[i] == s[i]);
            } else {
                assert(i >= q);
                assert(n[i - q + r + 1] == s[i]);
            }
            assert(n.contains((other, v)));
            lemma_value_under(n, other, v);
        } else if has_key(n, other) {
            let j = rank(n, other);
            assert(n[j].0 == other);
            if j < r {
                assert(n[j] == s[j]);
            } else {
                assert(n[j] == s[j - r - 1 + q]);
            }
        }
    }
}

/// After a key is taken out, nothing stands under it, and every other key
/// has what it had.
pub proof fn lemma_without_key_values(s: Entries, key: Seq<u8>, other: Seq<u8>)
    requires
        ascending(s),
    ensures
        value_under(without_key(s, key), key) is None,
        other != key ==> value_under(without_key(s, key), other) == value_under(s, other),
{
    let n = without_key(s, key);
    lemma_without_key_ascending(s, key);
    lemma_without_key_shape(s, key);
    lemma_rank(s, key);
    let r = rank(s, key);
    let q = rank_after(s, key);
    if has_key(n, key) {
        let j = choose|j: int| 0 <= j < n.len() && (#[trigger] n[j]).0 == key;
        if j < r {
            assert(n[j] == s[j]);
        } else {
            assert(n[j] == s[j - r + q]);
        }
    }
    if other != key {
        lemma_rank(s, other);
        lemma_rank(n, other);
        if has_key(s, other) {
            let i = rank(s, other);
            let v = s[i].1;
            assert(s[i].0 == other);
            if i < r {
                assert(n[i] == s[i]);
            } else {
                assert(i >= q);
                assert(n[i - q + r] == s[i]);
            }
            assert(n.contains((other, v)));
            lemma_value_under(n, other, v);
        } else if has_key(n, other) {
            let j = rank(n, other);
            assert(n[j].0 == other);
            if j < r {
                assert(n[j] == s[j]);
            } else {
                assert(n[j] == s[j - r + q]);
            }
        }
    }
}

/// The `n` last entries of `s`, the last one first; all of them where `s`
/// has no more than `n`.
pub open spec fn newest(s: Entries, n: nat) -> Entries {
    Seq::new(
        if n <= s.len() {
            n
        } else {
            s.len()
        },
        |i: int| s[s.len() - 1 - i],
    )
}

/// In a rising list, the entry with the greatest key before the key at
/// `pos` is the entry before `pos`.
pub proof fn lemma_entry_before(s: Entries, pos: int, found: (Seq<u8>, Seq<u8>))
    requires
        ascending(s),
        0 <= pos < s.len(),
        s.contains(found),
        lex_lt(found.0, s[pos].0),
        forall|i: int|
            0 <= i < s.len() && lex_lt((#[trigger] s[i]).0, s[pos].0) ==> lex_le(s[i].0, found.0),
    ensures
        pos > 0,
        found == s[pos - 1],
{
    let j = choose|j: int| 0 <= j < s.len() && s[j] == found;
    lemma_lex_irreflexive(s[pos].0);
    if j > pos {
        lemma_lex_asymmetric(s[pos].0, s[j].0);
    }
    if j < pos - 1 {
        assert(lex_lt(s[pos - 1].0, s[pos].0));
        assert(lex_le(s[pos - 1].0, found.0));
        lemma_lex_irreflexive(s[j].0);
        lemma_lex_asymmetric(s[j].0, s[pos - 1].0);
    }
}

/// In a rising list, a key with no key before it is the first.
pub proof fn lemma_no_entry_before(s: Entries, pos: int)
    requires
        ascending(s),
        0 <= pos < s.len(),
        forall|i: int| 0 <= i < s.len() ==> !lex_lt((#[trigger] s[i]).0, s[pos].0),
    ensures
        pos == 0,
{
    if pos > 0 {
        assert(lex_lt(s[0].0, s[pos].0));
    }
}

/// In a rising list, the entry with the least key after the key at `pos` is
/// the entry after `pos`.
pub proof fn lemma_entry_after(s: Entries, pos: int, found: (Seq<u8>, Seq<u8>))
    requires
        ascending(s),
        0 <= pos < s.len(),
        s.contains(found),
        lex_lt(s[pos].0, found.0),
        forall|i: int|
            0 <= i < s.len() && lex_lt(s[pos].0, (#[trigger] s[i]).0) ==> lex_le(found.0, s[i].0),
    ensures
        pos + 1 < s.len(),
        found == s[pos + 1],
{
    let j = choose|j: int| 0 <= j < s.len() && s[j] == found;
    lemma_lex_irreflexive(s[pos].0);
    if j < pos {
        lemma_lex_asymmetric(s[j].0, s[pos].0);
    }
    if j > pos + 1 {
        assert(lex_lt(s[pos].0, s[pos + 1].0));
        assert(lex_le(found.0, s[pos + 1].0));
        lemma_lex_irreflexive(s[j].0);
        lemma_lex_asymmetric(s[pos + 1].0, s[j].0);
    }
}

/// In a rising list, a key with no key after it is the last.
pub proof fn lemma_no_entry_after(s: Entries, pos: int)
    requires
        ascending(s),
        0 <= pos < s.len(),
        forall|i: int| 0 <= i < s.len() ==> !lex_lt(s[pos].0, (#[trigger] s[i]).0),
    ensures
        pos == s.len() - 1,
{
    if pos < s.len() - 1 {
        assert(lex_lt(s[pos].0, s[s.len() - 1].0));
    }
}

} // verus!
