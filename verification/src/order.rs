//! The order in which mount points are restored: strings compared byte by
//! byte in their UTF-8 form, a proper prefix before what it is a prefix of.

use vstd::prelude::*;
use vstd::utf8::{encode_scalar, encode_utf8, encode_utf8_decode_utf8};
use crate::text::{lemma_take_next, views};

verus! {

/// `a` comes before `b` in the lexicographic order of bytes.
pub open spec fn bytes_lt(a: Seq<u8>, b: Seq<u8>) -> bool
    decreases a.len(),
{
    if b.len() == 0 {
        false
    } else if a.len() == 0 {
        true
    } else if a[0] != b[0] {
        a[0] < b[0]
    } else {
        bytes_lt(a.drop_first(), b.drop_first())
    }
}

/// `a` comes before `b`: the order of strings.
pub open spec fn precedes(a: Seq<char>, b: Seq<char>) -> bool {
    bytes_lt(encode_utf8(a), encode_utf8(b))
}

/// Each text comes before all that follow it, so none occurs twice.
pub open spec fn strictly_ascending(s: Seq<Seq<char>>) -> bool {
    forall|i: int, j: int| 0 <= i < j < s.len() ==> precedes(#[trigger] s[i], #[trigger] s[j])
}

pub proof fn lemma_bytes_irreflexive(a: Seq<u8>)
    ensures
        !bytes_lt(a, a),
    decreases a.len(),
{
    if a.len() > 0 {
        lemma_bytes_irreflexive(a.drop_first());
    }
}

pub proof fn lemma_bytes_transitive(a: Seq<u8>, b: Seq<u8>, c: Seq<u8>)
    requires
        bytes_lt(a, b),
        bytes_lt(b, c),
    ensures
        bytes_lt(a, c),
    decreases a.len(),
{
    if a.len() > 0 && a[0] == b[0] && b[0] == c[0] {
        lemma_bytes_transitive(a.drop_first(), b.drop_first(), c.drop_first());
    }
}

pub proof fn lemma_bytes_total(a: Seq<u8>, b: Seq<u8>)
    ensures
        a == b || bytes_lt(a, b) || bytes_lt(b, a),
    decreases a.len(),
{
    if a.len() > 0 && b.len() > 0 && a[0] == b[0] {
        lemma_bytes_total(a.drop_first(), b.drop_first());
        if a.drop_first() == b.drop_first() {
            assert(a =~= seq![a[0]] + a.drop_first());
        }
    }
}

/// The order is strict: nothing comes before itself.
pub proof fn lemma_precedes_irreflexive(a: Seq<char>)
    ensures
        !precedes(a, a),
{
    lemma_bytes_irreflexive(encode_utf8(a));
}

/// The order is transitive.
pub proof fn lemma_precedes_transitive(a: Seq<char>, b: Seq<char>, c: Seq<char>)
    requires
        precedes(a, b),
        precedes(b, c),
    ensures
        precedes(a, c),
{
    lemma_bytes_transitive(encode_utf8(a), encode_utf8(b), encode_utf8(c));
}

/// The order is total: of two different texts one comes before the other.
pub proof fn lemma_precedes_total(a: Seq<char>, b: Seq<char>)
    ensures
        a == b || precedes(a, b) || precedes(b, a),
{
    lemma_bytes_total(encode_utf8(a), encode_utf8(b));
    if encode_utf8(a) == encode_utf8(b) {
        encode_utf8_decode_utf8(a);
        encode_utf8_decode_utf8(b);
    }
}

/// Of two texts at most one comes before the other.
pub proof fn lemma_precedes_asymmetric(a: Seq<char>, b: Seq<char>)
    requires
        precedes(a, b),
    ensures
        !precedes(b, a),
{
    if precedes(b, a) {
        lemma_precedes_transitive(a, b, a);
        lemma_precedes_irreflexive(a);
    }
}

/// The bytes of two texts, one after the other, are the bytes of the first
/// followed by the bytes of the second.
pub proof fn lemma_encode_concat(a: Seq<char>, b: Seq<char>)
    ensures
        encode_utf8(a + b) == encode_utf8(a) + encode_utf8(b),
    decreases a.len(),
{
    if a.len() > 0 {
        lemma_encode_concat(a.drop_first(), b);
        assert((a + b).drop_first() == a.drop_first() + b);
        assert(encode_utf8(a + b) == encode_scalar(a[0] as u32) + (encode_utf8(a.drop_first())
            + encode_utf8(b)));
    }
}

proof fn lemma_bytes_prefix(x: Seq<u8>, y: Seq<u8>)
    requires
        y.len() > 0,
    ensures
        bytes_lt(x, x + y),
    decreases x.len(),
{
    if x.len() > 0 {
        lemma_bytes_prefix(x.drop_first(), y);
        assert((x + y).drop_first() == x.drop_first() + y);
    }
}

/// A text comes before every text that it is a proper prefix of. So a mount
/// point comes before the mount points below it, whose paths begin with its
/// own.
pub proof fn lemma_prefix_precedes(a: Seq<char>, rest: Seq<char>)
    requires
        rest.len() > 0,
    ensures
        precedes(a, a + rest),
{
    lemma_encode_concat(a, rest);
    assert(encode_utf8(rest).len() > 0);
    lemma_bytes_prefix(encode_utf8(a), encode_utf8(rest));
}

/// Parents first: in an ascending list, a path stands before every path
/// that continues it. Paths that do not continue one another may stand in
/// between, as `/system/a-b` does between `/system/a` and `/system/a/c`.
pub proof fn lemma_parents_first(s: Seq<Seq<char>>, i: int, j: int, rest: Seq<char>)
    requires
        strictly_ascending(s),
        0 <= i < s.len(),
        0 <= j < s.len(),
        rest.len() > 0,
        s[j] == s[i] + rest,
    ensures
        i < j,
{
    lemma_prefix_precedes(s[i], rest);
    if j < i {
        lemma_precedes_asymmetric(s[i], s[j]);
    } else if i == j {
        lemma_precedes_irreflexive(s[i]);
    }
}

/// A set of texts has one ascending arrangement only: two strictly ascending
/// sequences with the same members are the same sequence.
pub proof fn lemma_ascending_unique(a: Seq<Seq<char>>, b: Seq<Seq<char>>)
    requires
        strictly_ascending(a),
        strictly_ascending(b),
        forall|m: Seq<char>| a.contains(m) <==> b.contains(m),
    ensures
        a == b,
    decreases a.len(),
{
    if a.len() == 0 {
        if b.len() > 0 {
            assert(b.contains(b[0]));
        }
    } else if b.len() == 0 {
        assert(a.contains(a[0]));
    } else {
        // The last members are the greatest of either sequence, hence equal.
        let x = a.last();
        let y = b.last();
        assert(a.contains(x) && b.contains(y));
        if x != y {
            lemma_precedes_total(x, y);
            if precedes(x, y) {
                lemma_precedes_asymmetric(x, y);
            } else {
                lemma_precedes_asymmetric(y, x);
            }
        }
        // Without them the two sequences still hold the same members.
        let a0 = a.drop_last();
        let b0 = b.drop_last();
        lemma_precedes_irreflexive(x);
        assert forall|m: Seq<char>| a0.contains(m) <==> b0.contains(m) by {
            if a0.contains(m) {
                assert(a.contains(m));
                let l = choose|l: int| 0 <= l < b.len() && b[l] == m;
                assert(b0[l] == m);
            }
            if b0.contains(m) {
                assert(b.contains(m));
                let l = choose|l: int| 0 <= l < a.len() && a[l] == m;
                assert(a0[l] == m);
            }
        }
        assert(strictly_ascending(a0) && strictly_ascending(b0));
        lemma_ascending_unique(a0, b0);
        assert(a =~= a0.push(x));
    }
}

/// Does `a` come before `b`?
pub fn comes_before(a: &str, b: &str) -> (r: bool)
    ensures
        r == precedes(a@, b@),
{
    let x = a.as_bytes();
    let y = b.as_bytes();
    let mut i: usize = 0;
    proof {
        assert(x@.skip(0) == x@);
        assert(y@.skip(0) == y@);
    }
    while i < x.len() && i < y.len()
        invariant
            0 <= i <= x.len(),
            i <= y.len(),
            x@ == encode_utf8(a@),
            y@ == encode_utf8(b@),
            bytes_lt(x@, y@) == bytes_lt(x@.skip(i as int), y@.skip(i as int)),
        decreases x.len() - i,
    {
        proof {
            assert(x@.skip(i as int).drop_first() == x@.skip(i as int + 1));
            assert(y@.skip(i as int).drop_first() == y@.skip(i as int + 1));
        }
        if x[i] != y[i] {
            return x[i] < y[i];
        }
        i += 1;
    }
    i < y.len()
}

/// Puts `p` into the ascending list `out`, at its place; a text that the
/// list holds already is not put in again.
pub fn insert_ascending(out: &mut Vec<String>, p: &str)
    requires
        strictly_ascending(views(old(out)@)),
    ensures
        strictly_ascending(views(final(out)@)),
        forall|m: Seq<char>|
            views(final(out)@).contains(m) <==> views(old(out)@).contains(m) || m == p@,
{
    let mut k: usize = 0;
    while k < out.len() && comes_before(out[k].as_str(), p)
        invariant
            0 <= k <= out.len(),
            *out == *old(out),
            forall|j: int| 0 <= j < k ==> precedes(#[trigger] views(out@)[j], p@),
        decreases out.len() - k,
    {
        k += 1;
    }
    let ghost before = views(out@);
    if k < out.len() && !comes_before(p, out[k].as_str()) {
        proof {
            // Neither comes before the other: the list holds `p` already.
            lemma_precedes_total(before[k as int], p@);
        }
        return ;
    }
    out.insert(k, String::from_str(p));
    proof {
        let after = views(out@);
        assert(after =~= before.insert(k as int, p@));
        assert forall|i: int, j: int| 0 <= i < j < after.len() implies precedes(
            #[trigger] after[i],
            #[trigger] after[j],
        ) by {
            if i == k && j > k + 1 {
                lemma_precedes_transitive(p@, before[k as int], before[j - 1]);
            }
        }
        assert forall|m: Seq<char>| after.contains(m) <==> before.contains(m) || m == p@ by {
            if before.contains(m) {
                let i = choose|i: int| 0 <= i < before.len() && before[i] == m;
                assert(after[if i < k { i } else { i + 1 }] == m);
            }
            if m == p@ {
                assert(after[k as int] == m);
            }
        }
    }
}

/// The texts of `points` in ascending order, each once.
pub fn sorted_unique(points: &Vec<String>) -> (out: Vec<String>)
    ensures
        strictly_ascending(views(out@)),
        forall|m: Seq<char>| views(out@).contains(m) <==> views(points@).contains(m),
{
    let mut out: Vec<String> = Vec::new();
    let mut i: usize = 0;
    while i < points.len()
        invariant
            0 <= i <= points.len(),
            strictly_ascending(views(out@)),
            forall|m: Seq<char>|
                views(out@).contains(m) <==> views(points@).take(i as int).contains(m),
        decreases points.len() - i,
    {
        insert_ascending(&mut out, points[i].as_str());
        proof {
            lemma_take_next(views(points@), i as int);
        }
        i += 1;
    }
    proof {
        assert(views(points@).take(points@.len() as int) == views(points@));
    }
    out
}

} // verus!
