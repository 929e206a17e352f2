//! Strings as sequences of characters: the few operations on them that the
//! mount engine needs, each with its meaning stated over `Seq<char>`.

use vstd::prelude::*;

verus! {

/// The views of a sequence of strings, element by element.
pub open spec fn views(v: Seq<String>) -> Seq<Seq<char>> {
    Seq::new(v.len(), |i: int| v[i]@)
}

/// `parts` written one after another with `sep` between neighbours.
pub open spec fn join(parts: Seq<Seq<char>>, sep: Seq<char>) -> Seq<char>
    decreases parts.len(),
{
    if parts.len() == 0 {
        Seq::empty()
    } else if parts.len() == 1 {
        parts[0]
    } else {
        join(parts.drop_last(), sep) + sep + parts.last()
    }
}

/// `s` without its leading run of `c`.
pub open spec fn trim_leading(s: Seq<char>, c: char) -> Seq<char>
    decreases s.len(),
{
    if s.len() > 0 && s[0] == c {
        trim_leading(s.drop_first(), c)
    } else {
        s
    }
}

/// `p` stands in `s` at position `i`.
pub open spec fn occurs_at(s: Seq<char>, p: Seq<char>, i: int) -> bool {
    0 <= i && i + p.len() <= s.len() && s.subrange(i, i + p.len()) == p
}

/// The least position at or after `from` where `p` stands in `s`.
pub open spec fn find_from(s: Seq<char>, p: Seq<char>, from: int) -> Option<int>
    decreases s.len() + 1 - from,
{
    if from < 0 || from + p.len() > s.len() {
        None
    } else if occurs_at(s, p, from) {
        Some(from)
    } else {
        find_from(s, p, from + 1)
    }
}

/// `s` with the first occurrence of `p` cut out; `s` itself where `p` does
/// not occur.
pub open spec fn remove_first(s: Seq<char>, p: Seq<char>) -> Seq<char> {
    match find_from(s, p, 0) {
        Some(i) => s.subrange(0, i) + s.subrange(i + p.len(), s.len() as int),
        None => s,
    }
}

/// The position of the last `c` in `s`; -1 where `s` holds none.
pub open spec fn last_index(s: Seq<char>, c: char) -> int
    decreases s.len(),
{
    if s.len() == 0 {
        -1
    } else if s.last() == c {
        s.len() - 1
    } else {
        last_index(s.drop_last(), c)
    }
}

/// The position of the first `c` in `s`; the length of `s` where it holds
/// none.
pub open spec fn first_index(s: Seq<char>, c: char) -> int
    decreases s.len(),
{
    if s.len() == 0 || s[0] == c {
        0
    } else {
        1 + first_index(s.drop_first(), c)
    }
}

/// The fields of `s`: what stands between its occurrences of `c`, before the
/// first and after the last. A text without `c` is one field.
pub open spec fn split(s: Seq<char>, c: char) -> Seq<Seq<char>>
    decreases s.len(),
{
    let i = last_index(s, c);
    if 0 <= i < s.len() {
        split(s.subrange(0, i), c).push(s.subrange(i + 1, s.len() as int))
    } else {
        seq![s]
    }
}

/// A field of the form key, `=`, value, taken apart at its first `=`.
pub open spec fn key_value(field: Seq<char>) -> (Seq<char>, Seq<char>) {
    let i = first_index(field, '=');
    if i < field.len() {
        (field.subrange(0, i), field.subrange(i + 1, field.len() as int))
    } else {
        (field, Seq::empty())
    }
}

/// No text of `parts` holds `c`.
pub open spec fn none_holds(parts: Seq<Seq<char>>, c: char) -> bool {
    forall|i: int| 0 <= i < parts.len() ==> !(#[trigger] parts[i]).contains(c)
}

/// `last_index` is the position of a `c` with no `c` behind it, and is -1
/// exactly where the text holds no `c`.
pub proof fn lemma_last_index(s: Seq<char>, c: char)
    ensures
        -1 <= last_index(s, c) < s.len(),
        last_index(s, c) >= 0 ==> s[last_index(s, c)] == c,
        forall|j: int| last_index(s, c) < j < s.len() ==> s[j] != c,
        last_index(s, c) == -1 <==> !s.contains(c),
    decreases s.len(),
{
    if s.len() > 0 && s.last() != c {
        lemma_last_index(s.drop_last(), c);
        assert forall|j: int| last_index(s, c) < j < s.len() implies s[j] != c by {
            if j < s.len() - 1 {
                assert(s.drop_last()[j] == s[j]);
            }
        }
        if last_index(s, c) < 0 {
            assert forall|j: int| 0 <= j < s.len() implies s[j] != c by {}
        }
    }
}

/// `first_index` is the position of a `c` with no `c` before it, or the
/// length of a text that holds no `c`.
pub proof fn lemma_first_index(s: Seq<char>, c: char)
    ensures
        0 <= first_index(s, c) <= s.len(),
        first_index(s, c) < s.len() ==> s[first_index(s, c)] == c,
        forall|j: int| 0 <= j < first_index(s, c) ==> s[j] != c,
    decreases s.len(),
{
    if s.len() > 0 && s[0] != c {
        lemma_first_index(s.drop_first(), c);
        assert forall|j: int| 0 <= j < first_index(s, c) implies s[j] != c by {
            if j > 0 {
                assert(s.drop_first()[j - 1] == s[j]);
            }
        }
    }
}

/// A text without `c` is its own single field.
pub proof fn lemma_split_single(s: Seq<char>, c: char)
    requires
        !s.contains(c),
    ensures
        split(s, c) == seq![s],
{
    lemma_last_index(s, c);
}

/// Behind the last `c` stands the last field.
pub proof fn lemma_split_push(head: Seq<char>, c: char, tail: Seq<char>)
    requires
        !tail.contains(c),
    ensures
        split(head + seq![c] + tail, c) == split(head, c).push(tail),
{
    let s = head + seq![c] + tail;
    lemma_last_index(s, c);
    let i = last_index(s, c);
    assert(s[head.len() as int] == c);
    assert(s.subrange(0, i) == head);
    assert(s.subrange(i + 1, s.len() as int) == tail);
}

/// A character other than `c` at the end of a text goes to the end of its
/// last field.
pub proof fn lemma_split_extend(t: Seq<char>, x: char, c: char)
    requires
        x != c,
    ensures
        split(t.push(x), c) == split(t, c).drop_last().push(split(t, c).last().push(x)),
{
    let s = t.push(x);
    assert(s.drop_last() == t);
    lemma_last_index(t, c);
    let i = last_index(t, c);
    if 0 <= i {
        assert(s.subrange(0, i) == t.subrange(0, i));
        assert(s.subrange(i + 1, s.len() as int) == t.subrange(i + 1, t.len() as int).push(x));
        assert(split(t, c).drop_last() == split(t.subrange(0, i), c));
    } else {
        assert(seq![t].drop_last().push(t.push(x)) == seq![s]);
    }
}

/// Behind a `c` at the end of a text stands an empty last field.
pub proof fn lemma_split_close(t: Seq<char>, c: char)
    ensures
        split(t.push(c), c) == split(t, c).push(Seq::empty()),
{
    assert(t.push(c) == t + seq![c] + Seq::<char>::empty());
    lemma_split_push(t, c, Seq::empty());
}

/// Splitting undoes joining: where no part holds `c`, the fields of the
/// parts joined with `c` are the parts.
pub proof fn lemma_split_join(parts: Seq<Seq<char>>, c: char)
    requires
        parts.len() > 0,
        none_holds(parts, c),
    ensures
        split(join(parts, seq![c]), c) == parts,
    decreases parts.len(),
{
    if parts.len() == 1 {
        lemma_split_single(parts[0], c);
    } else {
        let front = parts.drop_last();
        assert(none_holds(front, c));
        lemma_split_join(front, c);
        lemma_split_push(join(front, seq![c]), c, parts.last());
    }
}

/// Joining brings in no character that neither the parts nor the separator
/// hold.
pub proof fn lemma_join_lacks(parts: Seq<Seq<char>>, sep: Seq<char>, c: char)
    requires
        none_holds(parts, c),
        !sep.contains(c),
    ensures
        !join(parts, sep).contains(c),
    decreases parts.len(),
{
    if parts.len() > 1 {
        let front = parts.drop_last();
        assert(none_holds(front, c));
        lemma_join_lacks(front, sep, c);
        lemma_concat_lacks(join(front, sep), sep, c);
        lemma_concat_lacks(join(front, sep) + sep, parts.last(), c);
    }
}

/// Two texts without `c`, one after the other, hold no `c`.
pub proof fn lemma_concat_lacks(a: Seq<char>, b: Seq<char>, c: char)
    requires
        !a.contains(c),
        !b.contains(c),
    ensures
        !(a + b).contains(c),
{
    assert forall|j: int| 0 <= j < (a + b).len() implies (a + b)[j] != c by {}
}

/// A key without `=`, then `=`, then any value, is taken apart into that
/// key and that value.
pub proof fn lemma_key_value(key: Seq<char>, value: Seq<char>)
    requires
        !key.contains('='),
    ensures
        key_value(key + seq!['='] + value) == (key, value),
{
    let field = key + seq!['='] + value;
    lemma_first_index(field, '=');
    assert(field[key.len() as int] == '=');
}

/// What `find_from` returns is the least occurrence at or after `from`, and
/// it returns `None` only where there is none.
pub proof fn lemma_find_from(s: Seq<char>, p: Seq<char>, from: int)
    requires
        0 <= from,
    ensures
        match find_from(s, p, from) {
            Some(i) => from <= i && occurs_at(s, p, i) && forall|j: int|
                from <= j < i ==> !occurs_at(s, p, j),
            None => forall|j: int| from <= j ==> !occurs_at(s, p, j),
        },
    decreases s.len() + 1 - from,
{
    if from + p.len() <= s.len() && !occurs_at(s, p, from) {
        lemma_find_from(s, p, from + 1);
    }
}

/// One more element taken from `s` adds that element, and nothing else, to
/// what is held.
pub proof fn lemma_take_next<T>(s: Seq<T>, i: int)
    requires
        0 <= i < s.len(),
    ensures
        forall|m: T|
            #![trigger s.take(i + 1).contains(m)]
            #![trigger s.take(i).contains(m)]
            s.take(i + 1).contains(m) <==> s.take(i).contains(m) || m == s[i],
{
    let shorter = s.take(i);
    let longer = s.take(i + 1);
    assert forall|m: T| shorter.contains(m) || m == s[i] implies longer.contains(m) by {
        let j = if m == s[i] {
            i
        } else {
            choose|j: int| 0 <= j < shorter.len() && shorter[j] == m
        };
        assert(longer[j] == m);
    }
    assert forall|m: T| longer.contains(m) implies shorter.contains(m) || m == s[i] by {
        let j = choose|j: int| 0 <= j < longer.len() && longer[j] == m;
        if j < i {
            assert(shorter[j] == m);
        }
    }
}

/// A join of one more part is the join so far, the separator and the part.
pub proof fn lemma_join_push(parts: Seq<Seq<char>>, sep: Seq<char>, last: Seq<char>)
    ensures
        join(parts.push(last), sep) == if parts.len() == 0 {
            last
        } else {
            join(parts, sep) + sep + last
        },
{
    let all = parts.push(last);
    assert(all.drop_last() == parts);
}

/// The characters of `s`, in a vector.
pub fn chars_of(s: &str) -> (v: Vec<char>)
    ensures
        v@ == s@,
{
    let mut v: Vec<char> = Vec::new();
    for c in it: s.chars()
        invariant
            v@ == it.seq().take(it.index() as int),
            it.seq() == s@,
    {
        v.push(c);
    }
    v
}

/// Are `a` and `b` the same text?
pub fn same_text(a: &str, b: &str) -> (r: bool)
    ensures
        r == (a@ == b@),
{
    let x = chars_of(a);
    let y = chars_of(b);
    if x.len() != y.len() {
        return false;
    }
    let r = matches_at(&x, &y, 0);
    proof {
        assert(x@.subrange(0, y@.len() as int) == x@);
    }
    r
}

/// `String::push`: the character `c` is appended to `s`.
#[verifier::external_body]
pub(crate) fn push_char(s: &mut String, c: char)
    ensures
        final(s)@ == old(s)@.push(c),
{
    s.push(c)
}

/// Do the characters of `p` stand in `s` at position `i`?
pub fn matches_at(s: &Vec<char>, p: &Vec<char>, i: usize) -> (r: bool)
    requires
        i + p.len() <= s.len(),
    ensures
        r == occurs_at(s@, p@, i as int),
{
    let mut k: usize = 0;
    while k < p.len()
        invariant
            0 <= k <= p.len(),
            i + p.len() <= s.len(),
            forall|j: int| 0 <= j < k ==> s@[i + j] == p@[j],
        decreases p.len() - k,
    {
        if s[i + k] != p[k] {
            return false;
        }
        k += 1;
    }
    proof {
        assert(s@.subrange(i as int, i + p.len()) =~= p@);
    }
    true
}

/// A copy of `v`, string by string.
pub fn clone_strings(v: &Vec<String>) -> (out: Vec<String>)
    ensures
        views(out@) == views(v@),
{
    let mut out: Vec<String> = Vec::new();
    let mut i: usize = 0;
    while i < v.len()
        invariant
            0 <= i <= v.len(),
            out@.len() == i,
            forall|j: int| 0 <= j < i ==> out@[j]@ == v@[j]@,
        decreases v.len() - i,
    {
        out.push(v[i].clone());
        i += 1;
    }
    out
}

/// Joins the strings of `parts` with `sep` between neighbours.
pub fn join_strings(parts: &Vec<String>, sep: &str) -> (out: String)
    ensures
        out@ == join(views(parts@), sep@),
{
    let mut out = String::new();
    let mut i: usize = 0;
    while i < parts.len()
        invariant
            0 <= i <= parts.len(),
            out@ == join(views(parts@).take(i as int), sep@),
        decreases parts.len() - i,
    {
        proof {
            let done = views(parts@).take(i as int);
            lemma_join_push(done, sep@, parts@[i as int]@);
            assert(done.push(parts@[i as int]@) == views(parts@).take(i as int + 1));
        }
        if i > 0 {
            out.append(sep);
        }
        out.append(parts[i].as_str());
        i += 1;
    }
    proof {
        assert(views(parts@).take(parts@.len() as int) == views(parts@));
    }
    out
}

/// `s` without its leading run of `c`.
pub fn strip_leading<'a>(s: &'a str, c: char) -> (r: &'a str)
    ensures
        r@ == trim_leading(s@, c),
{
    let chars = chars_of(s);
    let mut k: usize = 0;
    proof {
        assert(s@.skip(0) == s@);
    }
    while k < chars.len() && chars[k] == c
        invariant
            0 <= k <= chars.len(),
            chars@ == s@,
            trim_leading(s@, c) == trim_leading(s@.skip(k as int), c),
        decreases chars.len() - k,
    {
        proof {
            assert(s@.skip(k as int).drop_first() == s@.skip(k as int + 1));
        }
        k += 1;
    }
    s.substring_char(k, chars.len())
}

/// `s` with the first occurrence of `p` cut out.
pub fn cut_first(s: &str, p: &str) -> (r: String)
    ensures
        r@ == remove_first(s@, p@),
{
    let sc = chars_of(s);
    let pc = chars_of(p);
    if pc.len() > sc.len() {
        return String::from_str(s);
    }
    let last: usize = sc.len() - pc.len();
    let mut i: usize = 0;
    loop
        invariant
            0 <= i <= last,
            last == sc.len() - pc.len(),
            sc@ == s@,
            pc@ == p@,
            find_from(s@, p@, 0) == find_from(s@, p@, i as int),
        decreases last - i,
    {
        if matches_at(&sc, &pc, i) {
            let head = String::from_str(s.substring_char(0, i));
            return head.concat(s.substring_char(i + pc.len(), sc.len()));
        }
        if i == last {
            return String::from_str(s);
        }
        i += 1;
    }
}

} // verus!
