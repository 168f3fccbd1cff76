//! Byte-sequence helpers shared by the parser and the serializer: splitting
//! at a separator byte, whitespace trimming, lexicographic ordering and
//! concatenation.

use vstd::prelude::*;
use vstd::relations::{sorted_by, total_ordering};
use vstd::slice::slice_to_vec;
use vstd::multiset::Multiset;

verus! {

/// The views of a sequence of byte vectors.
pub open spec fn views_of(s: Seq<Vec<u8>>) -> Seq<Seq<u8>> {
    s.map_values(|l: Vec<u8>| l@)
}

/// Index of the first occurrence of `sep` in `s`, or `s.len()` when absent.
pub open spec fn first_index(s: Seq<u8>, sep: u8) -> int
    decreases s.len(),
{
    if s.len() == 0 {
        0
    } else if s[0] == sep {
        0
    } else {
        1 + first_index(s.drop_first(), sep)
    }
}

pub proof fn lemma_first_index(s: Seq<u8>, sep: u8)
    ensures
        0 <= first_index(s, sep) <= s.len(),
        first_index(s, sep) < s.len() ==> s[first_index(s, sep)] == sep,
        forall|j: int| 0 <= j < first_index(s, sep) ==> s[j] != sep,
    decreases s.len(),
{
    if s.len() == 0 {
    } else if s[0] == sep {
    } else {
        lemma_first_index(s.drop_first(), sep);
        assert forall|j: int| 0 <= j < first_index(s, sep) implies s[j] != sep by {
            if j > 0 {
                assert(s[j] == s.drop_first()[j - 1]);
            }
        }
    }
}

/// The pieces of `s` between occurrences of `sep`.  A separator at the start
/// or the end, or two adjacent separators, yield empty pieces; the empty
/// input yields one empty piece, so the result is never empty.
pub open spec fn split_on(s: Seq<u8>, sep: u8) -> Seq<Seq<u8>>
    decreases s.len(),
    via split_on_decreases
{
    let i = first_index(s, sep);
    if i == s.len() {
        seq![s]
    } else {
        seq![s.take(i)] + split_on(s.skip(i + 1), sep)
    }
}

#[via_fn]
proof fn split_on_decreases(s: Seq<u8>, sep: u8) {
    lemma_first_index(s, sep);
}

pub proof fn lemma_split_on_len(s: Seq<u8>, sep: u8)
    ensures
        split_on(s, sep).len() >= 1,
{
}

/// A separator-free sequence is one single piece.
pub proof fn lemma_split_on_no_sep(s: Seq<u8>, sep: u8)
    requires
        forall|j: int| 0 <= j < s.len() ==> s[j] != sep,
    ensures
        split_on(s, sep) == seq![s],
{
    lemma_first_index(s, sep);
}

/// Splitting at the first separator peels off the prefix before it.
pub proof fn lemma_split_on_first(s: Seq<u8>, sep: u8, i: int)
    requires
        0 <= i < s.len(),
        s[i] == sep,
        forall|j: int| 0 <= j < i ==> s[j] != sep,
    ensures
        split_on(s, sep) == seq![s.take(i)] + split_on(s.skip(i + 1), sep),
{
    lemma_first_index(s, sep);
    assert(first_index(s, sep) == i) by {
        if first_index(s, sep) < i {
            assert(s[first_index(s, sep)] == sep);
        }
    }
}

/// Drops one trailing carriage return, if present.
pub open spec fn strip_cr(line: Seq<u8>) -> Seq<u8> {
    if line.len() > 0 && line.last() == 13u8 {
        line.drop_last()
    } else {
        line
    }
}

/// The input split at line feeds, each line stripped of one trailing
/// carriage return: tolerant of bare line-feed endings.
pub open spec fn spec_lines(input: Seq<u8>) -> Seq<Seq<u8>> {
    split_on(input, 10u8).map_values(|l: Seq<u8>| strip_cr(l))
}

/// Splits a byte slice at every occurrence of `sep`, copying each piece.
pub fn split_bytes(v: &[u8], sep: u8) -> (parts: Vec<Vec<u8>>)
    ensures
        views_of(parts@) == split_on(v@, sep),
{
    let mut parts: Vec<Vec<u8>> = Vec::new();
    let mut start: usize = 0;
    let mut i: usize = 0;
    proof {
        assert(v@.skip(0) =~= v@);
        assert(views_of(parts@) + split_on(v@, sep) =~= split_on(v@, sep));
    }
    while i < v.len()
        invariant
            0 <= start <= i <= v@.len(),
            forall|j: int| start <= j < i ==> v@[j] != sep,
            split_on(v@, sep) == views_of(parts@) + split_on(v@.skip(start as int), sep),
        decreases v@.len() - i,
    {
        if v[i] == sep {
            let piece = slice_to_vec(&v[start..i]);
            proof {
                let tail = v@.skip(start as int);
                lemma_split_on_first(tail, sep, i - start);
                assert(tail.take(i - start) =~= piece@);
                assert(tail.skip(i - start + 1) =~= v@.skip(i + 1));
                assert(views_of(parts@.push(piece)) =~= views_of(parts@).push(piece@));
                assert(views_of(parts@) + (seq![piece@] + split_on(v@.skip(i + 1), sep))
                    =~= views_of(parts@).push(piece@) + split_on(v@.skip(i + 1), sep));
            }
            parts.push(piece);
            start = i + 1;
        }
        i += 1;
    }
    let piece = slice_to_vec(&v[start..v.len()]);
    proof {
        let tail = v@.skip(start as int);
        lemma_split_on_no_sep(tail, sep);
        assert(tail =~= piece@);
        assert(views_of(parts@.push(piece)) =~= views_of(parts@).push(piece@));
        assert(views_of(parts@) + seq![piece@] =~= views_of(parts@).push(piece@));
    }
    parts.push(piece);
    parts
}

/// Splits a buffer into lines: one piece per line feed, each stripped of one
/// trailing carriage return.
pub fn split_lines(v: &[u8]) -> (lines: Vec<Vec<u8>>)
    ensures
        views_of(lines@) == spec_lines(v@),
        lines@.len() >= 1,
{
    let raw = split_bytes(v, 10);
    let mut lines: Vec<Vec<u8>> = Vec::new();
    let mut i: usize = 0;
    proof {
        assert(views_of(lines@) =~= spec_lines(v@).take(0));
    }
    while i < raw.len()
        invariant
            0 <= i <= raw@.len(),
            views_of(raw@) == split_on(v@, 10u8),
            views_of(lines@) == spec_lines(v@).take(i as int),
            lines@.len() == i,
        decreases raw@.len() - i,
    {
        let mut line = slice_to_vec(raw[i].as_slice());
        if line.len() > 0 && line[line.len() - 1] == 13 {
            line.pop();
        }
        proof {
            assert(line@ =~= strip_cr(raw@[i as int]@));
            assert(views_of(lines@.push(line)) =~= views_of(lines@).push(line@));
            assert(spec_lines(v@).take(i + 1) =~= spec_lines(v@).take(i as int).push(
                spec_lines(v@)[i as int]));
        }
        lines.push(line);
        i += 1;
    }
    proof {
        assert(spec_lines(v@).take(raw@.len() as int) =~= spec_lines(v@));
        lemma_split_on_len(v@, 10u8);
    }
    lines
}

/// Index of the first occurrence of `sep` in a byte slice.
pub fn find_byte(v: &[u8], sep: u8) -> (r: Option<usize>)
    ensures
        match r {
            Some(i) => i == first_index(v@, sep) && i < v@.len(),
            None => first_index(v@, sep) == v@.len(),
        },
{
    proof {
        lemma_first_index(v@, sep);
    }
    let mut i: usize = 0;
    while i < v.len()
        invariant
            0 <= i <= v@.len(),
            forall|j: int| 0 <= j < i ==> v@[j] != sep,
            0 <= first_index(v@, sep) <= v@.len(),
            first_index(v@, sep) < v@.len() ==> v@[first_index(v@, sep)] == sep,
            forall|j: int| 0 <= j < first_index(v@, sep) ==> v@[j] != sep,
        decreases v@.len() - i,
    {
        if v[i] == sep {
            return Some(i);
        }
        i += 1;
    }
    None
}

/// ASCII whitespace, as trimmed from header values.
pub open spec fn is_ws(b: u8) -> bool {
    b == 32 || b == 9 || b == 10 || b == 12 || b == 13
}

/// `s` without its leading whitespace.
pub open spec fn trim_front(s: Seq<u8>) -> Seq<u8>
    decreases s.len(),
{
    if s.len() > 0 && is_ws(s[0]) {
        trim_front(s.drop_first())
    } else {
        s
    }
}

/// `s` without its trailing whitespace.
pub open spec fn trim_back(s: Seq<u8>) -> Seq<u8>
    decreases s.len(),
{
    if s.len() > 0 && is_ws(s.last()) {
        trim_back(s.drop_last())
    } else {
        s
    }
}

/// `s` with leading and trailing ASCII whitespace removed.
pub open spec fn trim_ws(s: Seq<u8>) -> Seq<u8> {
    trim_back(trim_front(s))
}

fn is_ws_byte(b: u8) -> (r: bool)
    ensures
        r == is_ws(b),
{
    b == 32 || b == 9 || b == 10 || b == 12 || b == 13
}

/// Returns the slice with leading and trailing ASCII whitespace removed.
pub fn trim_ws_slice<'a>(s: &'a [u8]) -> (r: &'a [u8])
    ensures
        r@ == trim_ws(s@),
{
    let mut from: usize = 0;
    proof {
        assert(s@.skip(0) =~= s@);
    }
    while from < s.len() && is_ws_byte(s[from])
        invariant
            0 <= from <= s@.len(),
            trim_front(s@) == trim_front(s@.skip(from as int)),
        decreases s@.len() - from,
    {
        proof {
            assert(s@.skip(from as int).drop_first() =~= s@.skip(from + 1));
        }
        from += 1;
    }
    proof {
        assert(s@.skip(from as int) =~= s@.subrange(from as int, s@.len() as int));
        if from < s@.len() {
            assert(trim_front(s@) == s@.skip(from as int));
        } else {
            assert(s@.skip(from as int) =~= Seq::<u8>::empty());
            assert(trim_front(s@) == s@.skip(from as int));
        }
    }
    let mut to: usize = s.len();
    while to > from && is_ws_byte(s[to - 1])
        invariant
            from <= to <= s@.len(),
            trim_front(s@) == s@.skip(from as int),
            trim_back(s@.skip(from as int)) == trim_back(s@.subrange(from as int, to as int)),
        decreases to,
    {
        proof {
            assert(s@.subrange(from as int, to as int).drop_last() =~= s@.subrange(
                from as int,
                to - 1));
        }
        to -= 1;
    }
    proof {
        let mid = s@.subrange(from as int, to as int);
        if to > from {
            assert(!is_ws(mid.last()));
            assert(trim_back(mid) == mid);
        } else {
            assert(mid =~= Seq::<u8>::empty());
            assert(trim_back(mid) == mid);
        }
    }
    &s[from..to]
}

/// Lexicographic order on byte sequences.
pub open spec fn lex_le(a: Seq<u8>, b: Seq<u8>) -> bool
    decreases a.len(),
{
    if a.len() == 0 {
        true
    } else if b.len() == 0 {
        false
    } else if a[0] < b[0] {
        true
    } else if a[0] > b[0] {
        false
    } else {
        lex_le(a.drop_first(), b.drop_first())
    }
}

/// The lexicographic order as a relation value, for sorting.
pub open spec fn lex_leq() -> spec_fn(Seq<u8>, Seq<u8>) -> bool {
    |x: Seq<u8>, y: Seq<u8>| lex_le(x, y)
}

proof fn lemma_lex_refl(a: Seq<u8>)
    ensures
        lex_le(a, a),
    decreases a.len(),
{
    if a.len() > 0 {
        lemma_lex_refl(a.drop_first());
    }
}

proof fn lemma_lex_conn(a: Seq<u8>, b: Seq<u8>)
    ensures
        lex_le(a, b) || lex_le(b, a),
    decreases a.len(),
{
    if a.len() > 0 && b.len() > 0 && a[0] == b[0] {
        lemma_lex_conn(a.drop_first(), b.drop_first());
    }
}

proof fn lemma_lex_antisym(a: Seq<u8>, b: Seq<u8>)
    requires
        lex_le(a, b),
        lex_le(b, a),
    ensures
        a == b,
    decreases a.len(),
{
    if a.len() == 0 {
        assert(b.len() == 0);
        assert(a =~= b);
    } else {
        assert(b.len() > 0);
        assert(a[0] == b[0]);
        assert(lex_le(a.drop_first(), b.drop_first()));
        assert(lex_le(b.drop_first(), a.drop_first()));
        lemma_lex_antisym(a.drop_first(), b.drop_first());
        assert(a.drop_first() == b.drop_first());
        assert(a.drop_first().len() == b.drop_first().len());
        assert(a.len() == b.len());
        assert forall|i: int| 0 <= i < a.len() implies a[i] == b[i] by {
            if i > 0 {
                assert(a[i] == a.drop_first()[i - 1]);
                assert(b[i] == b.drop_first()[i - 1]);
            }
        }
        assert(a =~= b);
    }
}

proof fn lemma_lex_trans(a: Seq<u8>, b: Seq<u8>, c: Seq<u8>)
    requires
        lex_le(a, b),
        lex_le(b, c),
    ensures
        lex_le(a, c),
    decreases a.len(),
{
    if a.len() > 0 && b.len() > 0 && c.len() > 0 {
        if a[0] == b[0] && b[0] == c[0] {
            lemma_lex_trans(a.drop_first(), b.drop_first(), c.drop_first());
        }
    }
}

/// Lexicographic order is a total ordering on byte sequences.
pub proof fn lemma_lex_total_ordering()
    ensures
        total_ordering(lex_leq()),
{
    let leq = lex_leq();
    assert forall|a: Seq<u8>| #[trigger] leq(a, a) by {
        lemma_lex_refl(a);
    }
    assert forall|a: Seq<u8>, b: Seq<u8>| #[trigger] leq(a, b) && #[trigger] leq(b, a) implies a
        == b by {
        lemma_lex_antisym(a, b);
    }
    assert forall|a: Seq<u8>, b: Seq<u8>, c: Seq<u8>|
        #[trigger] leq(a, b) && #[trigger] leq(b, c) implies leq(a, c) by {
        lemma_lex_trans(a, b, c);
    }
    assert forall|a: Seq<u8>, b: Seq<u8>| #[trigger] leq(a, b) || #[trigger] leq(b, a) by {
        lemma_lex_conn(a, b);
    }
}

/// Decides the lexicographic order on byte slices.
pub fn lex_le_bytes(a: &[u8], b: &[u8]) -> (r: bool)
    ensures
        r == lex_le(a@, b@),
{
    let mut i: usize = 0;
    proof {
        assert(a@.skip(0) =~= a@);
        assert(b@.skip(0) =~= b@);
    }
    while i < a.len() && i < b.len()
        invariant
            0 <= i <= a@.len(),
            0 <= i <= b@.len(),
            lex_le(a@, b@) == lex_le(a@.skip(i as int), b@.skip(i as int)),
        decreases a@.len() - i,
    {
        if a[i] < b[i] {
            return true;
        }
        if a[i] > b[i] {
            return false;
        }
        proof {
            assert(a@.skip(i as int).drop_first() =~= a@.skip(i + 1));
            assert(b@.skip(i as int).drop_first() =~= b@.skip(i + 1));
        }
        i += 1;
    }
    proof {
        if i == a@.len() {
            assert(a@.skip(i as int) =~= Seq::<u8>::empty());
        } else {
            assert(b@.skip(i as int) =~= Seq::<u8>::empty());
            assert(a@.skip(i as int).len() > 0);
        }
    }
    i == a.len()
}

/// Concatenation of a sequence of byte sequences.
pub open spec fn join(s: Seq<Seq<u8>>) -> Seq<u8>
    decreases s.len(),
{
    if s.len() == 0 {
        Seq::empty()
    } else {
        s.first() + join(s.drop_first())
    }
}

pub proof fn lemma_join_push(s: Seq<Seq<u8>>, x: Seq<u8>)
    ensures
        join(s.push(x)) == join(s) + x,
    decreases s.len(),
{
    if s.len() == 0 {
        assert(s.push(x).drop_first() =~= Seq::<Seq<u8>>::empty());
        assert(s.push(x).first() == x);
        assert(join(s.push(x).drop_first()) == Seq::<u8>::empty());
        assert(join(s.push(x)) =~= x);
        assert(join(s) + x =~= x);
        assert(join(s.push(x)) =~= join(s) + x);
    } else {
        assert(s.push(x).drop_first() =~= s.drop_first().push(x));
        lemma_join_push(s.drop_first(), x);
        assert(s.push(x).first() == s.first());
        assert(s.first() + (join(s.drop_first()) + x) =~= (s.first() + join(s.drop_first())) + x);
    }
}

/// Sorts byte vectors into lexicographic order; the result is the sorted
/// permutation of the input.
pub fn sort_lines(lines: Vec<Vec<u8>>) -> (r: Vec<Vec<u8>>)
    ensures
        views_of(r@) == views_of(lines@).sort_by(lex_leq()),
{
    proof {
        lemma_lex_total_ordering();
        views_of(lines@).lemma_sort_by_ensures(lex_leq());
    }
    let ghost orig = views_of(lines@);
    let mut rest = lines;
    let mut out: Vec<Vec<u8>> = Vec::new();
    proof {
        broadcast use vstd::seq_lib::group_to_multiset_ensures;
        broadcast use vstd::multiset::group_multiset_axioms;

        assert(views_of(out@).to_multiset() =~= Multiset::<Seq<u8>>::empty());
        assert(views_of(out@).to_multiset().add(views_of(rest@).to_multiset()) =~= orig.to_multiset());
    }
    while rest.len() > 0
        invariant
            sorted_by(views_of(out@), lex_leq()),
            forall|p: int, q: int|
                0 <= p < out@.len() && 0 <= q < rest@.len() ==> lex_le(
                    views_of(out@)[p],
                    views_of(rest@)[q],
                ),
            views_of(out@).to_multiset().add(views_of(rest@).to_multiset())
                == orig.to_multiset(),
        decreases rest@.len(),
    {
        broadcast use vstd::seq_lib::group_to_multiset_ensures;
        broadcast use vstd::multiset::group_multiset_axioms;

        let mut m: usize = 0;
        let mut j: usize = 1;
        proof {
            lemma_lex_refl(views_of(rest@)[0]);
        }
        while j < rest.len()
            invariant
                rest@.len() > 0,
                0 <= m < j <= rest@.len(),
                forall|k: int| 0 <= k < j ==> lex_le(views_of(rest@)[m as int], views_of(rest@)[k]),
            decreases rest@.len() - j,
        {
            if lex_le_bytes(rest[j].as_slice(), rest[m].as_slice()) {
                proof {
                    lemma_lex_refl(rest@[j as int]@);
                    assert forall|k: int| 0 <= k < j + 1 implies lex_le(
                        views_of(rest@)[j as int],
                        views_of(rest@)[k],
                    ) by {
                        if k < j {
                            lemma_lex_trans(
                                views_of(rest@)[j as int],
                                views_of(rest@)[m as int],
                                views_of(rest@)[k],
                            );
                        }
                    }
                }
                m = j;
            } else {
                proof {
                    lemma_lex_conn(views_of(rest@)[j as int], views_of(rest@)[m as int]);
                }
            }
            j += 1;
        }
        let ghost old_out = views_of(out@);
        let ghost old_rest = views_of(rest@);
        let x = rest.remove(m);
        out.push(x);
        proof {
            assert(views_of(rest@) =~= old_rest.remove(m as int));
            assert(views_of(out@) =~= old_out.push(x@));
            assert(old_rest.remove(m as int).to_multiset() =~= old_rest.to_multiset().remove(x@));
            assert(old_rest.to_multiset().contains(x@));
            assert(views_of(out@).to_multiset() =~= old_out.to_multiset().insert(x@));
            assert(views_of(out@).to_multiset().add(views_of(rest@).to_multiset())
                =~= old_out.to_multiset().add(old_rest.to_multiset()));
            assert forall|p: int, q: int|
                0 <= p < out@.len() && 0 <= q < rest@.len() implies lex_le(
                views_of(out@)[p],
                views_of(rest@)[q],
            ) by {
                let rq = views_of(rest@)[q];
                assert(rq == if q < m as int {
                    old_rest[q]
                } else {
                    old_rest[q + 1]
                });
                if p < old_out.len() {
                } else {
                    assert(views_of(out@)[p] == x@);
                }
            }
            assert forall|p: int, q: int| 0 <= p < q < views_of(out@).len() implies lex_le(
                views_of(out@)[p],
                views_of(out@)[q],
            ) by {
                if q == views_of(out@).len() - 1 {
                    assert(lex_le(old_out[p], old_rest[m as int]));
                } else {
                    assert(lex_leq()(old_out[p], old_out[q]));
                }
            }
            assert(sorted_by(views_of(out@), lex_leq()));
        }
    }
    proof {
        broadcast use vstd::seq_lib::group_to_multiset_ensures;
        broadcast use vstd::multiset::group_multiset_axioms;

        assert(views_of(rest@) =~= Seq::<Seq<u8>>::empty());
        assert(views_of(out@).to_multiset() =~= orig.to_multiset());
        vstd::seq_lib::lemma_sorted_unique(views_of(out@), orig.sort_by(lex_leq()), lex_leq());
    }
    out
}

} // verus!
