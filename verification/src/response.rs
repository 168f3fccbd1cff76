//! The response serializer: turns a structured response into the exact byte
//! sequence written to a connection.
//!
//! The wire layout is the status line, then each header line in
//! lexicographically sorted order, then the raw body; the status line, every
//! header line and the header block each end in a double CRLF.  That double
//! CRLF framing is this library's literal wire format and is reproduced
//! bit-exactly; it is not the standard single-CRLF framing, so the output is
//! not guaranteed to be re-parseable by the request parser.

use vstd::prelude::*;
use vstd::utf8::encode_utf8;
use crate::bytes::{join, lemma_join_push, lex_leq, lemma_lex_total_ordering, views_of};
use crate::headers::{entry_views, map_of, unique_keys, Headers};
use crate::headers::{lemma_map_of_contains, lemma_map_of_index};
use crate::status::{status_code, status_text, Status};
use crate::version::{version_token, Version};

verus! {

/// The decimal digits of `n`, most significant first.
pub open spec fn dec_bytes(n: int) -> Seq<u8>
    decreases n,
{
    if n < 10 {
        seq![(48 + n) as u8]
    } else {
        dec_bytes(n / 10).push((48 + n % 10) as u8)
    }
}

/// One double CRLF.
pub open spec fn crlf2() -> Seq<u8> {
    seq![13u8, 10u8, 13u8, 10u8]
}

/// The wire form of one header: `name: value` and a double CRLF.
pub open spec fn line_of(name: Seq<char>, value: Seq<char>) -> Seq<u8> {
    encode_utf8(name) + seq![58u8, 32u8] + encode_utf8(value) + crlf2()
}

/// The wire forms of a sequence of headers, in the order given.
pub open spec fn header_lines(entries: Seq<(Seq<char>, Seq<char>)>) -> Seq<Seq<u8>> {
    entries.map_values(|p: (Seq<char>, Seq<char>)| line_of(p.0, p.1))
}

/// The exact bytes that serializing a response yields: the status line,
/// the header lines sorted lexicographically as fully formed lines, the
/// blank terminator and the raw body, each line ending in a double CRLF.
pub open spec fn spec_serialize(
    version: Version,
    status: Status,
    entries: Seq<(Seq<char>, Seq<char>)>,
    body: Seq<u8>,
) -> Seq<u8> {
    encode_utf8(version_token(version)) + seq![32u8] + dec_bytes(status_code(status) as int)
        + seq![32u8] + encode_utf8(status_text(status)) + crlf2() + join(
        header_lines(entries).sort_by(lex_leq()),
    ) + crlf2() + body
}

/// An HTTP response, built by application code and consumed once by
/// serialization.
pub struct Response {
    pub version: Version,
    pub status: Status,
    pub headers: Headers,
    pub body: Vec<u8>,
}

/// Appends the decimal digits of `n`.
fn push_decimal(out: &mut Vec<u8>, n: u16)
    ensures
        final(out)@ == old(out)@ + dec_bytes(n as int),
    decreases n,
{
    if n < 10 {
        out.push(48 + n as u8);
        proof {
            assert(final(out)@ =~= old(out)@ + dec_bytes(n as int));
        }
    } else {
        push_decimal(out, n / 10);
        out.push(48 + (n % 10) as u8);
        proof {
            assert((48 + (n % 10) as u8) as u8 == (48 + (n as int) % 10) as u8);
            assert(final(out)@ =~= old(out)@ + dec_bytes(n as int));
        }
    }
}

impl Response {
    /// Serializes the response, consuming it; always succeeds.  No
    /// `Content-Length` or `Transfer-Encoding` header is synthesized: the
    /// caller must set any desired headers explicitly.
    #[verifier::loop_isolation(false)]
    pub fn to_bytes(self) -> (r: Vec<u8>)
        ensures
            r@ == spec_serialize(
                self.version,
                self.status,
                self.headers.entries_view(),
                self.body@,
            ),
    {
        let ghost sentries = self.headers.entries_view();
        let mut out: Vec<u8> = Vec::new();
        let vs = self.version.to_string();
        out.extend_from_slice(vs.as_str().as_bytes());
        out.push(32);
        push_decimal(&mut out, self.status.code());
        out.push(32);
        let st = self.status.text();
        out.extend_from_slice(st.as_str().as_bytes());
        out.push(13);
        out.push(10);
        out.push(13);
        out.push(10);
        let ghost head = encode_utf8(version_token(self.version)) + seq![32u8] + dec_bytes(
            status_code(self.status) as int,
        ) + seq![32u8] + encode_utf8(status_text(self.status)) + crlf2();
        proof {
            assert(out@ =~= head);
        }
        let entries = self.headers.entries();
        let mut lines: Vec<Vec<u8>> = Vec::new();
        let mut i: usize = 0;
        proof {
            assert(views_of(lines@) =~= header_lines(sentries).take(0));
        }
        while i < entries.len()
            invariant
                0 <= i <= entries@.len(),
                views_of(lines@) == header_lines(sentries).take(i as int),
            decreases entries@.len() - i,
        {
            let mut line: Vec<u8> = Vec::new();
            line.extend_from_slice(entries[i].0.as_str().as_bytes());
            line.push(58);
            line.push(32);
            line.extend_from_slice(entries[i].1.as_str().as_bytes());
            line.push(13);
            line.push(10);
            line.push(13);
            line.push(10);
            proof {
                assert(entry_views(entries@)[i as int] == (entries@[i as int].0@, entries@[
                    i as int
                ].1@));
                assert(line@ =~= line_of(sentries[i as int].0, sentries[i as int].1));
                assert(views_of(lines@.push(line)) =~= views_of(lines@).push(line@));
                assert(header_lines(sentries).take(i + 1) =~= header_lines(sentries).take(
                    i as int,
                ).push(header_lines(sentries)[i as int]));
            }
            lines.push(line);
            i += 1;
        }
        proof {
            assert(header_lines(sentries).take(entries@.len() as int) =~= header_lines(sentries));
        }
        let sorted = crate::bytes::sort_lines(lines);
        let ghost sorted_views = header_lines(sentries).sort_by(lex_leq());
        let mut j: usize = 0;
        proof {
            assert(sorted_views.take(0) =~= Seq::<Seq<u8>>::empty());
            assert(out@ =~= head + join(sorted_views.take(0)));
        }
        while j < sorted.len()
            invariant
                0 <= j <= sorted@.len(),
                out@ == head + join(sorted_views.take(j as int)),
            decreases sorted@.len() - j,
        {
            out.extend_from_slice(sorted[j].as_slice());
            proof {
                lemma_join_push(sorted_views.take(j as int), sorted_views[j as int]);
                assert(sorted_views.take(j + 1) =~= sorted_views.take(j as int).push(
                    sorted_views[j as int]));
                assert(out@ =~= head + join(sorted_views.take(j + 1)));
            }
            j += 1;
        }
        proof {
            assert(sorted_views.take(sorted@.len() as int) =~= sorted_views);
        }
        out.push(13);
        out.push(10);
        out.push(13);
        out.push(10);
        out.extend_from_slice(self.body.as_slice());
        proof {
            assert(out@ =~= spec_serialize(
                self.version,
                self.status,
                self.headers.entries_view(),
                self.body@,
            ));
        }
        out
    }

    /// A response carrying only a status: version `HTTP/1.1`, no headers,
    /// empty body.
    pub fn from_status(status: Status) -> (r: Response)
        ensures
            r.version == Version::OneOne,
            r.status == status,
            r.headers@ == Map::<Seq<char>, Seq<char>>::empty(),
            r.headers.entries_view() == Seq::<(Seq<char>, Seq<char>)>::empty(),
            r.headers.wf(),
            r.body@ == Seq::<u8>::empty(),
    {
        Response { version: Version::OneOne, status, headers: Headers::new(), body: Vec::new() }
    }
}

/// Two no-duplicate sequences with the same elements describe the same
/// multiset.
proof fn lemma_same_elements_multiset<A>(s1: Seq<A>, s2: Seq<A>)
    requires
        s1.no_duplicates(),
        s2.no_duplicates(),
        forall|x: A| s1.contains(x) <==> s2.contains(x),
    ensures
        s1.to_multiset() == s2.to_multiset(),
{
    broadcast use vstd::seq_lib::group_to_multiset_ensures;

    s1.lemma_multiset_has_no_duplicates();
    s2.lemma_multiset_has_no_duplicates();
    assert forall|x: A| s1.to_multiset().count(x) == s2.to_multiset().count(x) by {
        if s1.contains(x) {
        } else {
            assert(s1.to_multiset().count(x) == 0);
            assert(s2.to_multiset().count(x) == 0);
        }
    }
    assert(s1.to_multiset() =~= s2.to_multiset());
}

/// Mapping a function over two permutations of the same elements yields
/// permutations again.
proof fn lemma_map_values_multiset<A, B>(s1: Seq<A>, s2: Seq<A>, f: spec_fn(A) -> B)
    requires
        s1.to_multiset() == s2.to_multiset(),
    ensures
        s1.map_values(f).to_multiset() == s2.map_values(f).to_multiset(),
    decreases s1.len(),
{
    broadcast use vstd::seq_lib::group_to_multiset_ensures;
    broadcast use vstd::multiset::group_multiset_axioms;

    if s1.len() == 0 {
        assert(s1.to_multiset().len() == s1.len());
        assert(s2.to_multiset().len() == s2.len());
        assert(s2.len() == 0);
        assert(s1.map_values(f) =~= s2.map_values(f));
    } else {
        let x = s1.last();
        assert(s1.contains(x));
        assert(s1.to_multiset().count(x) > 0);
        assert(s2.to_multiset().count(x) > 0);
        assert(s2.contains(x));
        let j = choose|j: int| 0 <= j < s2.len() && s2[j] == x;
        let s1p = s1.drop_last();
        let s2p = s2.remove(j);
        assert(s1.remove(s1.len() - 1) =~= s1p);
        assert(s1p.to_multiset() =~= s1.to_multiset().remove(x));
        assert(s2p.to_multiset() =~= s2.to_multiset().remove(x));
        lemma_map_values_multiset(s1p, s2p, f);
        assert(s1.map_values(f) =~= s1p.map_values(f).push(f(x)));
        assert(s1.map_values(f).to_multiset() =~= s1p.map_values(f).to_multiset().insert(f(x)));
        assert(s2p.map_values(f) =~= s2.map_values(f).remove(j));
        assert(s2.map_values(f).remove(j).to_multiset() =~= s2.map_values(f).to_multiset().remove(
            s2.map_values(f)[j]));
        assert(s2.map_values(f)[j] == f(x));
        assert(s2.map_values(f).contains(f(x)));
        assert(s2.map_values(f).to_multiset().count(f(x)) > 0);
        assert(s2.map_values(f).to_multiset().remove(f(x)).insert(f(x)) =~= s2.map_values(
            f,
        ).to_multiset());
        assert(s1.map_values(f).to_multiset() =~= s2.map_values(f).to_multiset());
    }
}

/// Law: serialization depends on the header mapping alone.  Two entry
/// sequences with unique names that describe the same mapping — headers
/// inserted in any order — serialize to the same bytes.
pub proof fn lemma_serialize_header_order_irrelevant(
    version: Version,
    status: Status,
    e1: Seq<(Seq<char>, Seq<char>)>,
    e2: Seq<(Seq<char>, Seq<char>)>,
    body: Seq<u8>,
)
    requires
        unique_keys(e1),
        unique_keys(e2),
        map_of(e1) == map_of(e2),
    ensures
        spec_serialize(version, status, e1, body) == spec_serialize(version, status, e2, body),
{
    assert forall|p: (Seq<char>, Seq<char>)| e1.contains(p) <==> e2.contains(p) by {
        if e1.contains(p) {
            let i = choose|i: int| 0 <= i < e1.len() && e1[i] == p;
            lemma_map_of_index(e1, i);
            lemma_map_of_contains(e2, p.0);
            let j = choose|j: int| 0 <= j < e2.len() && e2[j].0 == p.0;
            lemma_map_of_index(e2, j);
            assert(e2[j] == p);
        }
        if e2.contains(p) {
            let i = choose|i: int| 0 <= i < e2.len() && e2[i] == p;
            lemma_map_of_index(e2, i);
            lemma_map_of_contains(e1, p.0);
            let j = choose|j: int| 0 <= j < e1.len() && e1[j].0 == p.0;
            lemma_map_of_index(e1, j);
            assert(e1[j] == p);
        }
    }
    assert(e1.no_duplicates()) by {
        assert forall|i: int, j: int|
            0 <= i < e1.len() && 0 <= j < e1.len() && i != j implies e1[i] != e1[j] by {
            if i < j {
                assert(e1[i].0 != e1[j].0);
            } else {
                assert(e1[j].0 != e1[i].0);
            }
        }
    }
    assert(e2.no_duplicates()) by {
        assert forall|i: int, j: int|
            0 <= i < e2.len() && 0 <= j < e2.len() && i != j implies e2[i] != e2[j] by {
            if i < j {
                assert(e2[i].0 != e2[j].0);
            } else {
                assert(e2[j].0 != e2[i].0);
            }
        }
    }
    lemma_same_elements_multiset(e1, e2);
    lemma_map_values_multiset(e1, e2, |p: (Seq<char>, Seq<char>)| line_of(p.0, p.1));
    lemma_lex_total_ordering();
    header_lines(e1).lemma_sort_by_ensures(lex_leq());
    header_lines(e2).lemma_sort_by_ensures(lex_leq());
    vstd::seq_lib::lemma_sorted_unique(
        header_lines(e1).sort_by(lex_leq()),
        header_lines(e2).sort_by(lex_leq()),
        lex_leq(),
    );
    assert(header_lines(e1).sort_by(lex_leq()) == header_lines(e2).sort_by(lex_leq()));
}

/// Law: two responses that agree on version, status, header mapping and
/// body serialize to the same bytes, whatever order their headers were
/// inserted in.
pub proof fn lemma_to_bytes_order_independent(r1: &Response, r2: &Response)
    requires
        r1.headers.wf(),
        r2.headers.wf(),
        r1.version == r2.version,
        r1.status == r2.status,
        r1.headers@ == r2.headers@,
        r1.body@ == r2.body@,
    ensures
        spec_serialize(r1.version, r1.status, r1.headers.entries_view(), r1.body@)
            == spec_serialize(r2.version, r2.status, r2.headers.entries_view(), r2.body@),
{
    lemma_serialize_header_order_irrelevant(
        r1.version,
        r1.status,
        r1.headers.entries_view(),
        r2.headers.entries_view(),
        r1.body@,
    );
}

} // verus!
