//! Canonicalization: the deterministic normal form of a request.
//!
//! The canonical request is the exact hashing input of the signature, so
//! every step here is byte-for-byte fixed: percent-encoding over UTF-8
//! bytes with uppercase hex digits, query parameters sorted by encoded
//! key then encoded value, header names lowercased and values trimmed,
//! headers sorted by name, and a fixed line layout.
use vstd::prelude::*;

use crate::chars::{
    lemma_lex_le_antisymmetric, lemma_lex_le_refl, lemma_lex_le_total, lemma_lex_le_transitive,
    lex_le, spec_trim, str_eq, str_le, trim,
};
use crate::headers::{header_views, HeaderMap, HeaderSeq};
use crate::hex::{hex_digit_upper, spec_hex_digit_upper};
use vstd::relations::{sorted_by, total_ordering};
use vstd::seq_lib::lemma_sorted_unique;

verus! {

/// A byte that percent-encoding leaves as itself: ASCII letters, digits,
/// hyphen, period, underscore and tilde.
pub open spec fn spec_unreserved(b: u8) -> bool {
    (65 <= b && b <= 90) || (97 <= b && b <= 122) || (48 <= b && b <= 57) || b == 45 || b == 46
        || b == 95 || b == 126
}

/// The encoding of one byte: itself if unreserved (or a kept slash),
/// otherwise a percent escape with two uppercase hex digits.
pub open spec fn spec_encode_byte(b: u8, keep_slash: bool) -> Seq<char> {
    if spec_unreserved(b) || (keep_slash && b == 47) {
        seq![b as char]
    } else {
        seq!['%', spec_hex_digit_upper(b as int / 16), spec_hex_digit_upper(b as int % 16)]
    }
}

/// The encoding of a byte string, byte by byte.
pub open spec fn spec_encode_bytes(bs: Seq<u8>, keep_slash: bool) -> Seq<char>
    decreases bs.len(),
{
    if bs.len() == 0 {
        Seq::empty()
    } else {
        spec_encode_byte(bs[0], keep_slash) + spec_encode_bytes(bs.drop_first(), keep_slash)
    }
}

/// The percent-encoding of a character string: its UTF-8 bytes, encoded.
pub open spec fn spec_uri_encode(s: Seq<char>, keep_slash: bool) -> Seq<char> {
    spec_encode_bytes(vstd::utf8::encode_utf8(s), keep_slash)
}

proof fn lemma_encode_bytes_push(bs: Seq<u8>, b: u8, keep_slash: bool)
    ensures
        spec_encode_bytes(bs.push(b), keep_slash) == spec_encode_bytes(bs, keep_slash)
            + spec_encode_byte(b, keep_slash),
    decreases bs.len(),
{
    if bs.len() == 0 {
        let s = bs.push(b);
        assert(s.drop_first() =~= Seq::<u8>::empty());
        assert(spec_encode_bytes(s.drop_first(), keep_slash) =~= Seq::<char>::empty());
        assert(spec_encode_bytes(s, keep_slash) =~= spec_encode_byte(b, keep_slash));
        assert(spec_encode_bytes(bs, keep_slash) + spec_encode_byte(b, keep_slash)
            =~= spec_encode_byte(b, keep_slash));
    } else {
        assert(bs.push(b).drop_first() =~= bs.drop_first().push(b));
        lemma_encode_bytes_push(bs.drop_first(), b, keep_slash);
        assert(spec_encode_bytes(bs.push(b), keep_slash) =~= spec_encode_byte(bs[0], keep_slash)
            + (spec_encode_bytes(bs.drop_first(), keep_slash) + spec_encode_byte(b, keep_slash)));
        assert(spec_encode_byte(bs[0], keep_slash) + (spec_encode_bytes(bs.drop_first(), keep_slash)
            + spec_encode_byte(b, keep_slash)) =~= (spec_encode_byte(bs[0], keep_slash)
            + spec_encode_bytes(bs.drop_first(), keep_slash)) + spec_encode_byte(b, keep_slash));
    }
}

fn unreserved(b: u8) -> (r: bool)
    ensures
        r == spec_unreserved(b),
{
    (65 <= b && b <= 90) || (97 <= b && b <= 122) || (48 <= b && b <= 57) || b == 45 || b == 46
        || b == 95 || b == 126
}

/// Percent-encodes a string over its UTF-8 bytes. With `keep_slash` the
/// path separator is preserved, as the canonical URI requires.
pub fn uri_encode(s: &str, keep_slash: bool) -> (r: String)
    ensures
        r@ == spec_uri_encode(s@, keep_slash),
{
    let bs = s.as_bytes();
    let mut out = String::new();
    let mut i: usize = 0;
    let n = bs.len();
    while i < n
        invariant
            i <= n,
            n == bs@.len(),
            bs@ == vstd::utf8::encode_utf8(s@),
            out@ == spec_encode_bytes(bs@.take(i as int), keep_slash),
        decreases n - i,
    {
        let b = bs[i];
        if unreserved(b) || (keep_slash && b == 47) {
            crate::strings::push_char(&mut out, b as char);
        } else {
            crate::strings::push_char(&mut out, '%');
            let hi = hex_digit_upper(b / 16);
            let lo = hex_digit_upper(b % 16);
            crate::strings::push_char(&mut out, hi);
            crate::strings::push_char(&mut out, lo);
        }
        proof {
            assert(bs@.take(i + 1) =~= bs@.take(i as int).push(bs@[i as int]));
            lemma_encode_bytes_push(bs@.take(i as int), bs@[i as int], keep_slash);
            assert(out@ =~= spec_encode_bytes(bs@.take(i as int), keep_slash) + spec_encode_byte(
                bs@[i as int],
                keep_slash,
            ));
        }
        i = i + 1;
    }
    proof {
        assert(bs@.take(n as int) =~= bs@);
    }
    out
}

/// The order canonicalization sorts by: first component in code-point
/// order, ties broken by the second component.
pub open spec fn spec_pair_le(a: (Seq<char>, Seq<char>), b: (Seq<char>, Seq<char>)) -> bool {
    if a.0 == b.0 {
        lex_le(a.1, b.1)
    } else {
        lex_le(a.0, b.0)
    }
}

/// `spec_pair_le` as a relation value.
pub open spec fn pair_order() -> spec_fn((Seq<char>, Seq<char>), (Seq<char>, Seq<char>)) -> bool {
    |a: (Seq<char>, Seq<char>), b: (Seq<char>, Seq<char>)| spec_pair_le(a, b)
}

/// The pair order is a total order, so a sorted arrangement of any set of
/// entries is unique.
pub proof fn lemma_pair_order_total()
    ensures
        total_ordering(pair_order()),
{
    let r = pair_order();
    assert forall|x: (Seq<char>, Seq<char>)| #[trigger] r(x, x) by {
        lemma_lex_le_refl(x.1);
    }
    assert forall|x: (Seq<char>, Seq<char>), y: (Seq<char>, Seq<char>)|
        #[trigger] r(x, y) && #[trigger] r(y, x) implies x == y by {
        if x.0 == y.0 {
            lemma_lex_le_antisymmetric(x.1, y.1);
        } else {
            lemma_lex_le_antisymmetric(x.0, y.0);
        }
    }
    assert forall|x: (Seq<char>, Seq<char>), y: (Seq<char>, Seq<char>), z: (Seq<char>, Seq<char>)|
        #[trigger] r(x, y) && #[trigger] r(y, z) implies r(x, z) by {
        if x.0 == y.0 && y.0 == z.0 {
            lemma_lex_le_transitive(x.1, y.1, z.1);
        } else if x.0 == y.0 {
            assert(r(x, z));
        } else if y.0 == z.0 {
            assert(r(x, z));
        } else {
            lemma_lex_le_transitive(x.0, y.0, z.0);
            if x.0 == z.0 {
                lemma_lex_le_antisymmetric(x.0, y.0);
            }
        }
    }
    assert forall|x: (Seq<char>, Seq<char>), y: (Seq<char>, Seq<char>)|
        #[trigger] r(x, y) || #[trigger] r(y, x) by {
        if x.0 == y.0 {
            lemma_lex_le_total(x.1, y.1);
        } else {
            lemma_lex_le_total(x.0, y.0);
        }
    }
}

fn pair_le(a: &(String, String), b: &(String, String)) -> (r: bool)
    ensures
        r == spec_pair_le((a.0@, a.1@), (b.0@, b.1@)),
{
    if str_eq(a.0.as_str(), b.0.as_str()) {
        str_le(a.1.as_str(), b.1.as_str())
    } else {
        str_le(a.0.as_str(), b.0.as_str())
    }
}

/// Sorts owned entries by the pair order. The result is the unique sorted
/// arrangement of the input entries.
pub fn sort_entries(input: Vec<(String, String)>) -> (r: Vec<(String, String)>)
    ensures
        header_views(r@) == header_views(input@).sort_by(pair_order()),
{
    let ghost iv = header_views(input@);
    let mut out: Vec<(String, String)> = Vec::new();
    let n = input.len();
    let mut i: usize = 0;
    proof {
        assert(header_views(out@) =~= Seq::<(Seq<char>, Seq<char>)>::empty());
        assert(header_views(input@).take(0) =~= Seq::<(Seq<char>, Seq<char>)>::empty());
    }
    while i < n
        invariant
            i <= n,
            n == input@.len(),
            iv == header_views(input@),
            sorted_by(header_views(out@), pair_order()),
            header_views(out@).to_multiset() == header_views(input@).take(i as int).to_multiset(),
        decreases n - i,
    {
        let x = (input[i].0.clone(), input[i].1.clone());
        let ghost xv = (input@[i as int].0@, input@[i as int].1@);
        let m = out.len();
        let mut p: usize = 0;
        while p < m && pair_le(&out[p], &x)
            invariant
                p <= m,
                m == out@.len(),
                xv == (x.0@, x.1@),
                forall|j: int| 0 <= j < p ==> pair_order()(header_views(out@)[j], xv),
            decreases m - p,
        {
            proof {
                assert(header_views(out@)[p as int] == (out@[p as int].0@, out@[p as int].1@));
            }
            p = p + 1;
        }
        let ghost prev = header_views(out@);
        out.insert(p, x);
        proof {
            lemma_pair_order_total();
            let cur = header_views(out@);
            assert(cur =~= prev.insert(p as int, xv));
            if p < m {
                assert(prev[p as int] == (out@[p + 1].0@, out@[p + 1].1@));
                assert(!pair_order()(prev[p as int], xv));
                assert(pair_order()(xv, prev[p as int]));
            }
            assert forall|a: int, b: int| 0 <= a < b < cur.len() implies pair_order()(
                cur[a],
                cur[b],
            ) by {
                let ord = pair_order();
                if b < p {
                    assert(cur[a] == prev[a] && cur[b] == prev[b]);
                } else if a > p {
                    assert(cur[a] == prev[a - 1] && cur[b] == prev[b - 1]);
                } else if a == p {
                    assert(cur[a] == xv && cur[b] == prev[b - 1]);
                    assert(ord(xv, prev[p as int]));
                    if b - 1 > p {
                        assert(ord(prev[p as int], prev[b - 1]));
                    }
                } else if b == p {
                    assert(cur[a] == prev[a] && cur[b] == xv);
                    assert(ord(prev[a], xv));
                } else {
                    assert(a < p && b > p);
                    assert(cur[a] == prev[a] && cur[b] == prev[b - 1]);
                    assert(ord(prev[a], prev[b - 1]));
                }
            }
            assert(cur.to_multiset() =~= prev.to_multiset().insert(xv)) by {
                lemma_insert_multiset(prev, p as int, xv);
            }
            assert(header_views(input@).take(i + 1) =~= header_views(input@).take(i as int).push(
                xv,
            ));
            header_views(input@).take(i as int).to_multiset_ensures();
        }
        i = i + 1;
    }
    proof {
        lemma_pair_order_total();
        assert(header_views(input@).take(n as int) =~= header_views(input@));
        let sorted = header_views(input@).sort_by(pair_order());
        header_views(input@).lemma_sort_by_ensures(pair_order());
        lemma_sorted_unique(header_views(out@), sorted, pair_order());
    }
    out
}

/// Entries with their values trimmed of surrounding whitespace, names
/// untouched.
pub open spec fn spec_trim_values(s: HeaderSeq) -> HeaderSeq {
    s.map_values(|p: (Seq<char>, Seq<char>)| (p.0, spec_trim(p.1)))
}

/// Query entries with key and value percent-encoded.
pub open spec fn spec_encode_pairs(s: HeaderSeq) -> HeaderSeq {
    s.map_values(
        |p: (Seq<char>, Seq<char>)| (spec_uri_encode(p.0, false), spec_uri_encode(p.1, false)),
    )
}

/// The headers of a request in canonical form: values trimmed, entries
/// sorted by name (ties by value).
pub open spec fn spec_canonical_entries(s: HeaderSeq) -> HeaderSeq {
    spec_trim_values(s).sort_by(pair_order())
}

/// `key=value` entries joined by `&`.
pub open spec fn spec_render_query(s: HeaderSeq) -> Seq<char>
    decreases s.len(),
{
    if s.len() == 0 {
        Seq::empty()
    } else if s.len() == 1 {
        s[0].0 + seq!['='] + s[0].1
    } else {
        spec_render_query(s.drop_last()) + seq!['&'] + s.last().0 + seq!['='] + s.last().1
    }
}

/// The canonical query string: entries encoded, sorted, joined.
pub open spec fn spec_canonical_query(s: HeaderSeq) -> Seq<char> {
    spec_render_query(spec_encode_pairs(s).sort_by(pair_order()))
}

/// `name:value` lines, each closed by a newline.
pub open spec fn spec_render_headers(s: HeaderSeq) -> Seq<char>
    decreases s.len(),
{
    if s.len() == 0 {
        Seq::empty()
    } else {
        spec_render_headers(s.drop_last()) + s.last().0 + seq![':'] + s.last().1 + seq!['\n']
    }
}

/// The canonical headers block of a header list.
pub open spec fn spec_canonical_headers(s: HeaderSeq) -> Seq<char> {
    spec_render_headers(spec_canonical_entries(s))
}

/// The names of the entries joined by `;`.
pub open spec fn spec_render_signed(s: HeaderSeq) -> Seq<char>
    decreases s.len(),
{
    if s.len() == 0 {
        Seq::empty()
    } else if s.len() == 1 {
        s[0].0
    } else {
        spec_render_signed(s.drop_last()) + seq![';'] + s.last().0
    }
}

/// The signed-headers list of a header list: the sorted names, joined.
pub open spec fn spec_signed_headers(s: HeaderSeq) -> Seq<char> {
    spec_render_signed(spec_canonical_entries(s))
}

/// The canonical URI: the percent-encoded path with `/` preserved; an
/// empty path becomes `/`.
pub open spec fn spec_canonical_uri(path: Seq<char>) -> Seq<char> {
    if path.len() == 0 {
        seq!['/']
    } else {
        spec_uri_encode(path, true)
    }
}

/// The full canonical request over its parts: method, canonical URI,
/// canonical query, canonical headers, signed headers and the payload
/// hash, each on its own line.
pub open spec fn spec_canonical_request(
    method: Seq<char>,
    path: Seq<char>,
    query: HeaderSeq,
    headers: HeaderSeq,
    payload: Seq<char>,
) -> Seq<char> {
    method + seq!['\n'] + spec_canonical_uri(path) + seq!['\n'] + spec_canonical_query(query)
        + seq!['\n'] + spec_canonical_headers(headers) + seq!['\n'] + spec_signed_headers(headers)
        + seq!['\n'] + payload
}

/// Renders the canonical URI of a path.
pub fn canonical_uri(path: &str) -> (r: String)
    ensures
        r@ == spec_canonical_uri(path@),
{
    if path.unicode_len() == 0 {
        let mut out = String::new();
        crate::strings::push_char(&mut out, '/');
        proof {
            assert(out@ =~= seq!['/']);
        }
        out
    } else {
        uri_encode(path, true)
    }
}

/// Renders `key=value` entries joined by `&`, in the given order.
fn render_query(entries: &Vec<(String, String)>) -> (r: String)
    ensures
        r@ == spec_render_query(header_views(entries@)),
{
    let mut out = String::new();
    let n = entries.len();
    let mut i: usize = 0;
    while i < n
        invariant
            i <= n,
            n == entries@.len(),
            out@ == spec_render_query(header_views(entries@).take(i as int)),
        decreases n - i,
    {
        if i > 0 {
            crate::strings::push_char(&mut out, '&');
        }
        crate::strings::push_str(&mut out, entries[i].0.as_str());
        crate::strings::push_char(&mut out, '=');
        crate::strings::push_str(&mut out, entries[i].1.as_str());
        proof {
            let hv = header_views(entries@);
            let t1 = hv.take(i + 1);
            assert(t1.drop_last() =~= hv.take(i as int));
            assert(t1.last() == (entries@[i as int].0@, entries@[i as int].1@));
            if i == 0 {
                assert(out@ =~= t1[0].0 + seq!['='] + t1[0].1);
            } else {
                assert(out@ =~= spec_render_query(t1.drop_last()) + seq!['&'] + t1.last().0
                    + seq!['='] + t1.last().1);
            }
        }
        i = i + 1;
    }
    proof {
        assert(header_views(entries@).take(n as int) =~= header_views(entries@));
    }
    out
}

/// Renders `name:value` lines in the given order.
fn render_headers(entries: &Vec<(String, String)>) -> (r: String)
    ensures
        r@ == spec_render_headers(header_views(entries@)),
{
    let mut out = String::new();
    let n = entries.len();
    let mut i: usize = 0;
    while i < n
        invariant
            i <= n,
            n == entries@.len(),
            out@ == spec_render_headers(header_views(entries@).take(i as int)),
        decreases n - i,
    {
        crate::strings::push_str(&mut out, entries[i].0.as_str());
        crate::strings::push_char(&mut out, ':');
        crate::strings::push_str(&mut out, entries[i].1.as_str());
        crate::strings::push_char(&mut out, '\n');
        proof {
            let hv = header_views(entries@);
            let t1 = hv.take(i + 1);
            assert(t1.drop_last() =~= hv.take(i as int));
            assert(t1.last() == (entries@[i as int].0@, entries@[i as int].1@));
            assert(out@ =~= spec_render_headers(t1.drop_last()) + t1.last().0 + seq![':']
                + t1.last().1 + seq!['\n']);
        }
        i = i + 1;
    }
    proof {
        assert(header_views(entries@).take(n as int) =~= header_views(entries@));
    }
    out
}

/// Renders the names joined by `;`, in the given order.
fn render_signed(entries: &Vec<(String, String)>) -> (r: String)
    ensures
        r@ == spec_render_signed(header_views(entries@)),
{
    let mut out = String::new();
    let n = entries.len();
    let mut i: usize = 0;
    while i < n
        invariant
            i <= n,
            n == entries@.len(),
            out@ == spec_render_signed(header_views(entries@).take(i as int)),
        decreases n - i,
    {
        if i > 0 {
            crate::strings::push_char(&mut out, ';');
        }
        crate::strings::push_str(&mut out, entries[i].0.as_str());
        proof {
            let hv = header_views(entries@);
            let t1 = hv.take(i + 1);
            assert(t1.drop_last() =~= hv.take(i as int));
            assert(t1.last() == (entries@[i as int].0@, entries@[i as int].1@));
            if i == 0 {
                assert(out@ =~= t1[0].0);
            } else {
                assert(out@ =~= spec_render_signed(t1.drop_last()) + seq![';'] + t1.last().0);
            }
        }
        i = i + 1;
    }
    proof {
        assert(header_views(entries@).take(n as int) =~= header_views(entries@));
    }
    out
}

/// The canonical query string of a parameter list: keys and values
/// percent-encoded, entries sorted, joined with `&`.
pub fn canonical_query(query: &Vec<(String, String)>) -> (r: String)
    ensures
        r@ == spec_canonical_query(header_views(query@)),
{
    let mut encoded: Vec<(String, String)> = Vec::new();
    let nq = query.len();
    let mut i: usize = 0;
    proof {
        assert(header_views(encoded@) =~= spec_encode_pairs(header_views(query@)).take(0));
    }
    while i < nq
        invariant
            i <= nq,
            nq == query@.len(),
            header_views(encoded@) == spec_encode_pairs(header_views(query@)).take(i as int),
        decreases nq - i,
    {
        let k = uri_encode(query[i].0.as_str(), false);
        let v = uri_encode(query[i].1.as_str(), false);
        let ghost kv = k@;
        let ghost vv = v@;
        let ghost preve = encoded@;
        encoded.push((k, v));
        proof {
            assert(header_views(encoded@) =~= header_views(preve).push((kv, vv)));
            let qv = header_views(query@);
            assert(qv[i as int] == (query@[i as int].0@, query@[i as int].1@));
            assert(spec_encode_pairs(qv)[i as int] == (spec_uri_encode(qv[i as int].0, false),
                spec_uri_encode(qv[i as int].1, false)));
            assert(header_views(encoded@) =~= spec_encode_pairs(qv).take(i + 1));
        }
        i = i + 1;
    }
    proof {
        let qv = header_views(query@);
        assert(spec_encode_pairs(qv).take(nq as int) =~= spec_encode_pairs(qv));
    }
    let sorted = sort_entries(encoded);
    render_query(&sorted)
}

/// The canonical entries of a header collection: values trimmed, sorted
/// by name.
pub fn canonical_entries(headers: &HeaderMap) -> (r: Vec<(String, String)>)
    ensures
        header_views(r@) == spec_canonical_entries(headers@),
{
    let raw = headers.entries_vec();
    let mut trimmed: Vec<(String, String)> = Vec::new();
    let n = raw.len();
    let mut i: usize = 0;
    proof {
        assert(header_views(trimmed@) =~= spec_trim_values(headers@).take(0));
    }
    while i < n
        invariant
            i <= n,
            n == raw@.len(),
            header_views(raw@) == headers@,
            header_views(trimmed@) == spec_trim_values(headers@).take(i as int),
        decreases n - i,
    {
        let name = raw[i].0.clone();
        let value = trim(raw[i].1.as_str());
        let ghost nv = name@;
        let ghost vv = value@;
        let ghost prevt = trimmed@;
        trimmed.push((name, value));
        proof {
            assert(header_views(trimmed@) =~= header_views(prevt).push((nv, vv)));
            assert(headers@[i as int] == (raw@[i as int].0@, raw@[i as int].1@));
            assert(spec_trim_values(headers@)[i as int] == (headers@[i as int].0, spec_trim(
                headers@[i as int].1,
            )));
            assert(header_views(trimmed@) =~= spec_trim_values(headers@).take(i + 1));
        }
        i = i + 1;
    }
    proof {
        assert(spec_trim_values(headers@).take(n as int) =~= spec_trim_values(headers@));
    }
    sort_entries(trimmed)
}

/// The canonical request string and the ordered signed-header names it
/// covers: the two must always agree, so they are produced together.
pub struct CanonicalRequest {
    text: String,
    signed_headers: String,
}

impl CanonicalRequest {
    /// The canonical request string, the exact hashing input.
    pub closed spec fn spec_text(&self) -> Seq<char> {
        self.text@
    }

    /// The sorted, semicolon-joined signed-header names.
    pub closed spec fn spec_signed(&self) -> Seq<char> {
        self.signed_headers@
    }

    pub fn text(&self) -> (r: &str)
        ensures
            r@ == self.spec_text(),
    {
        self.text.as_str()
    }

    pub fn signed_headers(&self) -> (r: &str)
        ensures
            r@ == self.spec_signed(),
    {
        self.signed_headers.as_str()
    }

    /// Builds the canonical request from its parts. Byte-for-byte
    /// deterministic: equal parts always yield the equal string.
    pub fn from_parts(
        method: &str,
        path: &str,
        query: &Vec<(String, String)>,
        headers: &HeaderMap,
        payload: &crate::crypto::HashedPayload,
    ) -> (r: CanonicalRequest)
        ensures
            r.spec_text() == spec_canonical_request(
                method@,
                path@,
                header_views(query@),
                headers@,
                payload@,
            ),
            r.spec_signed() == spec_signed_headers(headers@),
    {
        let query_string = canonical_query(query);

        let sorted_headers = canonical_entries(headers);
        let headers_block = render_headers(&sorted_headers);
        let signed = render_signed(&sorted_headers);

        let uri = canonical_uri(path);

        let mut text = String::new();
        crate::strings::push_str(&mut text, method);
        crate::strings::push_char(&mut text, '\n');
        crate::strings::push_str(&mut text, uri.as_str());
        crate::strings::push_char(&mut text, '\n');
        crate::strings::push_str(&mut text, query_string.as_str());
        crate::strings::push_char(&mut text, '\n');
        crate::strings::push_str(&mut text, headers_block.as_str());
        crate::strings::push_char(&mut text, '\n');
        crate::strings::push_str(&mut text, signed.as_str());
        crate::strings::push_char(&mut text, '\n');
        crate::strings::push_str(&mut text, payload.as_str());
        proof {
            assert(text@ =~= spec_canonical_request(
                method@,
                path@,
                header_views(query@),
                headers@,
                payload@,
            ));
        }
        CanonicalRequest { text, signed_headers: signed }
    }
}

/// Sequences with equal multisets keep equal multisets under a map.
proof fn lemma_map_values_multiset<A, B>(s1: Seq<A>, s2: Seq<A>, f: spec_fn(A) -> B)
    requires
        s1.to_multiset() == s2.to_multiset(),
    ensures
        s1.map_values(f).to_multiset() == s2.map_values(f).to_multiset(),
    decreases s1.len(),
{
    broadcast use vstd::multiset::group_multiset_axioms;

    s1.to_multiset_ensures();
    s2.to_multiset_ensures();
    s1.map_values(f).to_multiset_ensures();
    s2.map_values(f).to_multiset_ensures();
    if s1.len() == 0 {
        assert(s2.len() == 0);
        assert(s1.map_values(f) =~= Seq::<B>::empty());
        assert(s2.map_values(f) =~= Seq::<B>::empty());
        assert(s1.map_values(f).to_multiset() =~= s2.map_values(f).to_multiset());
    } else {
        let x = s1.last();
        let s1d = s1.drop_last();
        assert(s1.contains(x));
        assert(s1.to_multiset().count(x) > 0);
        assert(s2.to_multiset().count(x) > 0);
        assert(s2.contains(x));
        let i = choose|i: int| 0 <= i < s2.len() && s2[i] == x;
        let s2r = s2.remove(i);
        s2r.to_multiset_ensures();
        s1d.to_multiset_ensures();
        assert(s1.remove(s1.len() - 1) =~= s1d);
        assert(s1d.to_multiset() =~= s1.to_multiset().remove(x));
        assert(s2r.to_multiset() =~= s2.to_multiset().remove(x));
        lemma_map_values_multiset(s1d, s2r, f);
        s1d.map_values(f).to_multiset_ensures();
        s2r.map_values(f).to_multiset_ensures();
        assert(s1.map_values(f) =~= s1d.map_values(f).push(f(x)));
        assert(s1.map_values(f).to_multiset() =~= s1d.map_values(f).to_multiset().insert(f(x)));
        assert(s2r.map_values(f) =~= s2.map_values(f).remove(i));
        assert(s2.map_values(f)[i] == f(x));
        assert(s2.map_values(f).remove(i).to_multiset() =~= s2.map_values(f).to_multiset().remove(
            f(x),
        ));
        assert(s2.map_values(f).to_multiset().contains(f(x))) by {
            assert(s2.map_values(f)[i] == f(x));
            assert(s2.map_values(f).contains(f(x)));
        }
        assert(s2.map_values(f).to_multiset().remove(f(x)).insert(f(x)) =~= s2.map_values(
            f,
        ).to_multiset());
        assert(s1.map_values(f).to_multiset() =~= s2.map_values(f).to_multiset());
    }
}

/// Canonicalization is independent of header insertion order: two header
/// lists that hold the same entries, in whatever order, canonicalize to
/// the same headers block and the same signed-headers list, and therefore
/// to the same canonical request.
pub proof fn lemma_canonical_order_independent(h1: HeaderSeq, h2: HeaderSeq)
    requires
        h1.to_multiset() == h2.to_multiset(),
    ensures
        spec_canonical_entries(h1) == spec_canonical_entries(h2),
        spec_canonical_headers(h1) == spec_canonical_headers(h2),
        spec_signed_headers(h1) == spec_signed_headers(h2),
{
    lemma_pair_order_total();
    lemma_map_values_multiset(
        h1,
        h2,
        |p: (Seq<char>, Seq<char>)| (p.0, spec_trim(p.1)),
    );
    let t1 = spec_trim_values(h1);
    let t2 = spec_trim_values(h2);
    assert(t1.to_multiset() == t2.to_multiset());
    t1.lemma_sort_by_ensures(pair_order());
    t2.lemma_sort_by_ensures(pair_order());
    assert(t1.sort_by(pair_order()).to_multiset() == t2.sort_by(pair_order()).to_multiset());
    lemma_sorted_unique(t1.sort_by(pair_order()), t2.sort_by(pair_order()), pair_order());
    assert(spec_canonical_entries(h1) =~= spec_canonical_entries(h2));
}

/// The whole canonical request is independent of header insertion
/// order: over two header lists holding the same entries it is the same
/// string, whatever order they were supplied in.
pub proof fn lemma_canonical_request_order_independent(
    method: Seq<char>,
    path: Seq<char>,
    query: HeaderSeq,
    h1: HeaderSeq,
    h2: HeaderSeq,
    payload: Seq<char>,
)
    requires
        h1.to_multiset() == h2.to_multiset(),
    ensures
        spec_canonical_request(method, path, query, h1, payload) == spec_canonical_request(
            method,
            path,
            query,
            h2,
            payload,
        ),
{
    lemma_canonical_order_independent(h1, h2);
}

/// Inserting into a sequence adds exactly that element to its multiset.
proof fn lemma_insert_multiset<A>(s: Seq<A>, p: int, x: A)
    requires
        0 <= p <= s.len(),
    ensures
        s.insert(p, x).to_multiset() == s.to_multiset().insert(x),
    decreases s.len() - p,
{
    s.to_multiset_ensures();
    if p == s.len() {
        assert(s.insert(p, x) =~= s.push(x));
        s.to_multiset_ensures();
        assert(s.push(x).to_multiset() =~= s.to_multiset().insert(x));
    } else {
        let t = s.insert(p, x);
        let last = s.last();
        let s1 = s.drop_last();
        assert(t =~= s1.insert(p, x).push(last));
        lemma_insert_multiset(s1, p, x);
        s1.insert(p, x).to_multiset_ensures();
        s1.to_multiset_ensures();
        assert(s =~= s1.push(last));
        assert(t.to_multiset() =~= s1.insert(p, x).to_multiset().insert(last));
        assert(s.to_multiset() =~= s1.to_multiset().insert(last));
        assert(s1.to_multiset().insert(x).insert(last) =~= s1.to_multiset().insert(last).insert(
            x,
        ));
        assert(t.to_multiset() =~= s.to_multiset().insert(x));
    }
}

} // verus!
