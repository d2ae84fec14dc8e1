//! Character-sequence utilities: code-point order, ASCII lowercasing
//! and whitespace trimming.
//!
//! Canonicalization sorts and normalizes header names and query
//! parameters; the order used everywhere is the lexicographic order on
//! code points defined here, proved to be a total order so that a sorted
//! rendering is unique.
use vstd::prelude::*;

verus! {

/// Lexicographic "less or equal" on character sequences, by code point.
pub open spec fn lex_le(a: Seq<char>, b: Seq<char>) -> bool
    decreases a.len(),
{
    if a.len() == 0 {
        true
    } else if b.len() == 0 {
        false
    } else if (a[0] as u32) < (b[0] as u32) {
        true
    } else if (a[0] as u32) > (b[0] as u32) {
        false
    } else {
        lex_le(a.drop_first(), b.drop_first())
    }
}

pub proof fn lemma_lex_le_refl(a: Seq<char>)
    ensures
        lex_le(a, a),
    decreases a.len(),
{
    if a.len() > 0 {
        lemma_lex_le_refl(a.drop_first());
    }
}

pub proof fn lemma_lex_le_total(a: Seq<char>, b: Seq<char>)
    ensures
        lex_le(a, b) || lex_le(b, a),
    decreases a.len(),
{
    if a.len() > 0 && b.len() > 0 && a[0] as u32 == b[0] as u32 {
        lemma_lex_le_total(a.drop_first(), b.drop_first());
    }
}

pub proof fn lemma_lex_le_antisymmetric(a: Seq<char>, b: Seq<char>)
    requires
        lex_le(a, b),
        lex_le(b, a),
    ensures
        a == b,
    decreases a.len(),
{
    if a.len() == 0 {
        assert(b.len() == 0);
        assert(a =~= b);
    } else {
        assert(b.len() > 0);
        assert(a[0] as u32 == b[0] as u32);
        assert(a[0] == b[0]) by {
            crate::chars::lemma_char_code_injective(a[0], b[0]);
        }
        lemma_lex_le_antisymmetric(a.drop_first(), b.drop_first());
        assert(a =~= seq![a[0]] + a.drop_first());
        assert(b =~= seq![b[0]] + b.drop_first());
    }
}

/// Two characters with the same code point are the same character.
pub proof fn lemma_char_code_injective(a: char, b: char)
    requires
        a as u32 == b as u32,
    ensures
        a == b,
{
    assert(a as int == a as u32 as int);
    assert(b as int == b as u32 as int);
}

pub proof fn lemma_lex_le_transitive(a: Seq<char>, b: Seq<char>, c: Seq<char>)
    requires
        lex_le(a, b),
        lex_le(b, c),
    ensures
        lex_le(a, c),
    decreases a.len(),
{
    if a.len() > 0 && b.len() > 0 && c.len() > 0 {
        if a[0] as u32 == b[0] as u32 && b[0] as u32 == c[0] as u32 {
            lemma_lex_le_transitive(a.drop_first(), b.drop_first(), c.drop_first());
        }
    }
}

/// Compares two strings in the lexicographic code-point order.
pub fn str_le(a: &str, b: &str) -> (r: bool)
    ensures
        r == lex_le(a@, b@),
{
    let a_len = a.unicode_len();
    let b_len = b.unicode_len();
    let mut i: usize = 0;
    proof {
        assert(a@.skip(0) =~= a@);
        assert(b@.skip(0) =~= b@);
    }
    loop
        invariant
            i <= a_len,
            i <= b_len,
            a_len == a@.len(),
            b_len == b@.len(),
            forall|j: int| 0 <= j < i ==> a@[j] == b@[j],
            lex_le(a@, b@) == lex_le(a@.skip(i as int), b@.skip(i as int)),
        decreases a_len - i,
    {
        if i == a_len {
            proof {
                assert(a@.skip(i as int).len() == 0);
            }
            return true;
        }
        if i == b_len {
            proof {
                assert(b@.skip(i as int).len() == 0);
                assert(a@.skip(i as int).len() > 0);
            }
            return false;
        }
        let ca = a.get_char(i);
        let cb = b.get_char(i);
        proof {
            let sa = a@.skip(i as int);
            let sb = b@.skip(i as int);
            assert(sa[0] == a@[i as int]);
            assert(sb[0] == b@[i as int]);
            assert(sa.drop_first() =~= a@.skip(i + 1));
            assert(sb.drop_first() =~= b@.skip(i + 1));
        }
        if (ca as u32) < (cb as u32) {
            return true;
        }
        if (ca as u32) > (cb as u32) {
            return false;
        }
        proof {
            lemma_char_code_injective(ca, cb);
        }
        i = i + 1;
    }
}

/// Compares two strings for character-for-character equality.
pub fn str_eq(a: &str, b: &str) -> (r: bool)
    ensures
        r == (a@ == b@),
{
    let le = str_le(a, b);
    let ge = str_le(b, a);
    proof {
        if le && ge {
            lemma_lex_le_antisymmetric(a@, b@);
        }
        if a@ == b@ {
            lemma_lex_le_refl(a@);
        }
    }
    le && ge
}

/// The ASCII lowercase counterpart of a character: letters `A`-`Z` map to
/// `a`-`z`, everything else is unchanged.
pub open spec fn spec_lower_char(c: char) -> char {
    if c == 'A' {
        'a'
    } else if c == 'B' {
        'b'
    } else if c == 'C' {
        'c'
    } else if c == 'D' {
        'd'
    } else if c == 'E' {
        'e'
    } else if c == 'F' {
        'f'
    } else if c == 'G' {
        'g'
    } else if c == 'H' {
        'h'
    } else if c == 'I' {
        'i'
    } else if c == 'J' {
        'j'
    } else if c == 'K' {
        'k'
    } else if c == 'L' {
        'l'
    } else if c == 'M' {
        'm'
    } else if c == 'N' {
        'n'
    } else if c == 'O' {
        'o'
    } else if c == 'P' {
        'p'
    } else if c == 'Q' {
        'q'
    } else if c == 'R' {
        'r'
    } else if c == 'S' {
        's'
    } else if c == 'T' {
        't'
    } else if c == 'U' {
        'u'
    } else if c == 'V' {
        'v'
    } else if c == 'W' {
        'w'
    } else if c == 'X' {
        'x'
    } else if c == 'Y' {
        'y'
    } else if c == 'Z' {
        'z'
    } else {
        c
    }
}

/// The ASCII-lowercased image of a character sequence.
pub open spec fn spec_lower(s: Seq<char>) -> Seq<char> {
    s.map_values(|c: char| spec_lower_char(c))
}

pub fn lower_char(c: char) -> (r: char)
    ensures
        r == spec_lower_char(c),
{
    match c {
        'A' => 'a',
        'B' => 'b',
        'C' => 'c',
        'D' => 'd',
        'E' => 'e',
        'F' => 'f',
        'G' => 'g',
        'H' => 'h',
        'I' => 'i',
        'J' => 'j',
        'K' => 'k',
        'L' => 'l',
        'M' => 'm',
        'N' => 'n',
        'O' => 'o',
        'P' => 'p',
        'Q' => 'q',
        'R' => 'r',
        'S' => 's',
        'T' => 't',
        'U' => 'u',
        'V' => 'v',
        'W' => 'w',
        'X' => 'x',
        'Y' => 'y',
        'Z' => 'z',
        _ => c,
    }
}

/// ASCII-lowercases a string.
pub fn lower_string(s: &str) -> (r: String)
    ensures
        r@ == spec_lower(s@),
{
    let len = s.unicode_len();
    let mut out = String::new();
    let mut i: usize = 0;
    while i < len
        invariant
            i <= len,
            len == s@.len(),
            out@ == spec_lower(s@.take(i as int)),
        decreases len - i,
    {
        let c = s.get_char(i);
        crate::strings::push_char(&mut out, lower_char(c));
        proof {
            assert(spec_lower(s@.take(i + 1)) =~= spec_lower(s@.take(i as int)).push(
                spec_lower_char(s@[i as int])));
        }
        i = i + 1;
    }
    proof {
        assert(s@.take(s@.len() as int) =~= s@);
    }
    out
}

/// A sequence whose characters are all unchanged by lowercasing is its
/// own lowercase image.
pub proof fn lemma_lower_fixed(s: Seq<char>)
    requires
        forall|i: int| 0 <= i < s.len() ==> spec_lower_char(#[trigger] s[i]) == s[i],
    ensures
        spec_lower(s) == s,
{
    assert(spec_lower(s) =~= s);
}

/// Lowercasing twice is the same as lowercasing once.
pub proof fn lemma_lower_idempotent(s: Seq<char>)
    ensures
        spec_lower(spec_lower(s)) == spec_lower(s),
{
    assert forall|i: int| 0 <= i < s.len() implies spec_lower_char(spec_lower_char(s[i]))
        == spec_lower_char(s[i]) by {}
    assert(spec_lower(spec_lower(s)) =~= spec_lower(s));
}

/// Header-value whitespace: the blank and the horizontal tab.
pub open spec fn spec_is_ws(c: char) -> bool {
    c == ' ' || c == '\t'
}

/// The number of leading whitespace characters.
pub open spec fn spec_leading_ws(s: Seq<char>) -> int
    decreases s.len(),
{
    if s.len() == 0 {
        0
    } else if spec_is_ws(s[0]) {
        1 + spec_leading_ws(s.drop_first())
    } else {
        0
    }
}

/// A prefix of whitespace that ends at a non-whitespace character (or at
/// the end of the sequence) is exactly the leading whitespace.
pub proof fn lemma_leading_ws_exact(s: Seq<char>, k: int)
    requires
        0 <= k <= s.len(),
        forall|j: int| 0 <= j < k ==> spec_is_ws(s[j]),
        k < s.len() ==> !spec_is_ws(s[k]),
    ensures
        spec_leading_ws(s) == k,
    decreases k,
{
    if k == 0 {
        if s.len() > 0 {
            assert(!spec_is_ws(s[0]));
        }
    } else {
        assert(spec_is_ws(s[0]));
        let rest = s.drop_first();
        assert(forall|j: int| 0 <= j < k - 1 ==> spec_is_ws(rest[j]));
        lemma_leading_ws_exact(rest, k - 1);
    }
}

/// A sequence with surrounding whitespace removed: what remains after
/// dropping the leading whitespace of the sequence and of its reverse.
pub open spec fn spec_trim(s: Seq<char>) -> Seq<char> {
    let lead = spec_leading_ws(s);
    let rest = s.skip(lead);
    let trail = spec_leading_ws(rest.reverse());
    rest.take(rest.len() - trail)
}

fn is_ws(c: char) -> (r: bool)
    ensures
        r == spec_is_ws(c),
{
    c == ' ' || c == '\t'
}

/// Removes leading and trailing blanks and tabs.
pub fn trim(s: &str) -> (r: String)
    ensures
        r@ == spec_trim(s@),
{
    let len = s.unicode_len();
    let mut start: usize = 0;
    while start < len && is_ws(s.get_char(start))
        invariant
            start <= len,
            len == s@.len(),
            forall|j: int| 0 <= j < start ==> spec_is_ws(s@[j]),
        decreases len - start,
    {
        start = start + 1;
    }
    let mut end: usize = len;
    while end > start && is_ws(s.get_char(end - 1))
        invariant
            start <= end <= len,
            len == s@.len(),
            start < len ==> !spec_is_ws(s@[start as int]),
            forall|j: int| end <= j < len ==> spec_is_ws(s@[j]),
        decreases end,
    {
        end = end - 1;
    }
    let mut out = String::new();
    let mut i: usize = start;
    while i < end
        invariant
            start <= i <= end <= len,
            len == s@.len(),
            out@ == s@.subrange(start as int, i as int),
        decreases end - i,
    {
        crate::strings::push_char(&mut out, s.get_char(i));
        proof {
            assert(s@.subrange(start as int, i + 1) =~= s@.subrange(start as int, i as int).push(
                s@[i as int]));
        }
        i = i + 1;
    }
    proof {
        lemma_trim_matches(s@, start as int, end as int);
    }
    out
}

/// Scanning whitespace from the left and from the right lands exactly on
/// the trimmed middle.
proof fn lemma_trim_matches(s: Seq<char>, start: int, end: int)
    requires
        0 <= start <= end <= s.len(),
        forall|j: int| 0 <= j < start ==> spec_is_ws(s[j]),
        start < s.len() ==> !spec_is_ws(s[start]),
        forall|j: int| end <= j < s.len() ==> spec_is_ws(s[j]),
        end > start ==> !spec_is_ws(s[end - 1]),
    ensures
        spec_trim(s) == s.subrange(start, end),
{
    lemma_leading_ws_exact(s, start);
    let rest = s.skip(start);
    let rev = rest.reverse();
    assert(rev.len() == s.len() - start);
    assert(forall|k: int|
        0 <= k < rev.len() ==> rev[k] == s[s.len() - 1 - k]);
    assert(forall|k: int| 0 <= k < s.len() - end ==> spec_is_ws(rev[k]));
    if end > start {
        assert(rev[s.len() - end] == s[end - 1]);
        assert(!spec_is_ws(rev[s.len() - end]));
    }
    lemma_leading_ws_exact(rev, s.len() - end);
    assert(spec_trim(s) =~= s.subrange(start, end));
}

} // verus!
