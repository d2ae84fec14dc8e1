//! The header collection of a request.
//!
//! Header names are case-insensitive on the wire; this map normalizes
//! every name to lowercase on insertion and keeps names unique, replacing
//! an existing entry in place. The view of the map is the sequence of
//! `(name, value)` character sequences in insertion order.
use vstd::prelude::*;

use crate::chars::{lower_string, spec_lower, str_eq};
use crate::error::Error;

verus! {

/// A name/value pair list as character sequences.
pub type HeaderSeq = Seq<(Seq<char>, Seq<char>)>;

/// The views of a vector of owned header entries.
pub open spec fn header_views(s: Seq<(String, String)>) -> HeaderSeq {
    s.map_values(|p: (String, String)| (p.0@, p.1@))
}

/// Whether some entry has the given name.
pub open spec fn spec_has_name(s: HeaderSeq, name: Seq<char>) -> bool {
    exists|i: int| 0 <= i < s.len() && s[i].0 == name
}

/// The index of the first entry with the given name.
pub open spec fn spec_name_index(s: HeaderSeq, name: Seq<char>) -> int
    decreases s.len(),
{
    if s.len() == 0 {
        0
    } else if s[0].0 == name {
        0
    } else {
        1 + spec_name_index(s.drop_first(), name)
    }
}

/// Inserting a header: replaces the value of the entry with the same name
/// in place, or appends a new entry at the end.
pub open spec fn spec_insert(s: HeaderSeq, name: Seq<char>, value: Seq<char>) -> HeaderSeq {
    if spec_has_name(s, name) {
        s.update(spec_name_index(s, name), (name, value))
    } else {
        s.push((name, value))
    }
}

/// A character acceptable in a header value on the wire: the horizontal
/// tab or a printable ASCII character.
pub open spec fn spec_wire_char(c: char) -> bool {
    c == '\t' || (32 <= (c as u32) && (c as u32) < 127)
}

/// A header value is valid on the wire when every character is.
pub open spec fn spec_valid_value(v: Seq<char>) -> bool {
    forall|i: int| 0 <= i < v.len() ==> spec_wire_char(#[trigger] v[i])
}

/// No two entries share a name.
pub open spec fn spec_unique_names(s: HeaderSeq) -> bool {
    forall|i: int, j: int| 0 <= i < j < s.len() ==> s[i].0 != s[j].0
}

/// All names are already lowercase.
pub open spec fn spec_lower_names(s: HeaderSeq) -> bool {
    forall|i: int| 0 <= i < s.len() ==> spec_lower(#[trigger] s[i].0) == s[i].0
}

pub(crate) proof fn lemma_name_index_ensures(s: HeaderSeq, name: Seq<char>)
    requires
        spec_has_name(s, name),
    ensures
        0 <= spec_name_index(s, name) < s.len(),
        s[spec_name_index(s, name)].0 == name,
        forall|j: int| 0 <= j < spec_name_index(s, name) ==> s[j].0 != name,
    decreases s.len(),
{
    if s.len() > 0 && s[0].0 != name {
        assert(spec_has_name(s.drop_first(), name)) by {
            let i = choose|i: int| 0 <= i < s.len() && s[i].0 == name;
            assert(s.drop_first()[i - 1].0 == name);
        }
        lemma_name_index_ensures(s.drop_first(), name);
        assert forall|j: int| 0 <= j < spec_name_index(s, name) implies s[j].0 != name by {
            if j > 0 {
                assert(s.drop_first()[j - 1] == s[j]);
            }
        }
    }
}

/// The header collection of one request.
#[derive(Debug, Clone, PartialEq, Eq)]
pub struct HeaderMap {
    entries: Vec<(String, String)>,
}

impl HeaderMap {
    /// The entries in insertion order, as character sequences.
    pub closed spec fn view(&self) -> HeaderSeq {
        header_views(self.entries@)
    }

    /// Names are unique and lowercase.
    pub closed spec fn wf(&self) -> bool {
        spec_unique_names(self@) && spec_lower_names(self@)
    }

    /// The empty header collection.
    pub fn new() -> (r: HeaderMap)
        ensures
            r@ == Seq::<(Seq<char>, Seq<char>)>::empty(),
            r.wf(),
    {
        let r = HeaderMap { entries: Vec::new() };
        proof {
            assert(r@ =~= Seq::<(Seq<char>, Seq<char>)>::empty());
        }
        r
    }

    /// How many headers are present.
    pub fn len(&self) -> (r: usize)
        ensures
            r == self@.len(),
    {
        self.entries.len()
    }

    /// Inserts a header under the lowercased name, replacing an entry of
    /// the same name in place; refuses a value that fails wire-format
    /// validation.
    pub fn push(self, name: &str, value: &str) -> (r: Result<HeaderMap, Error>)
        requires
            self.wf(),
        ensures
            spec_valid_value(value@) ==> (r matches Ok(h) && h@ == spec_insert(
                self@,
                spec_lower(name@),
                value@,
            ) && h.wf()),
            !spec_valid_value(value@) ==> (r matches Err(e) && e matches Error::InvalidHeaderValue {
                header: n,
            } && n@ == name@),
    {
        if !valid_value(value) {
            return Err(Error::InvalidHeaderValue { header: name.to_owned() });
        }
        let lowered = lower_string(name);
        let mut out: Vec<(String, String)> = Vec::new();
        let mut replaced = false;
        let mut i: usize = 0;
        let n = self.entries.len();
        while i < n
            invariant
                i <= n,
                n == self.entries@.len(),
                self.wf(),
                lowered@ == spec_lower(name@),
                !replaced ==> header_views(out@) =~= self@.take(i as int),
                !replaced ==> !spec_has_name(self@.take(i as int), lowered@),
                replaced ==> spec_has_name(self@.take(i as int), lowered@) && header_views(out@)
                    =~= self@.take(i as int).update(
                    spec_name_index(self@.take(i as int), lowered@),
                    (lowered@, value@),
                ),
            decreases n - i,
        {
            let (en, ev) = (&self.entries[i].0, &self.entries[i].1);
            let ghost prev = out@;
            proof {
                assert(self@[i as int] == (self.entries@[i as int].0@, self.entries@[i as int].1@));
            }
            if str_eq(en.as_str(), lowered.as_str()) {
                out.push((lowered.clone(), value.to_owned()));
                proof {
                    if replaced {
                        lemma_name_index_ensures(self@.take(i as int), lowered@);
                        let k = spec_name_index(self@.take(i as int), lowered@);
                        assert(self@.take(i as int)[k] == self@[k]);
                        assert(self@[k].0 == lowered@);
                        assert(self@[i as int].0 == lowered@);
                        assert(false);
                    }
                }
                replaced = true;
            } else {
                out.push((en.clone(), ev.clone()));
            }
            proof {
                lemma_step(self@, header_views(prev), header_views(out@), i as int, lowered@,
                    value@, replaced);
            }
            i = i + 1;
        }
        proof {
            assert(self@.take(n as int) =~= self@);
        }
        if !replaced {
            out.push((lowered, value.to_owned()));
            proof {
                assert(header_views(out@) =~= self@.push((spec_lower(name@), value@)));
            }
        }
        let r = HeaderMap { entries: out };
        proof {
            crate::chars::lemma_lower_idempotent(name@);
            lemma_insert_wf(self@, spec_lower(name@), value@);
        }
        Ok(r)
    }

    /// The value stored under a name, looked up case-insensitively.
    pub fn get(&self, name: &str) -> (r: Option<&String>)
        requires
            self.wf(),
        ensures
            spec_has_name(self@, spec_lower(name@)) <==> r is Some,
            r matches Some(v) ==> v@ == self@[spec_name_index(self@, spec_lower(name@))].1,
    {
        let lowered = lower_string(name);
        let n = self.entries.len();
        let mut i: usize = 0;
        while i < n
            invariant
                i <= n,
                n == self.entries@.len(),
                self.wf(),
                lowered@ == spec_lower(name@),
                forall|j: int| 0 <= j < i ==> self@[j].0 != lowered@,
            decreases n - i,
        {
            if str_eq(self.entries[i].0.as_str(), lowered.as_str()) {
                proof {
                    assert(self@[i as int] == (self.entries@[i as int].0@,
                        self.entries@[i as int].1@));
                    assert(spec_has_name(self@, lowered@));
                    lemma_name_index_ensures(self@, lowered@);
                    assert(spec_name_index(self@, lowered@) == i);
                }
                return Some(&self.entries[i].1);
            }
            i = i + 1;
        }
        proof {
            if spec_has_name(self@, lowered@) {
                let k = choose|k: int| 0 <= k < self@.len() && self@[k].0 == lowered@;
            }
        }
        None
    }

    /// A copy of the entries as owned pairs, in insertion order.
    pub fn entries_vec(&self) -> (r: Vec<(String, String)>)
        ensures
            header_views(r@) == self@,
    {
        let mut out: Vec<(String, String)> = Vec::new();
        let n = self.entries.len();
        let mut i: usize = 0;
        while i < n
            invariant
                i <= n,
                n == self.entries@.len(),
                header_views(out@) =~= self@.take(i as int),
            decreases n - i,
        {
            let ghost prev = out@;
            out.push((self.entries[i].0.clone(), self.entries[i].1.clone()));
            proof {
                assert(self@[i as int] == (self.entries@[i as int].0@, self.entries@[i as int].1@));
                assert(header_views(out@) =~= header_views(prev).push(self@[i as int]));
                assert(header_views(out@) =~= self@.take(i + 1));
            }
            i = i + 1;
        }
        proof {
            assert(self@.take(n as int) =~= self@);
        }
        out
    }
}

/// One step of the rebuild in `push` agrees with `spec_insert` restricted
/// to the prefix handled so far.
pub(crate) proof fn lemma_step(
    s: HeaderSeq,
    prev: HeaderSeq,
    cur: HeaderSeq,
    i: int,
    name: Seq<char>,
    value: Seq<char>,
    replaced_now: bool,
)
    requires
        0 <= i < s.len(),
        spec_unique_names(s),
        cur =~= prev.push(if s[i].0 == name {
            (name, value)
        } else {
            s[i]
        }),
        replaced_now == (s[i].0 == name || spec_has_name(s.take(i), name)),
        !spec_has_name(s.take(i), name) && s[i].0 != name ==> prev =~= s.take(i),
        !spec_has_name(s.take(i), name) && s[i].0 == name ==> prev =~= s.take(i),
        spec_has_name(s.take(i), name) ==> prev =~= s.take(i).update(
            spec_name_index(s.take(i), name),
            (name, value),
        ),
    ensures
        !replaced_now ==> cur =~= s.take(i + 1),
        !replaced_now ==> !spec_has_name(s.take(i + 1), name),
        replaced_now ==> spec_has_name(s.take(i + 1), name) && cur =~= s.take(i + 1).update(
            spec_name_index(s.take(i + 1), name),
            (name, value),
        ),
{
    let t1 = s.take(i + 1);
    assert(t1 =~= s.take(i).push(s[i]));
    if !replaced_now {
        assert(cur =~= t1);
        if spec_has_name(t1, name) {
            let k = choose|k: int| 0 <= k < t1.len() && t1[k].0 == name;
            if k < i {
                assert(s.take(i)[k].0 == name);
            }
        }
    } else if s[i].0 == name && !spec_has_name(s.take(i), name) {
        assert(t1[i].0 == name);
        lemma_name_index_ensures(t1, name);
        assert(spec_name_index(t1, name) == i);
        assert(cur =~= t1.update(i, (name, value)));
    } else {
        let k = spec_name_index(s.take(i), name);
        lemma_name_index_ensures(s.take(i), name);
        assert(t1[k].0 == name);
        lemma_name_index_ensures(t1, name);
        assert(spec_name_index(t1, name) == k) by {
            if spec_name_index(t1, name) < k {
                assert(t1[spec_name_index(t1, name)].0 == name);
            }
        }
        assert(s[i].0 != name) by {
            assert(s.take(i)[k].0 == name);
            assert(s[k].0 == name);
        }
        assert(cur =~= t1.update(k, (name, value)));
    }
}

/// Inserting keeps names unique.
pub(crate) proof fn lemma_insert_unique(s: HeaderSeq, name: Seq<char>, value: Seq<char>)
    requires
        spec_unique_names(s),
    ensures
        spec_unique_names(spec_insert(s, name, value)),
{
    let r = spec_insert(s, name, value);
    if spec_has_name(s, name) {
        lemma_name_index_ensures(s, name);
        let k = spec_name_index(s, name);
        assert(forall|i: int| 0 <= i < r.len() && i != k ==> r[i] == s[i]);
        assert(r[k].0 == name);
        assert(forall|i: int, j: int| 0 <= i < j < r.len() ==> r[i].0 != r[j].0) by {
            assert(forall|i: int| 0 <= i < s.len() ==> r[i].0 == s[i].0);
        }
    }
}

/// Inserting a lowercase name into a well-formed header list keeps names
/// unique and lowercase.
proof fn lemma_insert_wf(s: HeaderSeq, name: Seq<char>, value: Seq<char>)
    requires
        spec_unique_names(s),
        spec_lower_names(s),
        spec_lower(name) == name,
    ensures
        spec_unique_names(spec_insert(s, name, value)),
        spec_lower_names(spec_insert(s, name, value)),
{
    lemma_insert_unique(s, name, value);
    let r = spec_insert(s, name, value);
    if spec_has_name(s, name) {
        lemma_name_index_ensures(s, name);
    }
}

fn valid_value(value: &str) -> (r: bool)
    ensures
        r == spec_valid_value(value@),
{
    let len = value.unicode_len();
    let mut i: usize = 0;
    while i < len
        invariant
            i <= len,
            len == value@.len(),
            forall|j: int| 0 <= j < i ==> spec_wire_char(#[trigger] value@[j]),
        decreases len - i,
    {
        let c = value.get_char(i);
        if !(c == '\t' || (32 <= c as u32 && (c as u32) < 127)) {
            proof {
                assert(!spec_wire_char(value@[i as int]));
            }
            return false;
        }
        i = i + 1;
    }
    true
}

/// The media type of a request body, carried on the `content-type`
/// header.
#[derive(Debug, Clone, PartialEq, Eq)]
pub struct ContentType {
    value: String,
}

impl ContentType {
    pub closed spec fn view(&self) -> Seq<char> {
        self.value@
    }

    pub fn new(key: String) -> (r: ContentType)
        ensures
            r@ == key@,
    {
        ContentType { value: key }
    }

    pub fn as_str(&self) -> (r: &str)
        ensures
            r@ == self@,
    {
        self.value.as_str()
    }

    /// The default media type for an opaque byte body.
    pub fn application_octet_stream() -> (r: ContentType)
        ensures
            r@ == "application/octet-stream"@,
    {
        ContentType { value: "application/octet-stream".to_owned() }
    }
}

} // verus!
