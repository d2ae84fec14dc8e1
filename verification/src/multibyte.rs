//! Character-counted text access: length and tail in characters rather
//! than bytes, so multi-byte text is never split.
use vstd::prelude::*;

verus! {

/// The tail of a text in characters: the last `length` characters; a
/// zero count still yields the final character, and a count beyond the
/// text yields nothing.
pub open spec fn spec_multibyte_tail(s: Seq<char>, length: int) -> Seq<char> {
    let eff = if length == 0 {
        1
    } else {
        length
    };
    if eff > s.len() {
        Seq::empty()
    } else {
        s.skip(s.len() - eff)
    }
}

/// Text whose length and tail are measured in characters.
pub trait MultiByte {
    /// The characters this value holds.
    spec fn spec_chars(&self) -> Seq<char>;

    fn as_str(&self) -> (r: &str)
        ensures
            r@ == self.spec_chars(),
    ;

    /// How many characters the text holds.
    fn length(&self) -> (r: usize)
        ensures
            r == self.spec_chars().len(),
    ;

    /// The last `length` characters of the text.
    fn tail(&self, length: usize) -> (r: &str)
        ensures
            r@ == spec_multibyte_tail(self.spec_chars(), length as int),
    ;
}

/// Counts the characters of a text.
pub fn multibyte_length(s: &str) -> (r: usize)
    ensures
        r == s@.len(),
{
    s.unicode_len()
}

/// The last `length` characters of a text.
pub fn multibyte_tail(s: &str, length: usize) -> (r: &str)
    ensures
        r@ == spec_multibyte_tail(s@, length as int),
{
    let n = s.unicode_len();
    let eff: usize = if length == 0 {
        1
    } else {
        length
    };
    if eff > n {
        proof {
            reveal_strlit("");
        }
        ""
    } else {
        let r = s.substring_char(n - eff, n);
        proof {
            assert(r@ =~= s@.skip(n - eff));
        }
        r
    }
}

/// Owned text read by characters.
#[derive(Debug, Clone, PartialEq, Eq)]
pub struct Text {
    value: String,
}

impl Text {
    pub fn new(value: String) -> (r: Text)
        ensures
            r.spec_chars() == value@,
    {
        Text { value }
    }
}

impl MultiByte for Text {
    closed spec fn spec_chars(&self) -> Seq<char> {
        self.value@
    }

    fn as_str(&self) -> (r: &str)
        ensures
            r@ == self.spec_chars(),
    {
        self.value.as_str()
    }

    fn length(&self) -> (r: usize)
        ensures
            r == self.spec_chars().len(),
    {
        multibyte_length(self.value.as_str())
    }

    fn tail(&self, length: usize) -> (r: &str)
        ensures
            r@ == spec_multibyte_tail(self.spec_chars(), length as int),
    {
        multibyte_tail(self.value.as_str(), length)
    }
}

} // verus!
