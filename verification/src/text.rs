//! Character-indexed access to string slices.
use vstd::prelude::*;
use vstd::string::{is_ascii_spec_bytes, StringSliceAdditionalSpecFns};

verus! {

/// A string slice prepared for access by character position.
///
/// Positions count characters, not bytes. When the text is pure ASCII the
/// two coincide and every access takes constant time; otherwise an access
/// walks the text from its start.
pub struct Source<'a> {
    text: &'a str,
    ascii: bool,
    len: usize,
}

impl<'a> View for Source<'a> {
    type V = Seq<char>;

    closed spec fn view(&self) -> Seq<char> {
        self.text@
    }
}

impl<'a> Source<'a> {
    #[verifier::type_invariant]
    closed spec fn wf(&self) -> bool {
        &&& self.len == self.text@.len()
        &&& self.ascii ==> self.text.is_ascii()
    }

    /// Prepares `text` for access by position.
    pub fn new(text: &'a str) -> (s: Self)
        ensures
            s@ == text@,
    {
        let ascii = text.is_ascii();
        if ascii {
            let len: usize = text.as_bytes().len();
            proof {
                is_ascii_spec_bytes(text);
                assert(text.spec_bytes().len() == text@.len());
            }
            Source { text, ascii, len }
        } else {
            Source { text, ascii, len: text.unicode_len() }
        }
    }

    /// The number of characters.
    pub fn len(&self) -> (n: usize)
        ensures
            n == self@.len(),
    {
        proof {
            use_type_invariant(self);
        }
        self.len
    }

    /// The character at position `i`.
    pub fn char_at(&self, i: usize) -> (c: char)
        requires
            i < self@.len(),
        ensures
            c == self@[i as int],
    {
        proof {
            use_type_invariant(self);
        }
        if self.ascii {
            let b: u8 = self.text.get_ascii(i);
            b as char
        } else {
            self.text.get_char(i)
        }
    }

    /// The characters at positions `from..to`.
    pub fn slice(&self, from: usize, to: usize) -> (part: &'a str)
        requires
            from <= to <= self@.len(),
        ensures
            part@ == self@.subrange(from as int, to as int),
    {
        proof {
            use_type_invariant(self);
        }
        if self.ascii {
            self.text.substring_ascii(from, to)
        } else {
            self.text.substring_char(from, to)
        }
    }
}

/// The character sequences of a sequence of string slices.
pub open spec fn texts(v: Seq<&str>) -> Seq<Seq<char>> {
    Seq::new(v.len(), |i: int| v[i]@)
}

/// Appending a slice appends its characters.
pub proof fn lemma_texts_push(v: Seq<&str>, t: &str)
    ensures
        texts(v.push(t)) == texts(v).push(t@),
{
    assert(texts(v.push(t)) =~= texts(v).push(t@));
}

/// Dropping the first slice drops the first character sequence.
pub proof fn lemma_texts_skip(v: Seq<&str>, k: int)
    requires
        0 <= k <= v.len(),
    ensures
        texts(v.skip(k)) == texts(v).skip(k),
{
    assert(texts(v.skip(k)) =~= texts(v).skip(k));
}

/// Whether two string slices hold the same characters.
pub fn same_text(a: &str, b: &str) -> (same: bool)
    ensures
        same == (a@ == b@),
{
    let x = Source::new(a);
    let y = Source::new(b);
    let n: usize = x.len();
    if n != y.len() {
        return false;
    }
    let mut i: usize = 0;
    while i < n
        invariant
            i <= n,
            n == a@.len(),
            n == b@.len(),
            x@ == a@,
            y@ == b@,
            forall|j: int| 0 <= j < i ==> a@[j] == b@[j],
        decreases n - i,
    {
        if x.char_at(i) != y.char_at(i) {
            return false;
        }
        i += 1;
    }
    assert(a@ =~= b@);
    true
}

} // verus!
