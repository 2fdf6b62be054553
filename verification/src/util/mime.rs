//! Media types.
use vstd::prelude::*;
use crate::util::text::chars_of;

verus! {

/// How often `c` occurs in `s`.
pub open spec fn occurrences(s: Seq<char>, c: char) -> nat
    decreases s.len(),
{
    if s.len() == 0 {
        0
    } else {
        occurrences(s.drop_last(), c) + if s.last() == c {
            1nat
        } else {
            0nat
        }
    }
}

/// Whether `s` has the shape of a media type: a type and a subtype, neither
/// empty, with one slash between them and no space.
pub open spec fn is_media_type(s: Seq<char>) -> bool {
    &&& s.len() >= 3
    &&& occurrences(s, '/') == 1
    &&& occurrences(s, ' ') == 0
    &&& s.first() != '/'
    &&& s.last() != '/'
}

/// A media type, such as `text/html`. What it holds has the shape of one.
#[derive(Debug, PartialEq, Eq)]
pub struct MimeType {
    value: String,
}

impl View for MimeType {
    type V = Seq<char>;

    closed spec fn view(&self) -> Seq<char> {
        self.value@
    }
}

/// A character that stands nowhere is counted zero times, and one that
/// stands at one place only is counted once.
pub proof fn lemma_occurrences(s: Seq<char>, c: char, at: int)
    requires
        forall|i: int| 0 <= i < s.len() && i != at ==> s[i] != c,
    ensures
        occurrences(s, c) == if 0 <= at < s.len() && s[at] == c {
            1nat
        } else {
            0nat
        },
    decreases s.len(),
{
    if s.len() > 0 {
        let rest = s.drop_last();
        if at == s.len() - 1 {
            lemma_occurrences(rest, c, -1);
        } else {
            lemma_occurrences(rest, c, at);
        }
    }
}

impl Clone for MimeType {
    fn clone(&self) -> (copy: MimeType)
        ensures
            copy@ == self@,
    {
        proof {
            use_type_invariant(self);
        }
        MimeType { value: self.value.clone() }
    }
}

fn count(s: &Vec<char>, c: char) -> (n: usize)
    ensures
        n == occurrences(s@, c),
{
    let mut n: usize = 0;
    let mut i: usize = 0;
    while i < s.len()
        invariant
            i <= s.len(),
            n <= i,
            n == occurrences(s@.take(i as int), c),
        decreases s.len() - i,
    {
        assert(s@.take(i + 1).drop_last() =~= s@.take(i as int));
        if s[i] == c {
            n = n + 1;
        }
        i = i + 1;
    }
    assert(s@.take(s.len() as int) =~= s@);
    n
}

impl MimeType {
    #[verifier::type_invariant]
    spec fn well_formed(&self) -> bool {
        is_media_type(self.value@)
    }

    /// The media type that `text` writes, where it has the shape of one.
    pub fn parse(text: &str) -> (res: Option<MimeType>)
        ensures
            match res {
                Some(mime) => is_media_type(text@) && mime@ == text@,
                None => !is_media_type(text@),
            },
    {
        let chars = chars_of(text);
        if chars.len() < 3 || chars[0] == '/' || chars[chars.len() - 1] == '/' {
            return None;
        }
        if count(&chars, '/') != 1 || count(&chars, ' ') != 0 {
            return None;
        }
        Some(MimeType { value: String::from_str(text) })
    }

    /// The media type of plain text.
    pub fn text_plain() -> (mime: MimeType)
        ensures
            mime@ == "text/plain"@,
            is_media_type(mime@),
    {
        proof {
            reveal_strlit("text/plain");
            lemma_occurrences("text/plain"@, '/', 4);
            lemma_occurrences("text/plain"@, ' ', -1);
        }
        MimeType { value: String::from_str("text/plain") }
    }

    /// The media type of HTML.
    pub fn text_html() -> (mime: MimeType)
        ensures
            mime@ == "text/html"@,
            is_media_type(mime@),
    {
        proof {
            reveal_strlit("text/html");
            lemma_occurrences("text/html"@, '/', 4);
            lemma_occurrences("text/html"@, ' ', -1);
        }
        MimeType { value: String::from_str("text/html") }
    }

    /// The media type of XHTML.
    pub fn xhtml() -> (mime: MimeType)
        ensures
            mime@ == "application/xhtml+xml"@,
            is_media_type(mime@),
    {
        proof {
            reveal_strlit("application/xhtml+xml");
            lemma_occurrences("application/xhtml+xml"@, '/', 11);
            lemma_occurrences("application/xhtml+xml"@, ' ', -1);
        }
        MimeType { value: String::from_str("application/xhtml+xml") }
    }

    /// The media type as it is written.
    pub fn as_str(&self) -> (text: &str)
        ensures
            text@ == self@,
            is_media_type(text@),
    {
        proof {
            use_type_invariant(self);
        }
        self.value.as_str()
    }
}

} // verus!
