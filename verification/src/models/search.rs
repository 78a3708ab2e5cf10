//! Search results.
use vstd::prelude::*;

use crate::text::{
    byte_prefix, byte_prefix_of, chars_of, ellipsize, ellipsize_vec, squash, squash_vec, str_eq,
    string_from_chars,
};

verus! {

#[derive(Debug, Clone)]
pub struct SearchHit {
    pub kind: String,
    pub title: String,
    pub href: String,
    pub excerpt: String,
    pub sort_at: String,
}

/// The number of characters an excerpt keeps.
pub const EXCERPT_MAX: usize = 140;

pub open spec fn display_excerpt_of(excerpt: Seq<char>) -> Seq<char> {
    ellipsize(squash(excerpt), EXCERPT_MAX as nat)
}

impl SearchHit {
    pub fn kind_label(&self) -> (r: &'static str)
        ensures
            r@ == if self.kind@ == "post"@ {
                "文章"@
            } else if self.kind@ == "page"@ {
                "页面"@
            } else if self.kind@ == "doc"@ {
                "知识库"@
            } else {
                "内容"@
            },
    {
        if str_eq(self.kind.as_str(), "post") {
            "文章"
        } else if str_eq(self.kind.as_str(), "page") {
            "页面"
        } else if str_eq(self.kind.as_str(), "doc") {
            "知识库"
        } else {
            "内容"
        }
    }

    /// The first ten bytes of the sort key where they end on a character
    /// boundary, else the whole key.
    pub fn short_date(&self) -> (r: String)
        ensures
            r@ == match byte_prefix(self.sort_at@, 10) {
                Some(p) => p,
                None => self.sort_at@,
            },
    {
        let v = chars_of(self.sort_at.as_str());
        match byte_prefix_of(&v, 10) {
            Some(p) => string_from_chars(&p),
            None => self.sort_at.clone(),
        }
    }

    /// The excerpt on one line, white space squeezed, cut to
    /// `EXCERPT_MAX` characters with an ellipsis.
    pub fn display_excerpt(&self) -> (r: String)
        ensures
            r@ == display_excerpt_of(self.excerpt@),
    {
        let v = chars_of(self.excerpt.as_str());
        let flat = squash_vec(&v);
        ellipsize_vec(&flat, EXCERPT_MAX)
    }

    pub fn has_excerpt(&self) -> (r: bool)
        ensures
            r == (display_excerpt_of(self.excerpt@).len() > 0),
    {
        let e = self.display_excerpt();
        chars_of(e.as_str()).len() > 0
    }
}

/// A character as it stands in a `LIKE … ESCAPE '\'` pattern: the
/// backslash, `%` and `_` are escaped.
pub open spec fn like_char(c: char) -> Seq<char> {
    if c == '\\' {
        seq!['\\', '\\']
    } else if c == '%' {
        seq!['\\', '%']
    } else if c == '_' {
        seq!['\\', '_']
    } else {
        seq![c]
    }
}

pub open spec fn like_escape(s: Seq<char>) -> Seq<char>
    decreases s.len(),
{
    if s.len() == 0 {
        Seq::empty()
    } else {
        like_escape(s.drop_last()) + like_char(s.last())
    }
}

/// The `LIKE` pattern that finds `q` anywhere in a text, taken literally.
pub fn like_pattern(q: &str) -> (r: String)
    ensures
        r@ == seq!['%'] + like_escape(q@) + seq!['%'],
{
    let v = crate::text::chars_of(q);
    let mut out = crate::text::new_string();
    crate::text::push_char(&mut out, '%');
    let mut i: usize = 0;
    while i < v.len()
        invariant
            0 <= i <= v.len(),
            v@ == q@,
            out@ == seq!['%'] + like_escape(v@.take(i as int)),
        decreases v.len() - i,
    {
        let c = v[i];
        if c == '\\' || c == '%' || c == '_' {
            crate::text::push_char(&mut out, '\\');
        }
        crate::text::push_char(&mut out, c);
        proof {
            assert(v@.take(i + 1).drop_last() =~= v@.take(i as int));
        }
        i = i + 1;
        assert(out@ =~= seq!['%'] + like_escape(v@.take(i as int)));
    }
    assert(v@.take(v@.len() as int) =~= v@);
    crate::text::push_char(&mut out, '%');
    out
}

} // verus!
