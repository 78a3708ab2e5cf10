//! Sparks: short notes, public or private.
use vstd::prelude::*;

use crate::text::{
    byte_prefix, byte_prefix_of, chars_of, ellipsize, ellipsize_vec, first_line, first_line_of,
    push_str, str_eq, string_from_chars, string_of, trim, trim_vec, trimmed, utf8_len,
    utf8_len_of,
};
use crate::timefmt::format_local;

verus! {

#[derive(Debug, Clone)]
pub struct Spark {
    pub id: i64,
    pub content_md: String,
    pub content_html: String,
    pub visibility: String,
    pub created_at: String,
    pub updated_at: String,
}

pub const SPARK_VISIBILITY_PRIVATE: &'static str = "private";

pub const SPARK_VISIBILITY_PUBLIC: &'static str = "public";

/// How many characters an excerpt keeps.
pub const SPARK_EXCERPT_MAX: usize = 80;

/// How many characters a title made from a spark keeps.
pub const SPARK_TITLE_MAX: usize = 40;

/// The date part of a displayed time: its first ten bytes where they end
/// on a character boundary, else all of it.
pub open spec fn spark_short_date_of(full: Seq<char>) -> Seq<char> {
    if utf8_len(full) >= 10 {
        match byte_prefix(full, 10) {
            Some(p) => p,
            None => full,
        }
    } else {
        full
    }
}

pub fn spark_short_date_from(full: &str) -> (r: String)
    ensures
        r@ == spark_short_date_of(full@),
{
    let v = chars_of(full);
    if utf8_len_of(&v) >= 10 {
        match byte_prefix_of(&v, 10) {
            Some(p) => string_from_chars(&p),
            None => string_of(full),
        }
    } else {
        string_of(full)
    }
}

/// The first line of a note, trimmed and cut to `max` characters.
pub open spec fn note_line(md: Seq<char>, max: nat) -> Seq<char> {
    let text = trim(md);
    if text.len() == 0 {
        Seq::empty()
    } else {
        ellipsize(trim(first_line(text)), max)
    }
}

fn note_line_of(md: &str, max: usize) -> (r: String)
    ensures
        r@ == note_line(md@, max as nat),
{
    let text = trimmed(md);
    if text.len() == 0 {
        return crate::text::new_string();
    }
    let line = first_line_of(&text);
    let line = trim_vec(&line);
    ellipsize_vec(&line, max)
}

/// The title a spark gets when it becomes a post: its first line, or
/// `灵感 <date>` when that is empty.
pub open spec fn default_title_of(md: Seq<char>, short_date: Seq<char>) -> Seq<char> {
    let line = note_line(md, SPARK_TITLE_MAX as nat);
    if line.len() == 0 {
        "灵感 "@ + short_date
    } else {
        line
    }
}

pub fn default_title_from(md: &str, short_date: &str) -> (r: String)
    ensures
        r@ == default_title_of(md@, short_date@),
{
    let line = note_line_of(md, SPARK_TITLE_MAX);
    if chars_of(line.as_str()).len() == 0 {
        let mut t = string_of("灵感 ");
        push_str(&mut t, short_date);
        t
    } else {
        line
    }
}

impl Spark {
    pub fn is_private(&self) -> (r: bool)
        ensures
            r == (self.visibility@ == "private"@),
    {
        str_eq(self.visibility.as_str(), SPARK_VISIBILITY_PRIVATE)
    }

    /// The creation date as `format_local` shows it, cut to its date part
    /// (`spark_short_date_from`). The shown time depends on the machine's
    /// time zone; `local_display` says what is known of it.
    pub fn short_date(&self) -> (r: String)
        ensures
            exists|full: Seq<char>| #[trigger] crate::timefmt::local_display(self.created_at@, full)
                && r@ == spark_short_date_of(full),
    {
        let full = format_local(self.created_at.as_str());
        proof {
            reveal_strlit("");
        }
        spark_short_date_from(full.as_str())
    }

    pub fn excerpt(&self) -> (r: String)
        ensures
            r@ == note_line(self.content_md@, SPARK_EXCERPT_MAX as nat),
    {
        proof {
            reveal_strlit("");
        }
        note_line_of(self.content_md.as_str(), SPARK_EXCERPT_MAX)
    }

    /// The title shown for a note that has none: the first line of its
    /// text, else "灵感" and its short date (`short_date`).
    pub fn default_title(&self) -> (r: String)
        ensures
            exists|full: Seq<char>| #[trigger] crate::timefmt::local_display(self.created_at@, full)
                && r@ == default_title_of(self.content_md@, spark_short_date_of(full)),
            note_line(self.content_md@, SPARK_TITLE_MAX as nat).len() > 0 ==> r@ == note_line(
                self.content_md@,
                SPARK_TITLE_MAX as nat,
            ),
    {
        proof {
            reveal_strlit("");
        }
        let d = self.short_date();
        default_title_from(self.content_md.as_str(), d.as_str())
    }
}

} // verus!
