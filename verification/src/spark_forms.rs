//! The rules of the spark forms: what a note must be to be saved, and how
//! a spark becomes a draft post.
use vstd::prelude::*;

use crate::forms::spark_visibility_value;
use crate::markdown::{is_lower_hex, new_uuid_text, uuid_shape};
use crate::models::spark::{default_title_of, note_line, Spark, SPARK_TITLE_MAX};
use crate::text::{
    chars_of, int_dec, push_char, push_i64, push_str, string_from_chars, string_of, trim,
    trimmed,
};

verus! {

/// The longest note, in characters.
pub const SPARK_MAX_CHARS: usize = 5000;

/// A note from the capture form, trimmed; refused where it is blank (the
/// form comes back empty) or longer than 5000 characters (it comes back
/// with the note).
pub fn check_spark_capture(content: &str) -> (r: Result<String, (&'static str, String)>)
    ensures
        trim(content@).len() == 0 ==> (r matches Err((m, c)) && m@ == "写点什么再保存"@
            && c@.len() == 0),
        trim(content@).len() > SPARK_MAX_CHARS ==> (r matches Err((m, c)) && m@
            == "太长了，请控制在 5000 字以内"@ && c@ == trim(content@)),
        0 < trim(content@).len() <= SPARK_MAX_CHARS ==> (r matches Ok(c) && c@ == trim(content@)),
{
    let t = trimmed(content);
    if t.len() == 0 {
        return Err(("写点什么再保存", crate::text::new_string()));
    }
    if t.len() > SPARK_MAX_CHARS {
        return Err(("太长了，请控制在 5000 字以内", string_from_chars(&t)));
    }
    Ok(string_from_chars(&t))
}

/// A note from the admin form, trimmed; refused where it is blank.
pub fn check_spark_update(content: &str) -> (r: Result<String, &'static str>)
    ensures
        trim(content@).len() == 0 ==> (r matches Err(m) && m@ == "内容不能为空"@),
        trim(content@).len() > 0 ==> (r matches Ok(c) && c@ == trim(content@)),
{
    let t = trimmed(content);
    if t.len() == 0 {
        return Err("内容不能为空");
    }
    Ok(string_from_chars(&t))
}

/// A spark turned into a draft post: the note it keeps, its visibility,
/// and the post's title and slug.
pub struct SparkPost {
    pub content_md: String,
    pub visibility: String,
    pub title: String,
    pub slug: String,
}

/// The note a spark keeps when it becomes a post: the submitted one,
/// trimmed, or its own where that is blank.
pub open spec fn promoted_note(own: Seq<char>, submitted: Seq<char>) -> Seq<char> {
    if trim(submitted).len() == 0 {
        own
    } else {
        trim(submitted)
    }
}

/// The slug of a post made from the spark `id`: `spark-{id}-` and eight
/// characters of a new UUID.
pub open spec fn spark_slug(slug: Seq<char>, id: i64) -> bool {
    let p = "spark-"@ + int_dec(id as int) + "-"@;
    &&& slug.len() == p.len() + 8
    &&& slug.take(p.len() as int) == p
    &&& forall|k: int| p.len() <= k < slug.len() ==> is_lower_hex(#[trigger] slug[k])
}

fn spark_slug_of(id: i64) -> (r: String)
    ensures
        spark_slug(r@, id),
{
    let uid = new_uuid_text();
    let v = chars_of(uid.as_str());
    let mut r = string_of("spark-");
    push_i64(&mut r, id);
    push_char(&mut r, '-');
    let ghost p = "spark-"@ + int_dec(id as int) + "-"@;
    proof {
        reveal_strlit("-");
        assert(r@ =~= p);
    }
    let mut k: usize = 0;
    while k < 8
        invariant
            0 <= k <= 8,
            v@ == uid@,
            uuid_shape(v@),
            p == "spark-"@ + int_dec(id as int) + "-"@,
            r@.len() == p.len() + k,
            r@.take(p.len() as int) == p,
            forall|m: int| p.len() <= m < r@.len() ==> is_lower_hex(#[trigger] r@[m]),
        decreases 8 - k,
    {
        let ghost before = r@;
        assert(is_lower_hex(v@[k as int]));
        push_char(&mut r, v[k]);
        assert(r@.take(p.len() as int) =~= before.take(p.len() as int));
        assert(forall|m: int| 0 <= m < before.len() ==> r@[m] == before[m]);
        k = k + 1;
    }
    r
}

/// Turns a spark into a draft post: the note is `promoted_note`, refused
/// where it is empty or longer than 5000 characters; the visibility is the
/// submitted one where one was sent, else the spark's; the title is the
/// spark's default title for that note.
pub fn plan_spark_to_post(spark: Spark, content: &str, visibility: &str) -> (r: Result<
    SparkPost,
    &'static str,
>)
    ensures
        promoted_note(spark.content_md@, content@).len() == 0 ==> (r matches Err(m) && m@
            == "内容不能为空"@),
        promoted_note(spark.content_md@, content@).len() > SPARK_MAX_CHARS ==> (r matches Err(m)
            && m@ == "内容过长"@),
        0 < promoted_note(spark.content_md@, content@).len() <= SPARK_MAX_CHARS ==> (r matches Ok(
            p,
        ) && {
            &&& p.content_md@ == promoted_note(spark.content_md@, content@)
            &&& p.visibility@ == (if trim(visibility@).len() == 0 {
                spark.visibility@
            } else if visibility@ == "public"@ {
                "public"@
            } else {
                "private"@
            })
            &&& exists|full: Seq<char>| #[trigger] crate::timefmt::local_display(
                spark.created_at@,
                full,
            ) && p.title@ == default_title_of(
                p.content_md@,
                crate::models::spark::spark_short_date_of(full),
            )
            &&& (note_line(p.content_md@, SPARK_TITLE_MAX as nat).len() > 0 ==> p.title@
                == note_line(p.content_md@, SPARK_TITLE_MAX as nat))
            &&& spark_slug(p.slug@, spark.id)
        }),
{
    let t = trimmed(content);
    let note = if t.len() == 0 {
        string_of(spark.content_md.as_str())
    } else {
        string_from_chars(&t)
    };
    let n = chars_of(note.as_str()).len();
    if n == 0 {
        return Err("内容不能为空");
    }
    if n > SPARK_MAX_CHARS {
        return Err("内容过长");
    }
    let vis = if trimmed(visibility).len() == 0 {
        string_of(spark.visibility.as_str())
    } else {
        string_of(spark_visibility_value(visibility))
    };
    let slug = spark_slug_of(spark.id);
    let mut titled = spark;
    titled.content_md = string_of(note.as_str());
    let title = titled.default_title();
    Ok(SparkPost { content_md: note, visibility: vis, title, slug })
}

} // verus!
