//! Exporting posts, pages, documents and whole books as Markdown: file
//! names, the title heading, where uploads referenced by the text are
//! copied and how the links to them are rewritten, and the paths of a
//! book's documents in the archive.
use vstd::prelude::*;

use crate::models::kb::{KbBook, KbNode};
use crate::text::{
    char_is_control, chars_of, infix_at, has_infix, is_ctrl, new_string, push_char, push_str,
    push_usize, str_eq, string_from_chars, string_of, subvec, take_n, take_vec, trim, trim_vec,
    nat_dec,
};
use crate::timefmt::trim_end_char;
use crate::upload::{path_file_name, stem_ext, upload_file_path, upload_parts_spec};

verus! {

// ---------------------------------------------------------------------------
// What is exported, and how
// ---------------------------------------------------------------------------

#[derive(Debug, Clone, Copy, PartialEq, Eq, Structural)]
pub enum ExportSource {
    Post,
    Page,
    Doc,
    Book,
}

impl ExportSource {
    pub open spec fn parse_spec(s: Seq<char>) -> Option<ExportSource> {
        if s == "post"@ {
            Some(ExportSource::Post)
        } else if s == "page"@ {
            Some(ExportSource::Page)
        } else if s == "doc"@ {
            Some(ExportSource::Doc)
        } else if s == "book"@ {
            Some(ExportSource::Book)
        } else {
            None
        }
    }

    pub fn parse(s: &str) -> (r: Option<Self>)
        ensures
            r == Self::parse_spec(s@),
    {
        if str_eq(s, "post") {
            Some(ExportSource::Post)
        } else if str_eq(s, "page") {
            Some(ExportSource::Page)
        } else if str_eq(s, "doc") {
            Some(ExportSource::Doc)
        } else if str_eq(s, "book") {
            Some(ExportSource::Book)
        } else {
            None
        }
    }
}

#[derive(Debug, Clone, Copy, PartialEq, Eq, Structural)]
pub enum ExportFormat {
    Markdown,
}

impl ExportFormat {
    /// `markdown` or `md`; nothing else is offered.
    pub fn parse(s: &str) -> (r: Option<Self>)
        ensures
            r == (if s@ == "markdown"@ || s@ == "md"@ {
                Some(ExportFormat::Markdown)
            } else {
                None::<ExportFormat>
            }),
    {
        if str_eq(s, "markdown") || str_eq(s, "md") {
            Some(ExportFormat::Markdown)
        } else {
            None
        }
    }
}

/// A file to download.
#[derive(Debug)]
pub struct ExportArtifact {
    pub filename: String,
    pub content_type: String,
    pub body: Vec<u8>,
}

/// A single text to export.
pub struct MarkdownDoc<'a> {
    pub title: &'a str,
    pub body_md: &'a str,
}

/// A book and its nodes to export.
pub struct MarkdownBook<'a> {
    pub book: &'a KbBook,
    pub nodes: &'a Vec<KbNode>,
}

// ---------------------------------------------------------------------------
// File names and the title heading
// ---------------------------------------------------------------------------

pub open spec fn unsafe_file_char(c: char) -> bool {
    c == '/' || c == '\\' || c == ':' || c == '*' || c == '?' || c == '"' || c == '<' || c == '>'
        || c == '|' || is_ctrl(c)
}

pub open spec fn file_char(c: char) -> char {
    if unsafe_file_char(c) {
        '_'
    } else {
        c
    }
}

pub open spec fn trim_start_char(s: Seq<char>, c: char) -> Seq<char>
    decreases s.len(),
{
    if s.len() > 0 && s[0] == c {
        trim_start_char(s.drop_first(), c)
    } else {
        s
    }
}

/// A title as a file name: characters a file system refuses become `_`, at
/// most 80 characters, trimmed of white space and then of dots; `untitled`
/// where nothing is left.
pub open spec fn safe_filename_of(name: Seq<char>) -> Seq<char> {
    let s = take_n(name.map_values(|c: char| file_char(c)), 80);
    let t = trim_end_char(trim_start_char(trim(s), '.'), '.');
    if t.len() == 0 {
        "untitled"@
    } else {
        t
    }
}

/// No character of `s` is one a file system refuses.
pub open spec fn file_safe_chars(s: Seq<char>) -> bool {
    forall|k: int| 0 <= k < s.len() ==> !unsafe_file_char(#[trigger] s[k])
}

proof fn lemma_trim_start_safe(s: Seq<char>)
    requires
        file_safe_chars(s),
    ensures
        file_safe_chars(crate::text::trim_start(s)),
        crate::text::trim_start(s).len() <= s.len(),
    decreases s.len(),
{
    if s.len() > 0 && crate::text::is_ws(s[0]) {
        assert forall|k: int| 0 <= k < s.drop_first().len() implies !unsafe_file_char(
            #[trigger] s.drop_first()[k],
        ) by {
            assert(s.drop_first()[k] == s[k + 1]);
        }
        lemma_trim_start_safe(s.drop_first());
    }
}

proof fn lemma_trim_end_safe(s: Seq<char>)
    requires
        file_safe_chars(s),
    ensures
        file_safe_chars(crate::text::trim_end(s)),
        crate::text::trim_end(s).len() <= s.len(),
    decreases s.len(),
{
    if s.len() > 0 && crate::text::is_ws(s.last()) {
        assert forall|k: int| 0 <= k < s.drop_last().len() implies !unsafe_file_char(
            #[trigger] s.drop_last()[k],
        ) by {
            assert(s.drop_last()[k] == s[k]);
        }
        lemma_trim_end_safe(s.drop_last());
    }
}

proof fn lemma_trim_start_char_safe(s: Seq<char>, c: char)
    requires
        file_safe_chars(s),
    ensures
        file_safe_chars(trim_start_char(s, c)),
        trim_start_char(s, c).len() <= s.len(),
        trim_start_char(s, c).len() > 0 ==> trim_start_char(s, c)[0] != c,
    decreases s.len(),
{
    if s.len() > 0 && s[0] == c {
        assert forall|k: int| 0 <= k < s.drop_first().len() implies !unsafe_file_char(
            #[trigger] s.drop_first()[k],
        ) by {
            assert(s.drop_first()[k] == s[k + 1]);
        }
        lemma_trim_start_char_safe(s.drop_first(), c);
    }
}

proof fn lemma_trim_end_char_safe(s: Seq<char>, c: char)
    requires
        file_safe_chars(s),
    ensures
        file_safe_chars(trim_end_char(s, c)),
        trim_end_char(s, c).len() <= s.len(),
        trim_end_char(s, c) == s.take(trim_end_char(s, c).len() as int),
        trim_end_char(s, c).len() > 0 ==> trim_end_char(s, c).last() != c,
    decreases s.len(),
{
    if s.len() > 0 && s.last() == c {
        assert forall|k: int| 0 <= k < s.drop_last().len() implies !unsafe_file_char(
            #[trigger] s.drop_last()[k],
        ) by {
            assert(s.drop_last()[k] == s[k]);
        }
        lemma_trim_end_char_safe(s.drop_last(), c);
        let t = trim_end_char(s.drop_last(), c);
        assert(s.drop_last().take(t.len() as int) =~= s.take(t.len() as int));
    } else {
        assert(s.take(s.len() as int) =~= s);
    }
}

/// A file name made from a title is never empty, at most 80 characters
/// long, holds no character a file system refuses, and neither starts nor
/// ends with a dot.
pub proof fn law_safe_filename_shape(name: Seq<char>)
    ensures
        ({
            let r = safe_filename_of(name);
            &&& r.len() > 0
            &&& r.len() <= 80
            &&& file_safe_chars(r)
            &&& r[0] != '.'
            &&& r.last() != '.'
        }),
{
    let m = name.map_values(|c: char| file_char(c));
    let s = crate::text::take_n(m, 80);
    assert(file_safe_chars(s)) by {
        assert forall|k: int| 0 <= k < s.len() implies !unsafe_file_char(#[trigger] s[k]) by {
            assert(s[k] == m[k]);
            assert(m[k] == file_char(name[k]));
        }
    }
    lemma_trim_start_safe(s);
    lemma_trim_end_safe(crate::text::trim_start(s));
    let t0 = crate::text::trim(s);
    lemma_trim_start_char_safe(t0, '.');
    let t1 = trim_start_char(t0, '.');
    lemma_trim_end_char_safe(t1, '.');
    let t = trim_end_char(t1, '.');
    if t.len() > 0 {
        assert(t[0] == t1[0]);
    } else {
        reveal_strlit("untitled");
        let u = "untitled"@;
        assert(file_safe_chars(u)) by {
            assert forall|k: int| 0 <= k < u.len() implies !unsafe_file_char(#[trigger] u[k]) by {
                assert(u[k] as u32 > 0x9F || (0x20 <= u[k] as u32 && u[k] as u32 <= 0x7E));
            }
        }
    }
}

pub fn safe_filename(name: &str) -> (r: String)
    ensures
        r@ == safe_filename_of(name@),
{
    let v = chars_of(name);
    let mut mapped: Vec<char> = Vec::new();
    let mut i: usize = 0;
    while i < v.len()
        invariant
            0 <= i <= v.len(),
            v@ == name@,
            mapped@ == v@.take(i as int).map_values(|c: char| file_char(c)),
        decreases v.len() - i,
    {
        let c = v[i];
        let unsafe_c = c == '/' || c == '\\' || c == ':' || c == '*' || c == '?' || c == '"' || c
            == '<' || c == '>' || c == '|' || char_is_control(c);
        mapped.push(
            if unsafe_c {
                '_'
            } else {
                c
            },
        );
        i = i + 1;
        assert(mapped@ =~= v@.take(i as int).map_values(|c: char| file_char(c)));
    }
    assert(v@.take(v@.len() as int) =~= v@);
    let cut = take_vec(&mapped, 80);
    let t = trim_vec(&cut);
    let mut a: usize = 0;
    assert(t@.subrange(0, t@.len() as int) =~= t@);
    while a < t.len() && t[a] == '.'
        invariant
            0 <= a <= t.len(),
            trim_start_char(t@, '.') == trim_start_char(t@.subrange(a as int, t@.len() as int), '.'),
        decreases t.len() - a,
    {
        assert(t@.subrange(a as int, t@.len() as int).drop_first() =~= t@.subrange(
            a + 1,
            t@.len() as int,
        ));
        a = a + 1;
    }
    let s1 = subvec(&t, a, t.len());
    let s2 = crate::timefmt::trim_end_char_vec(&s1, '.');
    if s2.len() == 0 {
        string_of("untitled")
    } else {
        string_from_chars(&s2)
    }
}

/// A Markdown text with its title as a heading: `# title`, a blank line and
/// the trimmed body, or only the heading where the body is blank.
pub open spec fn with_title_of(title: Seq<char>, body: Seq<char>) -> Seq<char> {
    let b = trim(body);
    if b.len() == 0 {
        "# "@ + title + "\n"@
    } else {
        "# "@ + title + "\n\n"@ + b + "\n"@
    }
}

pub fn with_title(title: &str, body: &str) -> (r: String)
    ensures
        r@ == with_title_of(title@, body@),
{
    let b = trim_vec(&chars_of(body));
    let mut out = string_of("# ");
    push_str(&mut out, title);
    if b.len() == 0 {
        push_str(&mut out, "\n");
    } else {
        push_str(&mut out, "\n\n");
        push_str(&mut out, string_from_chars(&b).as_str());
        push_str(&mut out, "\n");
    }
    out
}

pub open spec fn ups(depth: nat) -> Seq<char>
    decreases depth,
{
    if depth == 0 {
        Seq::empty()
    } else {
        ups((depth - 1) as nat) + "../"@
    }
}

/// How a document `depth` folders down reaches the archive's assets.
pub fn assets_prefix(depth: usize) -> (r: String)
    ensures
        r@ == ups(depth as nat) + "assets/"@,
{
    let mut out = new_string();
    let mut i: usize = 0;
    while i < depth
        invariant
            0 <= i <= depth,
            out@ == ups(i as nat),
        decreases depth - i,
    {
        push_str(&mut out, "../");
        i = i + 1;
    }
    push_str(&mut out, "assets/");
    out
}


// ---------------------------------------------------------------------------
// Uploads referenced by the text
// ---------------------------------------------------------------------------

/// The exported assets so far: archive name and file path, in the order
/// they were first met.
pub open spec fn assets_view(a: Seq<(String, String)>) -> Seq<(Seq<char>, Seq<char>)> {
    a.map_values(|e: (String, String)| (e.0@, e.1@))
}

pub open spec fn asset_names(a: Seq<(Seq<char>, Seq<char>)>) -> Seq<Seq<char>> {
    a.map_values(|e: (Seq<char>, Seq<char>)| e.0)
}

pub open spec fn ext_suffix(ext: Option<Seq<char>>) -> Seq<char> {
    match ext {
        Some(e) => "."@ + e,
        None => Seq::empty(),
    }
}

/// The `n`-th alternative to an asset name already taken.
pub open spec fn renamed(base: Seq<char>, n: nat) -> Seq<char> {
    stem_ext(base).0 + "-"@ + nat_dec(n) + ext_suffix(stem_ext(base).1)
}

pub open spec fn first_free(base: Seq<char>, names: Seq<Seq<char>>, n: nat) -> bool {
    2 <= n < 10000 && !names.contains(renamed(base, n)) && forall|m: nat|
        2 <= m < n ==> names.contains(#[trigger] renamed(base, m))
}

/// The name an asset is stored under: its own where free, else the first
/// free `stem-N.ext` for N below 10000, else `stem-dup.ext`.
pub open spec fn unique_name_of(base: Seq<char>, names: Seq<Seq<char>>) -> Seq<char> {
    if !names.contains(base) {
        base
    } else if exists|n: nat| first_free(base, names, n) {
        renamed(base, choose|n: nat| first_free(base, names, n))
    } else {
        stem_ext(base).0 + "-dup"@ + ext_suffix(stem_ext(base).1)
    }
}

fn names_contain(a: &Vec<(String, String)>, name: &str) -> (r: bool)
    ensures
        r == asset_names(assets_view(a@)).contains(name@),
{
    let ghost names = asset_names(assets_view(a@));
    let mut i: usize = 0;
    while i < a.len()
        invariant
            0 <= i <= a.len(),
            names == asset_names(assets_view(a@)),
            names.len() == a.len(),
            forall|k: int| 0 <= k < i ==> names[k] != name@,
        decreases a.len() - i,
    {
        if str_eq(a[i].0.as_str(), name) {
            assert(names[i as int] == name@);
            return true;
        }
        i = i + 1;
    }
    false
}

fn stem_ext_exec(base: &str) -> (r: (String, Option<String>))
    ensures
        r.0@ == stem_ext(base@).0,
        match r.1 {
            Some(e) => stem_ext(base@).1 == Some(e@),
            None => stem_ext(base@).1 is None,
        },
{
    let v = chars_of(base);
    match crate::upload::find_last_dot(&v) {
        Some(k) => if k == 0 {
            (string_of(base), None)
        } else {
            (string_from_chars(&subvec(&v, 0, k)), Some(string_from_chars(&subvec(&v, k + 1, v.len()))))
        },
        None => (string_of(base), None),
    }
}

/// A name for an asset that no other asset has (see `unique_name_of`).
pub fn unique_name(base: &str, assets: &Vec<(String, String)>) -> (r: String)
    ensures
        r@ == unique_name_of(base@, asset_names(assets_view(assets@))),
{
    let ghost names = asset_names(assets_view(assets@));
    if !names_contain(assets, base) {
        return string_of(base);
    }
    let (stem, ext) = stem_ext_exec(base);
    let mut n: usize = 2;
    while n < 10000
        invariant
            2 <= n <= 10000,
            names == asset_names(assets_view(assets@)),
            names.contains(base@),
            stem@ == stem_ext(base@).0,
            match ext {
                Some(e) => stem_ext(base@).1 == Some(e@),
                None => stem_ext(base@).1 is None,
            },
            forall|m: nat| 2 <= m < n ==> names.contains(#[trigger] renamed(base@, m)),
        decreases 10000 - n,
    {
        let mut cand = string_of(stem.as_str());
        push_str(&mut cand, "-");
        push_usize(&mut cand, n);
        match &ext {
            Some(e) => {
                push_str(&mut cand, ".");
                push_str(&mut cand, e.as_str());
            },
            None => {},
        }
        assert(cand@ =~= renamed(base@, n as nat));
        if !names_contain(assets, cand.as_str()) {
            proof {
                assert(first_free(base@, names, n as nat));
                let c = choose|c: nat| first_free(base@, names, c);
                if c < n {
                    assert(names.contains(renamed(base@, c)));
                }
                if n < c {
                    assert(names.contains(renamed(base@, n as nat)));
                }
            }
            return cand;
        }
        n = n + 1;
    }
    proof {
        assert forall|c: nat| !first_free(base@, names, c) by {
            if 2 <= c < 10000 {
                assert(names.contains(renamed(base@, c)));
            }
        }
    }
    let mut out = string_of(stem.as_str());
    push_str(&mut out, "-dup");
    match &ext {
        Some(e) => {
            push_str(&mut out, ".");
            push_str(&mut out, e.as_str());
        },
        None => {},
    }
    assert(out@ =~= stem_ext(base@).0 + "-dup"@ + ext_suffix(stem_ext(base@).1));
    out
}

/// The first asset stored from `path`.
pub open spec fn path_index(a: Seq<(Seq<char>, Seq<char>)>, path: Seq<char>) -> Option<int> {
    if exists|i: int| 0 <= i < a.len() && a[i].1 == path && forall|j: int| 0 <= j < i ==> a[j].1 != path {
        Some(choose|i: int| 0 <= i < a.len() && a[i].1 == path && forall|j: int| 0 <= j < i ==> a[j].1 != path)
    } else {
        None
    }
}

/// The first asset stored under `name`.
pub open spec fn name_index(a: Seq<(Seq<char>, Seq<char>)>, name: Seq<char>) -> Option<int> {
    if exists|i: int| 0 <= i < a.len() && a[i].0 == name && forall|j: int| 0 <= j < i ==> a[j].0 != name {
        Some(choose|i: int| 0 <= i < a.len() && a[i].0 == name && forall|j: int| 0 <= j < i ==> a[j].0 != name)
    } else {
        None
    }
}

/// The assets with `name` stored from `path`, replacing what had that name.
pub open spec fn put_asset(a: Seq<(Seq<char>, Seq<char>)>, name: Seq<char>, path: Seq<char>) -> Seq<
    (Seq<char>, Seq<char>),
> {
    match name_index(a, name) {
        Some(i) => a.update(i, (name, path)),
        None => a.push((name, path)),
    }
}

/// The file an upload link points at, where it exists.
pub open spec fn upload_path(url: Seq<char>, upload_dir: Seq<char>, existing: Seq<Seq<char>>) -> Option<
    Seq<char>,
> {
    match upload_parts_spec(url) {
        None => None,
        Some((b, n)) => {
            let path = crate::upload::join_path(crate::upload::join_path(upload_dir, b), n);
            if existing.contains(path) {
                Some(path)
            } else {
                None
            }
        },
    }
}

/// The archive name a link's upload is exported under, and the assets
/// afterwards: none for a link that is not to an existing upload; the name
/// it already has where the file was met before; else a new unique name
/// for its file name.
#[verifier::opaque]
pub open spec fn take_upload_of(
    url: Seq<char>,
    upload_dir: Seq<char>,
    existing: Seq<Seq<char>>,
    a: Seq<(Seq<char>, Seq<char>)>,
) -> (Option<Seq<char>>, Seq<(Seq<char>, Seq<char>)>) {
    match upload_path(url, upload_dir, existing) {
        None => (None, a),
        Some(path) => match path_index(a, path) {
            Some(i) => (Some(a[i].0), a),
            None => match path_file_name(path) {
                None => (None, a),
                Some(base) => {
                    let name = unique_name_of(base, asset_names(a));
                    (Some(name), put_asset(a, name, path))
                },
            },
        },
    }
}

proof fn lemma_last_part_after_slash(p: Seq<char>, q: Seq<char>, cur: Seq<char>)
    requires
        !q.contains('/'),
    ensures
        crate::upload::last_part_from(p.push('/') + q, cur) == crate::upload::last_part_from(
            p.push('/'),
            q + cur,
        ),
    decreases q.len(),
{
    if q.len() == 0 {
        assert(p.push('/') + q =~= p.push('/'));
        assert(q + cur =~= cur);
    } else {
        let raw = p.push('/') + q;
        assert(raw.last() == q.last());
        assert(q.last() != '/') by {
            if q.last() == '/' {
                assert(q.contains('/'));
            }
        }
        assert(raw.drop_last() =~= p.push('/') + q.drop_last());
        assert(!q.drop_last().contains('/')) by {
            if q.drop_last().contains('/') {
                let k = choose|k: int| 0 <= k < q.drop_last().len() && q.drop_last()[k] == '/';
                assert(q[k] == '/');
            }
        }
        lemma_last_part_after_slash(p, q.drop_last(), seq![q.last()] + cur);
        assert(q.drop_last() + (seq![q.last()] + cur) =~= q + cur);
    }
}

proof fn lemma_last_part_plain(q: Seq<char>, cur: Seq<char>)
    requires
        !q.contains('/'),
    ensures
        crate::upload::last_part_from(q, cur) == crate::upload::last_part_from(Seq::empty(), q + cur),
    decreases q.len(),
{
    if q.len() == 0 {
        assert(q + cur =~= cur);
    } else {
        assert(q.last() != '/') by {
            if q.last() == '/' {
                assert(q.contains('/'));
            }
        }
        assert(!q.drop_last().contains('/')) by {
            if q.drop_last().contains('/') {
                let k = choose|k: int| 0 <= k < q.drop_last().len() && q.drop_last()[k] == '/';
                assert(q[k] == '/');
            }
        }
        lemma_last_part_plain(q.drop_last(), seq![q.last()] + cur);
        assert(q.drop_last() + (seq![q.last()] + cur) =~= q + cur);
    }
}

/// A link to an upload that exists is always exported under an archive
/// name: the one its file already has, or a new one made from its file
/// name.
pub proof fn law_existing_uploads_are_taken(
    url: Seq<char>,
    upload_dir: Seq<char>,
    existing: Seq<Seq<char>>,
    a: Seq<(Seq<char>, Seq<char>)>,
)
    requires
        upload_path(url, upload_dir, existing) is Some,
    ensures
        take_upload_of(url, upload_dir, existing, a).0 is Some,
{
    reveal(take_upload_of);
    reveal_strlit("/");
    reveal_strlit(".");
    reveal_strlit("..");
    reveal_strlit("media");
    reveal_strlit("posts");
    reveal_strlit("site");
    let (b, n) = upload_parts_spec(url)->0;
    let p = crate::upload::join_path(upload_dir, b);
    let path = crate::upload::join_path(p, n);
    assert(b == "media"@ || b == "posts"@ || b == "site"@);
    assert(b.len() > 0 && b.last() != '/');
    assert(p.last() == b.last());
    assert(path =~= p.push('/') + n);
    assert(crate::upload::is_safe_filename_spec(n));
    lemma_last_part_after_slash(p, n, Seq::empty());
    assert(n + Seq::<char>::empty() =~= n);
    if n == "."@ {
        assert(p.push('/').drop_last() =~= p);
        assert(!b.contains('/')) by {
            if b.contains('/') {
                let k = choose|k: int| 0 <= k < b.len() && b[k] == '/';
            }
        }
        if upload_dir.len() == 0 {
            assert(p =~= b);
            lemma_last_part_plain(b, Seq::empty());
        } else if upload_dir.last() == '/' {
            assert(p =~= upload_dir.drop_last().push('/') + b);
            lemma_last_part_after_slash(upload_dir.drop_last(), b, Seq::empty());
        } else {
            assert(p =~= upload_dir.push('/') + b);
            lemma_last_part_after_slash(upload_dir, b, Seq::empty());
        }
        assert(b + Seq::<char>::empty() =~= b);
        assert(b != "."@ && b != ".."@ && b.len() > 0);
        assert(crate::upload::path_file_name(path) == Some(b));
    } else {
        assert(crate::upload::last_part_from(path, Seq::empty()) == Some(n));
        assert(n != ".."@) by {
            if n == ".."@ {
                assert(n.subrange(0, 2) =~= n);
                assert(crate::text::infix_at(n, ".."@, 0));
            }
        }
    }
}

fn vec_contains_str(v: &Vec<String>, s: &str) -> (r: bool)
    ensures
        r == v@.map_values(|x: String| x@).contains(s@),
{
    let ghost m = v@.map_values(|x: String| x@);
    let mut i: usize = 0;
    while i < v.len()
        invariant
            0 <= i <= v.len(),
            m == v@.map_values(|x: String| x@),
            forall|k: int| 0 <= k < i ==> m[k] != s@,
        decreases v.len() - i,
    {
        if str_eq(v[i].as_str(), s) {
            assert(m[i as int] == s@);
            return true;
        }
        i = i + 1;
    }
    false
}

/// Where the link `url` is to an existing upload, the name it is exported
/// under, recording the upload among the assets (see `take_upload_of`).
/// `existing` lists the upload files that exist.
pub fn take_upload(
    url: &str,
    upload_dir: &str,
    existing: &Vec<String>,
    assets: &mut Vec<(String, String)>,
) -> (r: Option<String>)
    ensures
        ({
            let (name, after) = take_upload_of(
                url@,
                upload_dir@,
                existing@.map_values(|x: String| x@),
                assets_view(old(assets)@),
            );
            &&& match r {
                Some(n) => name == Some(n@),
                None => name is None,
            }
            &&& assets_view(final(assets)@) == after
        }),
{
    reveal(take_upload_of);
    let ghost a0 = assets_view(assets@);
    let path = match upload_file_path(url, upload_dir) {
        None => {
            return None;
        },
        Some(p) => p,
    };
    if !vec_contains_str(existing, path.as_str()) {
        return None;
    }
    let mut i: usize = 0;
    while i < assets.len()
        invariant
            0 <= i <= assets.len(),
            a0 == assets_view(assets@),
            a0 == assets_view(old(assets)@),
            a0.len() == assets.len(),
            upload_path(url@, upload_dir@, existing@.map_values(|x: String| x@)) == Some(path@),
            forall|j: int| 0 <= j < i ==> a0[j].1 != path@,
        decreases assets.len() - i,
    {
        if str_eq(assets[i].1.as_str(), path.as_str()) {
            proof {
                reveal(take_upload_of);
                assert(a0[i as int].1 == path@);
                let c = choose|c: int|
                    0 <= c < a0.len() && a0[c].1 == path@ && forall|j: int| 0 <= j < c ==> a0[j].1
                        != path@;
                if c < i {
                    assert(a0[c].1 != path@);
                }
                if i < c {
                    assert(a0[i as int].1 != path@);
                }
            }
            return Some(string_of(assets[i].0.as_str()));
        }
        i = i + 1;
    }
    assert(path_index(a0, path@) is None) by {
        if path_index(a0, path@) is Some {
            let c = choose|c: int|
                0 <= c < a0.len() && a0[c].1 == path@ && forall|j: int| 0 <= j < c ==> a0[j].1 != path@;
            assert(a0[c].1 != path@);
        }
    }
    let base = match crate::upload::file_name_of(path.as_str()) {
        None => {
            return None;
        },
        Some(b) => b,
    };
    let name = unique_name(base.as_str(), assets);
    let mut k: usize = 0;
    while k < assets.len()
        invariant
            0 <= k <= assets.len(),
            a0 == assets_view(assets@),
            a0 == assets_view(old(assets)@),
            a0.len() == assets.len(),
            upload_path(url@, upload_dir@, existing@.map_values(|x: String| x@)) == Some(path@),
            path_index(a0, path@) is None,
            path_file_name(path@) == Some(base@),
            name@ == unique_name_of(base@, asset_names(a0)),
            forall|j: int| 0 <= j < k ==> a0[j].0 != name@,
        decreases assets.len() - k,
    {
        if str_eq(assets[k].0.as_str(), name.as_str()) {
            proof {
                reveal(take_upload_of);
                assert(a0[k as int].0 == name@);
                let c = choose|c: int|
                    0 <= c < a0.len() && a0[c].0 == name@ && forall|j: int| 0 <= j < c ==> a0[j].0
                        != name@;
                if c < k {
                    assert(a0[c].0 != name@);
                }
                if k < c {
                    assert(a0[k as int].0 != name@);
                }
            }
            let entry = (string_of(name.as_str()), path);
            assets.set(k, entry);
            assert(assets_view(assets@) =~= a0.update(k as int, (name@, entry.1@)));
            return Some(name);
        }
        k = k + 1;
    }
    assets.push((string_of(name.as_str()), path));
    assert(assets_view(assets@) =~= a0.push((name@, path@)));
    proof {
        reveal(take_upload_of);
        assert(name_index(a0, name@) is None) by {
            if name_index(a0, name@) is Some {
                let c = choose|c: int|
                    0 <= c < a0.len() && a0[c].0 == name@ && forall|j: int| 0 <= j < c ==> a0[j].0
                        != name@;
                assert(a0[c].0 != name@);
            }
        }
    }
    Some(name)
}


/// The first place `p` occurs in `s`.
pub open spec fn first_infix(s: Seq<char>, p: Seq<char>) -> Option<int> {
    if exists|i: int| infix_at(s, p, i) && forall|j: int| 0 <= j < i ==> !infix_at(s, p, j) {
        Some(choose|i: int| infix_at(s, p, i) && forall|j: int| 0 <= j < i ==> !infix_at(s, p, j))
    } else {
        None
    }
}

pub open spec fn ends_link(c: char) -> bool {
    c == ')' || c == '\n'
}

/// Where a link target ends: at the first `)` or line break, or at the end.
pub open spec fn link_end(s: Seq<char>) -> int {
    if exists|k: int| 0 <= k < s.len() && ends_link(s[k]) && forall|j: int| 0 <= j < k ==> !ends_link(s[j]) {
        choose|k: int| 0 <= k < s.len() && ends_link(s[k]) && forall|j: int| 0 <= j < k ==> !ends_link(s[j])
    } else {
        s.len() as int
    }
}

/// Markdown with the links to existing uploads pointed at the exported
/// copies (`prefix` and the asset's name), and the assets afterwards. Each
/// `](` starts a link target that runs to the first `)` or line break; its
/// trimmed text is the link.
pub open spec fn rewrite_of(
    rest: Seq<char>,
    upload_dir: Seq<char>,
    prefix: Seq<char>,
    existing: Seq<Seq<char>>,
    a: Seq<(Seq<char>, Seq<char>)>,
) -> (Seq<char>, Seq<(Seq<char>, Seq<char>)>)
    decreases rest.len(),
{
    match first_infix(rest, "]("@) {
        None => (rest, a),
        Some(idx) => {
            if 0 <= idx && idx + 2 <= rest.len() {
                let after = rest.skip(idx + 2);
                let end = link_end(after);
                if 0 <= end <= after.len() {
                    let (nm, a2) = take_upload_of(trim(after.take(end)), upload_dir, existing, a);
                    let mid = match nm {
                        Some(n) => prefix + n,
                        None => after.take(end),
                    };
                    let (tail, a3) = rewrite_of(after.skip(end), upload_dir, prefix, existing, a2);
                    (rest.take(idx + 2) + mid + tail, a3)
                } else {
                    (rest, a)
                }
            } else {
                (rest, a)
            }
        },
    }
}

proof fn lemma_first_infix_is(s: Seq<char>, p: Seq<char>, i: int)
    requires
        infix_at(s, p, i),
        forall|j: int| 0 <= j < i ==> !infix_at(s, p, j),
    ensures
        first_infix(s, p) == Some(i),
{
    let c = choose|c: int| infix_at(s, p, c) && forall|j: int| 0 <= j < c ==> !infix_at(s, p, j);
    if c < i {
        assert(!infix_at(s, p, c));
    }
    if i < c {
        assert(!infix_at(s, p, i));
    }
}

fn find_link_end(v: &Vec<char>, from: usize) -> (r: usize)
    requires
        from <= v.len(),
    ensures
        from <= r <= v.len(),
        r - from == link_end(v@.skip(from as int)),
{
    let ghost s = v@.skip(from as int);
    let mut k: usize = from;
    while k < v.len()
        invariant
            from <= k <= v.len(),
            s == v@.skip(from as int),
            forall|j: int| 0 <= j < k - from ==> !ends_link(#[trigger] s[j]),
        decreases v.len() - k,
    {
        if v[k] == ')' || v[k] == '\n' {
            proof {
                let m = (k - from) as int;
                assert(s[m] == v@[k as int]);
                let c = choose|c: int|
                    0 <= c < s.len() && ends_link(s[c]) && forall|j: int| 0 <= j < c ==> !ends_link(s[j]);
                if c < m {
                    assert(!ends_link(s[c]));
                }
                if m < c {
                    assert(!ends_link(s[m]));
                }
            }
            return k;
        }
        assert(s[k - from] == v@[k as int]);
        k = k + 1;
    }
    v.len()
}

/// Rewrites the links of `md` to existing uploads (see `rewrite_of`),
/// recording the uploads among the assets. `existing` lists the upload
/// files that exist.
#[verifier::rlimit(80)]
pub fn rewrite(
    md: &str,
    upload_dir: &str,
    assets_prefix: &str,
    existing: &Vec<String>,
    assets: &mut Vec<(String, String)>,
) -> (r: String)
    ensures
        ({
            let (text, after) = rewrite_of(
                md@,
                upload_dir@,
                assets_prefix@,
                existing@.map_values(|x: String| x@),
                assets_view(old(assets)@),
            );
            r@ == text && assets_view(final(assets)@) == after
        }),
{
    let ghost ex = existing@.map_values(|x: String| x@);
    let v = chars_of(md);
    let link = chars_of("](");
    proof {
        reveal_strlit("](");
    }
    let mut out = new_string();
    let mut pos: usize = 0;
    assert(v@.skip(0) =~= v@);
    loop
        invariant
            0 <= pos <= v.len(),
            v@ == md@,
            link@ == "]("@,
            link@.len() == 2,
            ex == existing@.map_values(|x: String| x@),
            rewrite_of(md@, upload_dir@, assets_prefix@, ex, assets_view(old(assets)@)) == (
                out@ + rewrite_of(v@.skip(pos as int), upload_dir@, assets_prefix@, ex, assets_view(assets@)).0,
                rewrite_of(v@.skip(pos as int), upload_dir@, assets_prefix@, ex, assets_view(assets@)).1,
            ),
        decreases v.len() - pos,
    {
        let rest = subvec(&v, pos, v.len());
        assert(rest@ =~= v@.skip(pos as int));
        match crate::text::find_seq(&rest, &link) {
            None => {
                proof {
                    if first_infix(rest@, "]("@) is Some {
                        let c = choose|c: int|
                            infix_at(rest@, "]("@, c) && forall|j: int| 0 <= j < c ==> !infix_at(rest@, "]("@, j);
                        assert(infix_at(rest@, link@, c));
                    }
                }
                push_str(&mut out, string_from_chars(&rest).as_str());
                return out;
            },
            Some(idx) => {
                proof {
                    lemma_first_infix_is(rest@, "]("@, idx as int);
                }
                let a = pos + idx + 2;
                let end = find_link_end(&v, a);
                assert(v@.skip(a as int) =~= rest@.skip(idx + 2));
                let target = subvec(&v, a, end);
                assert(target@ =~= rest@.skip(idx + 2).take(end - a));
                let url = string_from_chars(&trim_vec(&target));
                push_str(&mut out, string_from_chars(&subvec(&v, pos, a)).as_str());
                assert(v@.subrange(pos as int, a as int) =~= rest@.take(idx + 2));
                match take_upload(url.as_str(), upload_dir, existing, assets) {
                    Some(name) => {
                        push_str(&mut out, assets_prefix);
                        push_str(&mut out, name.as_str());
                    },
                    None => {
                        push_str(&mut out, string_from_chars(&target).as_str());
                    },
                }
                assert(v@.skip(end as int) =~= rest@.skip(idx + 2).skip(end - a));
                pos = end;
            },
        }
    }
}

/// The assets a rewrite records do not depend on the prefix the links are
/// given: collecting them (as `collect` does, with `assets/`) records the
/// same assets as rewriting with any other prefix.
pub proof fn law_assets_independent_of_prefix(
    rest: Seq<char>,
    upload_dir: Seq<char>,
    p1: Seq<char>,
    p2: Seq<char>,
    existing: Seq<Seq<char>>,
    a: Seq<(Seq<char>, Seq<char>)>,
)
    ensures
        rewrite_of(rest, upload_dir, p1, existing, a).1 == rewrite_of(rest, upload_dir, p2, existing, a).1,
    decreases rest.len(),
{
    match first_infix(rest, "]("@) {
        None => {},
        Some(idx) => {
            if 0 <= idx && idx + 2 <= rest.len() {
                let after = rest.skip(idx + 2);
                let end = link_end(after);
                if 0 <= end <= after.len() {
                    let a2 = take_upload_of(trim(after.take(end)), upload_dir, existing, a).1;
                    law_assets_independent_of_prefix(after.skip(end), upload_dir, p1, p2, existing, a2);
                }
            }
        },
    }
}

/// Records the uploads `md` links to among the assets, as `rewrite` does.
pub fn collect(
    md: &str,
    upload_dir: &str,
    existing: &Vec<String>,
    assets: &mut Vec<(String, String)>,
)
    ensures
        assets_view(final(assets)@) == rewrite_of(
            md@,
            upload_dir@,
            "assets/"@,
            existing@.map_values(|x: String| x@),
            assets_view(old(assets)@),
        ).1,
{
    let _ = rewrite(md, upload_dir, "assets/", existing, assets);
}


// ---------------------------------------------------------------------------
// Paths of a book's nodes in the archive
// ---------------------------------------------------------------------------

/// The nodes from `cur` up to the root, at most `fuel` of them, each given
/// by its position among `nodes`.
pub open spec fn up_chain(nodes: Seq<KbNode>, cur: Option<i64>, fuel: nat) -> Seq<int>
    decreases fuel,
{
    if fuel == 0 {
        Seq::empty()
    } else {
        match cur {
            None => Seq::empty(),
            Some(id) => match crate::kb_tree::node_index(nodes, id) {
                None => Seq::empty(),
                Some(j) => seq![j] + up_chain(nodes, nodes[j].parent_id, (fuel - 1) as nat),
            },
        }
    }
}

/// How often `key` has been named so far.
pub open spec fn times_named(log: Seq<(Option<i64>, Seq<char>)>, key: (Option<i64>, Seq<char>)) -> nat
    decreases log.len(),
{
    if log.len() == 0 {
        0
    } else {
        times_named(log.drop_last(), key) + if log.last() == key {
            1nat
        } else {
            0nat
        }
    }
}

/// The names of the first `i` nodes of `chain` (root first), and the names
/// given so far: a node is named after its title as a file name, and a
/// title met again under the same parent gets `-` and the node's id.
pub open spec fn chain_names(
    nodes: Seq<KbNode>,
    chain: Seq<int>,
    i: nat,
    log: Seq<(Option<i64>, Seq<char>)>,
) -> (Seq<Seq<char>>, Seq<(Option<i64>, Seq<char>)>)
    decreases i,
{
    if i == 0 {
        (Seq::empty(), log)
    } else {
        let (parts, l) = chain_names(nodes, chain, (i - 1) as nat, log);
        let n = nodes[chain[i - 1]];
        let parent = if i == 1 {
            None
        } else {
            Some(nodes[chain[i - 2]].id)
        };
        let base = safe_filename_of(n.title@);
        let key = (parent, base);
        let name = if times_named(l, key) == 0 {
            base
        } else {
            base + "-"@ + crate::text::int_dec(n.id as int)
        };
        (parts.push(name), l.push(key))
    }
}

pub open spec fn join_slash(parts: Seq<Seq<char>>) -> Seq<char>
    decreases parts.len(),
{
    if parts.len() == 0 {
        Seq::empty()
    } else if parts.len() == 1 {
        parts[0]
    } else {
        join_slash(parts.drop_last()) + "/"@ + parts.last()
    }
}

/// The archive paths of the first `k` nodes, in order, and the names given
/// so far (counted over every node's whole chain).
pub open spec fn node_paths_upto(nodes: Seq<KbNode>, k: nat) -> (
    Seq<(i64, Seq<char>)>,
    Seq<(Option<i64>, Seq<char>)>,
)
    decreases k,
{
    if k == 0 {
        (Seq::empty(), Seq::empty())
    } else {
        let (out, log) = node_paths_upto(nodes, (k - 1) as nat);
        let chain = up_chain(nodes, Some(nodes[k - 1].id), 64).reverse();
        let (parts, log2) = chain_names(nodes, chain, chain.len(), log);
        (out.push((nodes[k - 1].id, join_slash(parts))), log2)
    }
}

fn times_named_exec(log: &Vec<(Option<i64>, String)>, parent: Option<i64>, base: &str) -> (r: usize)
    ensures
        r == times_named(log@.map_values(|e: (Option<i64>, String)| (e.0, e.1@)), (parent, base@)),
{
    let ghost lv = log@.map_values(|e: (Option<i64>, String)| (e.0, e.1@));
    let mut c: usize = 0;
    let mut i: usize = 0;
    assert(lv.take(0) =~= Seq::<(Option<i64>, Seq<char>)>::empty());
    while i < log.len()
        invariant
            0 <= i <= log.len(),
            lv == log@.map_values(|e: (Option<i64>, String)| (e.0, e.1@)),
            c <= i,
            c == times_named(lv.take(i as int), (parent, base@)),
        decreases log.len() - i,
    {
        assert(lv.take(i + 1).drop_last() =~= lv.take(i as int));
        assert(lv.take(i + 1).last() == (log@[i as int].0, log@[i as int].1@));
        if log[i].0 == parent && str_eq(log[i].1.as_str(), base) {
            c = c + 1;
        }
        i = i + 1;
    }
    assert(lv.take(lv.len() as int) =~= lv);
    c
}

#[verifier::spinoff_prover]
#[verifier::rlimit(40)]
fn up_chain_exec(nodes: &Vec<KbNode>, start: i64) -> (r: Vec<usize>)
    ensures
        r@.len() == up_chain(nodes@, Some(start), 64).len(),
        forall|i: int| 0 <= i < r.len() ==> r@[i] as int == up_chain(nodes@, Some(start), 64)[i],
        forall|i: int| 0 <= i < r.len() ==> r@[i] < nodes.len(),
{
    let ghost full = up_chain(nodes@, Some(start), 64);
    let mut chain: Vec<usize> = Vec::new();
    let mut cur: Option<i64> = Some(start);
    let mut fuel: usize = 64;
    loop
        invariant
            fuel <= 64,
            full == up_chain(nodes@, Some(start), 64),
            forall|i: int| 0 <= i < chain.len() ==> chain@[i] < nodes.len(),
            full.len() == chain.len() + up_chain(nodes@, cur, fuel as nat).len(),
            forall|i: int| 0 <= i < chain.len() ==> chain@[i] as int == full[i],
            forall|i: int|
                0 <= i < up_chain(nodes@, cur, fuel as nat).len() ==> full[chain.len() + i]
                    == up_chain(nodes@, cur, fuel as nat)[i],
        ensures
            full.len() == chain.len(),
            forall|i: int| 0 <= i < chain.len() ==> chain@[i] as int == full[i],
            forall|i: int| 0 <= i < chain.len() ==> chain@[i] < nodes.len(),
        decreases fuel,
    {
        if fuel == 0 {
            break;
        }
        let id = match cur {
            None => {
                break;
            },
            Some(id) => id,
        };
        let j = match crate::kb_tree::find_node(nodes, id) {
            None => {
                break;
            },
            Some(j) => j,
        };
        let ghost rest = up_chain(nodes@, cur, fuel as nat);
        let ghost next = up_chain(nodes@, nodes@[j as int].parent_id, (fuel - 1) as nat);
        assert(rest == seq![j as int] + next);
        assert(full[chain.len() as int] == j as int) by {
            assert(rest[0] == j as int);
        }
        assert forall|i: int| 0 <= i < next.len() implies full[chain.len() + 1 + i] == next[i] by {
            assert(rest[1 + i] == next[i]);
        }
        chain.push(j);
        cur = nodes[j].parent_id;
        fuel = fuel - 1;
    }
    chain
}


pub open spec fn paths_view(v: Seq<(i64, String)>) -> Seq<(i64, Seq<char>)> {
    v.map_values(|e: (i64, String)| (e.0, e.1@))
}

pub open spec fn log_view(v: Seq<(Option<i64>, String)>) -> Seq<(Option<i64>, Seq<char>)> {
    v.map_values(|e: (Option<i64>, String)| (e.0, e.1@))
}

fn join_parts(parts: &Vec<String>) -> (r: String)
    ensures
        r@ == join_slash(parts@.map_values(|s: String| s@)),
{
    let ghost pv = parts@.map_values(|s: String| s@);
    let mut out = new_string();
    let mut i: usize = 0;
    assert(pv.take(0) =~= Seq::<Seq<char>>::empty());
    while i < parts.len()
        invariant
            0 <= i <= parts.len(),
            pv == parts@.map_values(|s: String| s@),
            out@ == join_slash(pv.take(i as int)),
        decreases parts.len() - i,
    {
        assert(pv.take(i + 1).drop_last() =~= pv.take(i as int));
        assert(pv.take(i + 1).last() == parts@[i as int]@);
        if i > 0 {
            push_str(&mut out, "/");
        } else {
            assert(pv.take(1).len() == 1);
            assert(out@ =~= Seq::<char>::empty());
        }
        push_str(&mut out, parts[i].as_str());
        i = i + 1;
    }
    assert(pv.take(pv.len() as int) =~= pv);
    out
}

/// The path each node of a book has in its archive, in the order of the
/// nodes (see `node_paths_upto`).
#[verifier::spinoff_prover]
#[verifier::rlimit(80)]
pub fn build_node_paths(nodes: &Vec<KbNode>) -> (r: Vec<(i64, String)>)
    ensures
        paths_view(r@) == node_paths_upto(nodes@, nodes@.len()).0,
{
    let mut out: Vec<(i64, String)> = Vec::new();
    let mut log: Vec<(Option<i64>, String)> = Vec::new();
    let mut k: usize = 0;
    assert(paths_view(out@) =~= Seq::<(i64, Seq<char>)>::empty());
    assert(log_view(log@) =~= Seq::<(Option<i64>, Seq<char>)>::empty());
    while k < nodes.len()
        invariant
            0 <= k <= nodes.len(),
            (paths_view(out@), log_view(log@)) == node_paths_upto(nodes@, k as nat),
        decreases nodes.len() - k,
    {
        let up = up_chain_exec(nodes, nodes[k].id);
        let ghost upv = up_chain(nodes@, Some(nodes@[k as int].id), 64);
        let ghost chain = upv.reverse();
        let ghost log0 = log_view(log@);
        let m = up.len();
        let mut parts: Vec<String> = Vec::new();
        let mut i: usize = 0;
        assert(parts@.map_values(|s: String| s@) =~= Seq::<Seq<char>>::empty());
        while i < m
            invariant
                0 <= i <= m,
                m == up.len(),
                up@.len() == upv.len(),
                chain == upv.reverse(),
                forall|q: int| 0 <= q < up.len() ==> up@[q] as int == upv[q],
                forall|q: int| 0 <= q < up.len() ==> up@[q] < nodes.len(),
                (parts@.map_values(|s: String| s@), log_view(log@)) == chain_names(
                    nodes@,
                    chain,
                    i as nat,
                    log0,
                ),
            decreases m - i,
        {
            let j = up[m - 1 - i];
            assert(chain[i as int] == j as int);
            let parent = if i == 0 {
                None
            } else {
                let pj = up[m - i];
                assert(chain[i - 1] == pj as int);
                Some(nodes[pj].id)
            };
            let base = safe_filename(nodes[j].title.as_str());
            let c = times_named_exec(&log, parent, base.as_str());
            let name = if c == 0 {
                string_of(base.as_str())
            } else {
                let mut nm = string_of(base.as_str());
                push_str(&mut nm, "-");
                crate::text::push_i64(&mut nm, nodes[j].id);
                nm
            };
            let ghost pv0 = parts@.map_values(|s: String| s@);
            let ghost lv0 = log_view(log@);
            parts.push(name);
            log.push((parent, base));
            assert(parts@.map_values(|s: String| s@) =~= pv0.push(name@));
            assert(log_view(log@) =~= lv0.push((parent, base@)));
            i = i + 1;
        }
        let joined = join_parts(&parts);
        let ghost ov = paths_view(out@);
        out.push((nodes[k].id, joined));
        assert(paths_view(out@) =~= ov.push((nodes@[k as int].id, joined@)));
        k = k + 1;
    }
    out
}


// ---------------------------------------------------------------------------
// Asset names stay unique
// ---------------------------------------------------------------------------

pub open spec fn names_distinct(a: Seq<(Seq<char>, Seq<char>)>) -> bool {
    forall|i: int, j: int| 0 <= i < j < a.len() ==> a[i].0 != a[j].0
}

proof fn lemma_put_asset_distinct(a: Seq<(Seq<char>, Seq<char>)>, name: Seq<char>, path: Seq<char>)
    requires
        names_distinct(a),
    ensures
        names_distinct(put_asset(a, name, path)),
{
    match name_index(a, name) {
        Some(i) => {
            let c = choose|c: int|
                0 <= c < a.len() && a[c].0 == name && forall|j: int| 0 <= j < c ==> a[j].0 != name;
            assert(c == i);
            let b = a.update(i, (name, path));
            assert forall|x: int, y: int| 0 <= x < y < b.len() implies b[x].0 != b[y].0 by {
                assert(b[x].0 == a[x].0 && b[y].0 == a[y].0);
            }
        },
        None => {
            let b = a.push((name, path));
            assert forall|x: int, y: int| 0 <= x < y < b.len() implies b[x].0 != b[y].0 by {
                if y == a.len() {
                    if a[x].0 == name {
                        crate::export::lemma_first_name_exists(a, name, x);
                    }
                }
            }
        },
    }
}

proof fn lemma_first_name_exists(a: Seq<(Seq<char>, Seq<char>)>, name: Seq<char>, x: int)
    requires
        0 <= x < a.len(),
        a[x].0 == name,
    ensures
        name_index(a, name) is Some,
    decreases x,
{
    if exists|j: int| 0 <= j < x && a[j].0 == name {
        let j = choose|j: int| 0 <= j < x && a[j].0 == name;
        lemma_first_name_exists(a, name, j);
    } else {
        assert(forall|j: int| 0 <= j < x ==> a[j].0 != name);
    }
}

proof fn lemma_take_upload_distinct(
    url: Seq<char>,
    upload_dir: Seq<char>,
    existing: Seq<Seq<char>>,
    a: Seq<(Seq<char>, Seq<char>)>,
)
    requires
        names_distinct(a),
    ensures
        names_distinct(take_upload_of(url, upload_dir, existing, a).1),
{
    reveal(take_upload_of);
    match upload_path(url, upload_dir, existing) {
        None => {},
        Some(path) => match path_index(a, path) {
            Some(i) => {},
            None => match path_file_name(path) {
                None => {},
                Some(base) => {
                    lemma_put_asset_distinct(a, unique_name_of(base, asset_names(a)), path);
                },
            },
        },
    }
}

proof fn lemma_rewrite_distinct(
    rest: Seq<char>,
    upload_dir: Seq<char>,
    prefix: Seq<char>,
    existing: Seq<Seq<char>>,
    a: Seq<(Seq<char>, Seq<char>)>,
)
    requires
        names_distinct(a),
    ensures
        names_distinct(rewrite_of(rest, upload_dir, prefix, existing, a).1),
    decreases rest.len(),
{
    match first_infix(rest, "]("@) {
        None => {},
        Some(idx) => {
            if 0 <= idx && idx + 2 <= rest.len() {
                let after = rest.skip(idx + 2);
                let end = link_end(after);
                if 0 <= end <= after.len() {
                    let a2 = take_upload_of(trim(after.take(end)), upload_dir, existing, a).1;
                    lemma_take_upload_distinct(trim(after.take(end)), upload_dir, existing, a);
                    lemma_rewrite_distinct(after.skip(end), upload_dir, prefix, existing, a2);
                }
            }
        },
    }
}

// ---------------------------------------------------------------------------
// Assets in name order
// ---------------------------------------------------------------------------

/// Names in the order `sort` gives strings (character by character; for
/// UTF-8 text the same as byte order).
pub open spec fn name_lt(a: Seq<char>, b: Seq<char>) -> bool
    decreases a.len(),
{
    if a.len() == 0 {
        b.len() > 0
    } else if b.len() == 0 {
        false
    } else if a[0] != b[0] {
        a[0] < b[0]
    } else {
        name_lt(a.drop_first(), b.drop_first())
    }
}

proof fn lemma_name_lt_trans(a: Seq<char>, b: Seq<char>, c: Seq<char>)
    requires
        name_lt(a, b),
        name_lt(b, c),
    ensures
        name_lt(a, c),
    decreases a.len(),
{
    if a.len() > 0 && b.len() > 0 && c.len() > 0 && a[0] == b[0] && b[0] == c[0] {
        lemma_name_lt_trans(a.drop_first(), b.drop_first(), c.drop_first());
    }
}

proof fn lemma_name_lt_total(a: Seq<char>, b: Seq<char>)
    requires
        a != b,
    ensures
        name_lt(a, b) || name_lt(b, a),
    decreases a.len(),
{
    if a.len() == 0 && b.len() == 0 {
        assert(a =~= b);
    }
    if a.len() > 0 && b.len() > 0 && a[0] == b[0] {
        if a.drop_first() == b.drop_first() {
            assert(a =~= seq![a[0]] + a.drop_first());
            assert(b =~= seq![b[0]] + b.drop_first());
        }
        lemma_name_lt_total(a.drop_first(), b.drop_first());
    }
}

proof fn lemma_name_lt_irrefl(a: Seq<char>)
    ensures
        !name_lt(a, a),
    decreases a.len(),
{
    if a.len() > 0 {
        lemma_name_lt_irrefl(a.drop_first());
    }
}

fn name_lt_exec(a: &str, b: &str) -> (r: bool)
    ensures
        r == name_lt(a@, b@),
{
    let x = chars_of(a);
    let y = chars_of(b);
    let mut i: usize = 0;
    assert(x@.skip(0) =~= x@);
    assert(y@.skip(0) =~= y@);
    while i < x.len() && i < y.len() && x[i] == y[i]
        invariant
            0 <= i <= x.len(),
            i <= y.len(),
            x@ == a@,
            y@ == b@,
            name_lt(a@, b@) == name_lt(x@.skip(i as int), y@.skip(i as int)),
        decreases x.len() - i,
    {
        assert(x@.skip(i as int).drop_first() =~= x@.skip(i + 1));
        assert(y@.skip(i as int).drop_first() =~= y@.skip(i + 1));
        i = i + 1;
    }
    if i == x.len() {
        i < y.len()
    } else if i == y.len() {
        false
    } else {
        x[i] < y[i]
    }
}

pub open spec fn sorted_by_name(a: Seq<(Seq<char>, Seq<char>)>) -> bool {
    forall|i: int, j: int| 0 <= i < j < a.len() ==> name_lt(a[i].0, a[j].0)
}

/// The assets in name order.
#[verifier::rlimit(40)]
pub fn sort_assets(a: &Vec<(String, String)>) -> (r: Vec<(String, String)>)
    requires
        names_distinct(assets_view(a@)),
    ensures
        sorted_by_name(assets_view(r@)),
        r@.len() == a@.len(),
        forall|x: (Seq<char>, Seq<char>)| assets_view(r@).contains(x) <==> assets_view(a@).contains(x),
{
    let ghost av = assets_view(a@);
    let mut r: Vec<(String, String)> = Vec::new();
    let mut i: usize = 0;
    while i < a.len()
        invariant
            0 <= i <= a.len(),
            av == assets_view(a@),
            names_distinct(av),
            r@.len() == i,
            sorted_by_name(assets_view(r@)),
            forall|x: (Seq<char>, Seq<char>)|
                assets_view(r@).contains(x) <==> av.take(i as int).contains(x),
        decreases a.len() - i,
    {
        let name = string_of(a[i].0.as_str());
        let path = string_of(a[i].1.as_str());
        let ghost x = (name@, path@);
        assert(av[i as int] == x);
        let mut p: usize = 0;
        while p < r.len() && !name_lt_exec(name.as_str(), r[p].0.as_str())
            invariant
                0 <= p <= r.len(),
                forall|k: int| 0 <= k < p ==> !name_lt(name@, #[trigger] r@[k].0@),
            decreases r.len() - p,
        {
            p = p + 1;
        }
        let ghost rv0 = assets_view(r@);
        let ghost t0 = av.take(i as int);
        let ghost t1 = av.take(i + 1);
        assert(t1 =~= t0.push(x));
        assert(forall|y: (Seq<char>, Seq<char>)| rv0.contains(y) ==> t0.contains(y));
        assert forall|k: int| 0 <= k < rv0.len() implies rv0[k].0 != name@ by {
            assert(t0.contains(rv0[k]));
            let q = choose|q: int| 0 <= q < t0.len() && t0[q] == rv0[k];
            assert(av[q].0 != av[i as int].0);
        }
        r.insert(p, (name, path));
        proof {
            rv0.insert_ensures(p as int, x);
            let rv = assets_view(r@);
            assert(rv =~= rv0.insert(p as int, x));
            assert forall|a1: int, b1: int| 0 <= a1 < b1 < rv.len() implies name_lt(rv[a1].0, rv[b1].0) by {
                if b1 < p {
                    assert(rv[a1] == rv0[a1] && rv[b1] == rv0[b1]);
                } else if b1 == p {
                    assert(rv[a1] == rv0[a1]);
                    assert(!name_lt(name@, rv0[a1].0));
                    lemma_name_lt_total(name@, rv0[a1].0);
                } else if a1 == p {
                    assert(rv[b1] == rv0[b1 - 1]);
                    assert(name_lt(name@, rv0[p as int].0));
                    if b1 - 1 > p {
                        lemma_name_lt_trans(name@, rv0[p as int].0, rv0[b1 - 1].0);
                    }
                } else if a1 < p {
                    assert(rv[a1] == rv0[a1] && rv[b1] == rv0[b1 - 1]);
                } else {
                    assert(rv[a1] == rv0[a1 - 1] && rv[b1] == rv0[b1 - 1]);
                }
            }
            assert forall|y: (Seq<char>, Seq<char>)| rv.contains(y) <==> t1.contains(y) by {
                if rv.contains(y) {
                    let q = choose|q: int| 0 <= q < rv.len() && rv[q] == y;
                    if q == p {
                        assert(t1[i as int] == y);
                    } else {
                        if q < p {
                            assert(rv0[q] == y);
                        } else {
                            assert(rv0[q - 1] == y);
                        }
                        assert(t0.contains(y));
                        let k = choose|k: int| 0 <= k < t0.len() && t0[k] == y;
                        assert(t1[k] == y);
                    }
                }
                if t1.contains(y) {
                    let k = choose|k: int| 0 <= k < t1.len() && t1[k] == y;
                    if k == i {
                        assert(rv[p as int] == y);
                    } else {
                        assert(t0[k] == y);
                        assert(rv0.contains(y));
                        let q = choose|q: int| 0 <= q < rv0.len() && rv0[q] == y;
                        if q < p {
                            assert(rv[q] == y);
                        } else {
                            assert(rv[q + 1] == y);
                        }
                    }
                }
            }
        }
        i = i + 1;
    }
    assert(av.take(av.len() as int) =~= av);
    r
}


// ---------------------------------------------------------------------------
// Exports
// ---------------------------------------------------------------------------

/// Why an export fails.
#[derive(Debug, Clone, Copy, PartialEq, Eq, Structural)]
pub enum ExportError {
    NotADoc,
    Failed,
    ReadFailed,
}

impl ExportError {
    pub open spec fn text(self) -> Seq<char> {
        match self {
            ExportError::NotADoc => "仅文档可导出"@,
            ExportError::Failed => "导出失败"@,
            ExportError::ReadFailed => "读取资源失败"@,
        }
    }

    pub fn message(&self) -> (r: &'static str)
        ensures
            r@ == self.text(),
    {
        match self {
            ExportError::NotADoc => "仅文档可导出",
            ExportError::Failed => "导出失败",
            ExportError::ReadFailed => "读取资源失败",
        }
    }
}

/// What exporting one text writes: its file name without extension, the
/// Markdown, and the uploads it links to (in name order), whose bytes the
/// caller reads.
pub struct DocExport {
    pub base: String,
    pub md: String,
    pub assets: Vec<(String, String)>,
}

/// What exporting a book writes before its assets: the folders and the
/// documents; then its uploads in name order, whose bytes the caller reads.
pub struct BookExport {
    pub root: String,
    pub items: Vec<crate::archive::ArchiveItem>,
    pub assets: Vec<(String, String)>,
}

/// The exporter of Markdown.
pub struct MarkdownExporter;

pub open spec fn same_assets(a: Seq<(Seq<char>, Seq<char>)>, b: Seq<(Seq<char>, Seq<char>)>) -> bool {
    &&& a.len() == b.len()
    &&& forall|x: (Seq<char>, Seq<char>)| a.contains(x) <==> b.contains(x)
}

pub open spec fn file_entry(name: Seq<char>, data: Seq<u8>) -> crate::archive::ZipEntry {
    crate::archive::ZipEntry { name, data, dir: false }
}

/// The asset files of an archive under `dir`, with the bytes read for them.
pub open spec fn asset_entries(
    dir: Seq<char>,
    assets: Seq<(Seq<char>, Seq<char>)>,
    bytes: Seq<Seq<u8>>,
) -> Seq<crate::archive::ZipEntry> {
    Seq::new(assets.len(), |i: int| file_entry(dir + assets[i].0, bytes[i]))
}

pub open spec fn bytes_view(b: Seq<Vec<u8>>) -> Seq<Seq<u8>> {
    b.map_values(|v: Vec<u8>| v@)
}

fn asset_items(
    dir: &str,
    assets: &Vec<(String, String)>,
    bytes: &Vec<Vec<u8>>,
    items: &mut Vec<crate::archive::ArchiveItem>,
)
    requires
        bytes.len() == assets.len(),
    ensures
        crate::archive::entries_of(final(items)@) == crate::archive::entries_of(old(items)@)
            + asset_entries(dir@, assets_view(assets@), bytes_view(bytes@)),
{
    let ghost start = crate::archive::entries_of(items@);
    let ghost all = asset_entries(dir@, assets_view(assets@), bytes_view(bytes@));
    let mut i: usize = 0;
    assert(start + all.take(0) =~= start);
    while i < assets.len()
        invariant
            0 <= i <= assets.len(),
            bytes.len() == assets.len(),
            start == crate::archive::entries_of(old(items)@),
            all == asset_entries(dir@, assets_view(assets@), bytes_view(bytes@)),
            crate::archive::entries_of(items@) == start + all.take(i as int),
        decreases assets.len() - i,
    {
        let mut name = string_of(dir);
        push_str(&mut name, assets[i].0.as_str());
        let data = copy_bytes(&bytes[i]);
        let ghost before = crate::archive::entries_of(items@);
        items.push(crate::archive::ArchiveItem::File(name, data));
        assert(crate::archive::entries_of(items@) =~= before.push(all[i as int]));
        assert(start + all.take(i + 1) =~= (start + all.take(i as int)).push(all[i as int]));
        i = i + 1;
    }
    assert(all.take(all.len() as int) =~= all);
}

fn copy_bytes(b: &Vec<u8>) -> (r: Vec<u8>)
    ensures
        r@ == b@,
{
    let mut r: Vec<u8> = Vec::new();
    let mut i: usize = 0;
    while i < b.len()
        invariant
            0 <= i <= b.len(),
            r@ == b@.take(i as int),
        decreases b.len() - i,
    {
        r.push(b[i]);
        i = i + 1;
        assert(r@ =~= b@.take(i as int));
    }
    assert(b@.take(b@.len() as int) =~= b@);
    r
}

impl MarkdownExporter {
    /// Plans the export of one text: its links to existing uploads point at
    /// `assets/`, and it gets its title as a heading.
    pub fn plan_doc(doc: &MarkdownDoc, upload_dir: &str, existing: &Vec<String>) -> (r: DocExport)
        ensures
            r.base@ == safe_filename_of(doc.title@),
            r.md@ == with_title_of(
                doc.title@,
                rewrite_of(
                    doc.body_md@,
                    upload_dir@,
                    "assets/"@,
                    existing@.map_values(|x: String| x@),
                    Seq::empty(),
                ).0,
            ),
            sorted_by_name(assets_view(r.assets@)),
            same_assets(
                assets_view(r.assets@),
                rewrite_of(
                    doc.body_md@,
                    upload_dir@,
                    "assets/"@,
                    existing@.map_values(|x: String| x@),
                    Seq::empty(),
                ).1,
            ),
    {
        let mut assets: Vec<(String, String)> = Vec::new();
        assert(assets_view(assets@) =~= Seq::<(Seq<char>, Seq<char>)>::empty());
        let body = rewrite(doc.body_md, upload_dir, "assets/", existing, &mut assets);
        proof {
            lemma_rewrite_distinct(
                doc.body_md@,
                upload_dir@,
                "assets/"@,
                existing@.map_values(|x: String| x@),
                Seq::empty(),
            );
        }
        let md = with_title(doc.title, body.as_str());
        let base = safe_filename(doc.title);
        let sorted = sort_assets(&assets);
        DocExport { base, md, assets: sorted }
    }

    /// Whether every entry of the zip `finish_doc` would write is stored
    /// under a name the zip headers can hold (always so without assets).
    pub fn doc_names_fit(plan: &DocExport, asset_bytes: &Vec<Vec<u8>>) -> (r: bool)
        requires
            asset_bytes.len() == plan.assets.len(),
        ensures
            r == (plan.assets.len() > 0 ==> crate::archive::zip_names_fit(
                seq![file_entry(plan.base@ + ".md"@, crate::text::utf8_encode(plan.md@))]
                + asset_entries("assets/"@, assets_view(plan.assets@), bytes_view(asset_bytes@)),
            )),
    {
        if plan.assets.len() == 0 {
            return true;
        }
        let mut md_name = string_of(plan.base.as_str());
        push_str(&mut md_name, ".md");
        let md_bytes = crate::text::string_bytes(plan.md.as_str());
        let mut items: Vec<crate::archive::ArchiveItem> = Vec::new();
        items.push(crate::archive::ArchiveItem::File(md_name, md_bytes));
        assert(crate::archive::entries_of(items@) =~= seq![
            file_entry(plan.base@ + ".md"@, crate::text::utf8_encode(plan.md@)),
        ]);
        asset_items("assets/", &plan.assets, asset_bytes, &mut items);
        crate::archive::archive_names_fit(&items)
    }

    /// The file a planned text export gives, with the bytes read for its
    /// assets in order: the Markdown alone where it links to no upload,
    /// else a zip of the Markdown and the uploads under `assets/`, which is
    /// made where its entries fit (`zip_fits`).
    pub fn finish_doc(plan: &DocExport, asset_bytes: &Vec<Vec<u8>>) -> (r: Result<ExportArtifact, ExportError>)
        requires
            asset_bytes.len() == plan.assets.len(),
            plan.assets.len() > 0 ==> crate::archive::zip_names_fit(
                seq![file_entry(plan.base@ + ".md"@, crate::text::utf8_encode(plan.md@))]
                + asset_entries("assets/"@, assets_view(plan.assets@), bytes_view(asset_bytes@)),
            ),
        ensures
            plan.assets.len() == 0 ==> (r matches Ok(a) && a.filename@ == plan.base@ + ".md"@
                && a.content_type@ == "text/markdown; charset=utf-8"@ && a.body@
                == crate::text::utf8_encode(plan.md@)),
            plan.assets.len() > 0 ==> match r {
                Ok(a) => a.filename@ == plan.base@ + ".zip"@ && a.content_type@ == "application/zip"@
                    && a.body@ == crate::archive::zip_archive(
                    seq![file_entry(plan.base@ + ".md"@, crate::text::utf8_encode(plan.md@))]
                        + asset_entries("assets/"@, assets_view(plan.assets@), bytes_view(asset_bytes@)),
                ),
                Err(e) => e == ExportError::Failed,
            },
            plan.assets.len() > 0 && crate::archive::zip_fits(
                seq![file_entry(plan.base@ + ".md"@, crate::text::utf8_encode(plan.md@))]
                    + asset_entries("assets/"@, assets_view(plan.assets@), bytes_view(asset_bytes@)),
            ) ==> r is Ok,
    {
        let mut md_name = string_of(plan.base.as_str());
        push_str(&mut md_name, ".md");
        let md_bytes = crate::text::string_bytes(plan.md.as_str());
        if plan.assets.len() == 0 {
            return Ok(
                ExportArtifact {
                    filename: md_name,
                    content_type: string_of("text/markdown; charset=utf-8"),
                    body: md_bytes,
                },
            );
        }
        let mut items: Vec<crate::archive::ArchiveItem> = Vec::new();
        items.push(crate::archive::ArchiveItem::File(md_name, md_bytes));
        assert(crate::archive::entries_of(items@) =~= seq![
            file_entry(plan.base@ + ".md"@, crate::text::utf8_encode(plan.md@)),
        ]);
        asset_items("assets/", &plan.assets, asset_bytes, &mut items);
        match crate::archive::write_archive(&items) {
            Some(body) => {
                let mut zip_name = string_of(plan.base.as_str());
                push_str(&mut zip_name, ".zip");
                Ok(ExportArtifact { filename: zip_name, content_type: string_of("application/zip"), body })
            },
            None => Err(ExportError::Failed),
        }
    }
}


/// The path recorded last for `id`, as a map of paths by id keeps it.
pub open spec fn path_for(paths: Seq<(i64, Seq<char>)>, id: i64) -> Option<Seq<char>>
    decreases paths.len(),
{
    if paths.len() == 0 {
        None
    } else if paths.last().0 == id {
        Some(paths.last().1)
    } else {
        path_for(paths.drop_last(), id)
    }
}

/// How many folders deep a path is.
pub open spec fn slashes(s: Seq<char>) -> nat
    decreases s.len(),
{
    if s.len() == 0 {
        0
    } else {
        slashes(s.drop_last()) + if s.last() == '/' {
            1nat
        } else {
            0nat
        }
    }
}

/// Whether a character separates folders in a path.
pub open spec fn is_slash(c: char) -> bool {
    c == '/'
}

/// A path's depth is the number of '/' characters in it.
pub proof fn law_slashes_count(s: Seq<char>)
    ensures
        slashes(s) == s.filter(|c: char| is_slash(c)).len(),
    decreases s.len(),
{
    reveal(Seq::filter);
    if s.len() > 0 {
        law_slashes_count(s.drop_last());
    }
}

/// The depth of a path joined from two parts is the sum of their depths;
/// one '/' is one level, any other character none.
pub proof fn law_slashes_join(a: Seq<char>, b: Seq<char>, c: char)
    ensures
        slashes(a + b) == slashes(a) + slashes(b),
        slashes(seq![c]) == if c == '/' { 1nat } else { 0nat },
    decreases b.len(),
{
    assert(seq![c].drop_last() =~= Seq::<char>::empty());
    assert(slashes(Seq::<char>::empty()) == 0);
    assert(seq![c].last() == c);
    if b.len() > 0 {
        law_slashes_join(a, b.drop_last(), c);
        assert((a + b).drop_last() =~= a + b.drop_last());
    } else {
        assert(a + b =~= a);
    }
}

/// `ups(d)` is `d` copies of "../", one per folder to climb.
pub proof fn lemma_ups_blocks(d: nat)
    ensures
        ups(d).len() == 3 * d,
        forall|i: int| 0 <= i < d ==> #[trigger] ups(d).subrange(3 * i, 3 * i + 3) == "../"@,
    decreases d,
{
    reveal_strlit("../");
    if d > 0 {
        lemma_ups_blocks((d - 1) as nat);
        let prev = ups((d - 1) as nat);
        assert forall|i: int| 0 <= i < d implies #[trigger] ups(d).subrange(3 * i, 3 * i + 3) == "../"@ by {
            if i < d - 1 {
                assert(ups(d).subrange(3 * i, 3 * i + 3) =~= prev.subrange(3 * i, 3 * i + 3));
            } else {
                assert(ups(d).subrange(3 * i, 3 * i + 3) =~= "../"@);
            }
        }
    }
}

/// In a book export, a document at the relative path `rel` links its
/// uploads through one "../" for each '/' in `rel`, then "assets/": from the
/// document's own folder the link climbs back to the book root and enters
/// its assets.
pub proof fn law_asset_link_climbs_to_root(rel: Seq<char>)
    ensures
        ({
            let d = rel.filter(|c: char| is_slash(c)).len();
            let p = ups(slashes(rel)) + "assets/"@;
            &&& p.len() == 3 * d + 7
            &&& forall|i: int| 0 <= i < d ==> #[trigger] p.subrange(3 * i, 3 * i + 3) == "../"@
            &&& p.subrange((3 * d) as int, (3 * d + 7) as int) == "assets/"@
        }),
{
    reveal_strlit("assets/");
    law_slashes_count(rel);
    let d = slashes(rel);
    lemma_ups_blocks(d);
    let p = ups(d) + "assets/"@;
    assert forall|i: int| 0 <= i < d implies #[trigger] p.subrange(3 * i, 3 * i + 3) == "../"@ by {
        assert(p.subrange(3 * i, 3 * i + 3) =~= ups(d).subrange(3 * i, 3 * i + 3));
    }
    assert(p.subrange((3 * d) as int, (3 * d + 7) as int) =~= "assets/"@);
}

/// The uploads the first `k` nodes' documents link to.
pub open spec fn collected(
    nodes: Seq<KbNode>,
    k: nat,
    upload_dir: Seq<char>,
    existing: Seq<Seq<char>>,
) -> Seq<(Seq<char>, Seq<char>)>
    decreases k,
{
    if k == 0 {
        Seq::empty()
    } else {
        let a = collected(nodes, (k - 1) as nat, upload_dir, existing);
        if nodes[k - 1].doc() {
            rewrite_of(nodes[k - 1].content_md@, upload_dir, "assets/"@, existing, a).1
        } else {
            a
        }
    }
}

/// The folders among the first `k` nodes, as directories of the archive.
pub open spec fn folder_entries(
    nodes: Seq<KbNode>,
    paths: Seq<(i64, Seq<char>)>,
    root: Seq<char>,
    k: nat,
) -> Seq<crate::archive::ZipEntry>
    decreases k,
{
    if k == 0 {
        Seq::empty()
    } else {
        let e = folder_entries(nodes, paths, root, (k - 1) as nat);
        let n = nodes[k - 1];
        match path_for(paths, n.id) {
            Some(rel) => if n.folder() {
                e.push(
                    crate::archive::ZipEntry {
                        name: root + "/"@ + rel + "/"@,
                        data: Seq::empty(),
                        dir: true,
                    },
                )
            } else {
                e
            },
            None => e,
        }
    }
}

/// The documents among the first `k` nodes as files of the archive, their
/// links to uploads pointed at the archive's assets from where they stand,
/// and the assets afterwards.
pub open spec fn doc_entries(
    nodes: Seq<KbNode>,
    paths: Seq<(i64, Seq<char>)>,
    root: Seq<char>,
    upload_dir: Seq<char>,
    existing: Seq<Seq<char>>,
    k: nat,
    a: Seq<(Seq<char>, Seq<char>)>,
) -> (Seq<crate::archive::ZipEntry>, Seq<(Seq<char>, Seq<char>)>)
    decreases k,
{
    if k == 0 {
        (Seq::empty(), a)
    } else {
        let (e, a1) = doc_entries(nodes, paths, root, upload_dir, existing, (k - 1) as nat, a);
        let n = nodes[k - 1];
        match path_for(paths, n.id) {
            Some(rel) => if n.doc() {
                let (body, a2) = rewrite_of(
                    n.content_md@,
                    upload_dir,
                    ups(slashes(rel)) + "assets/"@,
                    existing,
                    a1,
                );
                (
                    e.push(
                        file_entry(
                            root + "/"@ + rel + ".md"@,
                            crate::text::utf8_encode(with_title_of(n.title@, body)),
                        ),
                    ),
                    a2,
                )
            } else {
                (e, a1)
            },
            None => (e, a1),
        }
    }
}

fn path_for_exec(paths: &Vec<(i64, String)>, id: i64) -> (r: Option<String>)
    ensures
        match r {
            Some(p) => path_for(paths_view(paths@), id) == Some(p@),
            None => path_for(paths_view(paths@), id) is None,
        },
{
    let ghost pv = paths_view(paths@);
    let mut j: usize = paths.len();
    assert(pv.take(pv.len() as int) =~= pv);
    while j > 0
        invariant
            j <= paths.len(),
            pv == paths_view(paths@),
            path_for(pv, id) == path_for(pv.take(j as int), id),
        decreases j,
    {
        assert(pv.take(j as int).drop_last() =~= pv.take(j - 1));
        assert(pv.take(j as int).last() == (paths@[j - 1].0, paths@[j - 1].1@));
        if paths[j - 1].0 == id {
            return Some(string_of(paths[j - 1].1.as_str()));
        }
        j = j - 1;
    }
    None
}

fn slashes_exec(s: &str) -> (r: usize)
    ensures
        r == slashes(s@),
{
    let v = chars_of(s);
    let mut c: usize = 0;
    let mut i: usize = 0;
    assert(v@.take(0) =~= Seq::<char>::empty());
    while i < v.len()
        invariant
            0 <= i <= v.len(),
            v@ == s@,
            c <= i,
            c == slashes(v@.take(i as int)),
        decreases v.len() - i,
    {
        assert(v@.take(i + 1).drop_last() =~= v@.take(i as int));
        if v[i] == '/' {
            c = c + 1;
        }
        i = i + 1;
    }
    assert(v@.take(v@.len() as int) =~= v@);
    c
}

impl MarkdownExporter {
    /// Plans the export of a book: a directory for each folder, a file for
    /// each document at its path (see `build_node_paths`), and the uploads
    /// the documents link to.
    #[verifier::rlimit(40)]
    pub fn plan_book(book: &MarkdownBook, upload_dir: &str, existing: &Vec<String>) -> (r: BookExport)
        ensures
            ({
                let nodes = book.nodes@;
                let paths = node_paths_upto(nodes, nodes.len()).0;
                let root = safe_filename_of(book.book.title@);
                let ex = existing@.map_values(|x: String| x@);
                let a0 = collected(nodes, nodes.len(), upload_dir@, ex);
                let docs = doc_entries(nodes, paths, root, upload_dir@, ex, nodes.len(), a0);
                &&& r.root@ == root
                &&& crate::archive::entries_of(r.items@) == folder_entries(nodes, paths, root, nodes.len())
                    + docs.0
                &&& sorted_by_name(assets_view(r.assets@))
                &&& same_assets(assets_view(r.assets@), docs.1)
            }),
    {
        let nodes = book.nodes;
        let ghost ex = existing@.map_values(|x: String| x@);
        let root = safe_filename(book.book.title.as_str());
        let paths = build_node_paths(nodes);
        let ghost pv = paths_view(paths@);
        let mut assets: Vec<(String, String)> = Vec::new();
        let mut k: usize = 0;
        assert(assets_view(assets@) =~= Seq::<(Seq<char>, Seq<char>)>::empty());
        while k < nodes.len()
            invariant
                0 <= k <= nodes.len(),
                ex == existing@.map_values(|x: String| x@),
                assets_view(assets@) == collected(nodes@, k as nat, upload_dir@, ex),
                names_distinct(assets_view(assets@)),
            decreases nodes.len() - k,
        {
            if nodes[k].is_doc() {
                proof {
                    lemma_rewrite_distinct(
                        nodes@[k as int].content_md@,
                        upload_dir@,
                        "assets/"@,
                        ex,
                        assets_view(assets@),
                    );
                }
                collect(nodes[k].content_md.as_str(), upload_dir, existing, &mut assets);
            }
            k = k + 1;
        }
        let mut items: Vec<crate::archive::ArchiveItem> = Vec::new();
        let mut k: usize = 0;
        assert(crate::archive::entries_of(items@) =~= Seq::<crate::archive::ZipEntry>::empty());
        while k < nodes.len()
            invariant
                0 <= k <= nodes.len(),
                pv == paths_view(paths@),
                crate::archive::entries_of(items@) == folder_entries(nodes@, pv, root@, k as nat),
            decreases nodes.len() - k,
        {
            if nodes[k].is_folder() {
                if let Some(rel) = path_for_exec(&paths, nodes[k].id) {
                    let mut name = string_of(root.as_str());
                    push_str(&mut name, "/");
                    push_str(&mut name, rel.as_str());
                    push_str(&mut name, "/");
                    let ghost before = crate::archive::entries_of(items@);
                    items.push(crate::archive::ArchiveItem::Dir(name));
                    assert(crate::archive::entries_of(items@) =~= before.push(
                        crate::archive::ZipEntry { name: name@, data: Seq::empty(), dir: true },
                    ));
                }
            } else {
                let _ = path_for_exec(&paths, nodes[k].id);
            }
            k = k + 1;
        }
        let ghost folders = crate::archive::entries_of(items@);
        let ghost a0 = assets_view(assets@);
        let mut k: usize = 0;
        assert(folders + Seq::<crate::archive::ZipEntry>::empty() =~= folders);
        while k < nodes.len()
            invariant
                0 <= k <= nodes.len(),
                pv == paths_view(paths@),
                ex == existing@.map_values(|x: String| x@),
                names_distinct(assets_view(assets@)),
                crate::archive::entries_of(items@) == folders + doc_entries(
                    nodes@,
                    pv,
                    root@,
                    upload_dir@,
                    ex,
                    k as nat,
                    a0,
                ).0,
                assets_view(assets@) == doc_entries(nodes@, pv, root@, upload_dir@, ex, k as nat, a0).1,
            decreases nodes.len() - k,
        {
            if nodes[k].is_doc() {
                if let Some(rel) = path_for_exec(&paths, nodes[k].id) {
                    let prefix = assets_prefix(slashes_exec(rel.as_str()));
                    proof {
                        lemma_rewrite_distinct(
                            nodes@[k as int].content_md@,
                            upload_dir@,
                            prefix@,
                            ex,
                            assets_view(assets@),
                        );
                    }
                    let body = rewrite(
                        nodes[k].content_md.as_str(),
                        upload_dir,
                        prefix.as_str(),
                        existing,
                        &mut assets,
                    );
                    let md = with_title(nodes[k].title.as_str(), body.as_str());
                    let mut name = string_of(root.as_str());
                    push_str(&mut name, "/");
                    push_str(&mut name, rel.as_str());
                    push_str(&mut name, ".md");
                    let data = crate::text::string_bytes(md.as_str());
                    let ghost before = crate::archive::entries_of(items@);
                    items.push(crate::archive::ArchiveItem::File(name, data));
                    assert(crate::archive::entries_of(items@) =~= before.push(file_entry(name@, data@)));
                }
            } else {
                let _ = path_for_exec(&paths, nodes[k].id);
            }
            k = k + 1;
        }
        let sorted = sort_assets(&assets);
        BookExport { root, items, assets: sorted }
    }

    /// The entries of the zip of a planned book export, in order.
    fn book_items(plan: &BookExport, asset_bytes: &Vec<Vec<u8>>) -> (items: Vec<crate::archive::ArchiveItem>)
        requires
            asset_bytes.len() == plan.assets.len(),
        ensures
            crate::archive::entries_of(items@) == crate::archive::entries_of(plan.items@) + asset_entries(
                plan.root@ + "/assets/"@,
                assets_view(plan.assets@),
                bytes_view(asset_bytes@),
            ),
    {
        let mut items: Vec<crate::archive::ArchiveItem> = Vec::new();
        let mut i: usize = 0;
        while i < plan.items.len()
            invariant
                0 <= i <= plan.items.len(),
                crate::archive::entries_of(items@) == crate::archive::entries_of(plan.items@.take(i as int)),
            decreases plan.items.len() - i,
        {
            let item = match &plan.items[i] {
                crate::archive::ArchiveItem::Dir(n) => {
                    let x = crate::archive::ArchiveItem::Dir(string_of(n.as_str()));
                    assert(crate::archive::item_entry(x) == crate::archive::item_entry(
                        plan.items@[i as int],
                    ));
                    x
                },
                crate::archive::ArchiveItem::File(n, d) => {
                    let x = crate::archive::ArchiveItem::File(string_of(n.as_str()), copy_bytes(d));
                    assert(crate::archive::item_entry(x) == crate::archive::item_entry(
                        plan.items@[i as int],
                    ));
                    x
                },
            };
            let ghost before = crate::archive::entries_of(items@);
            let ghost e = crate::archive::item_entry(item);
            items.push(item);
            assert(crate::archive::entries_of(items@) =~= before.push(e));
            assert(crate::archive::entries_of(plan.items@.take(i + 1)) =~= crate::archive::entries_of(
                plan.items@.take(i as int),
            ).push(e));
            i = i + 1;
        }
        assert(plan.items@.take(plan.items@.len() as int) =~= plan.items@);
        let mut dir = string_of(plan.root.as_str());
        push_str(&mut dir, "/assets/");
        asset_items(dir.as_str(), &plan.assets, asset_bytes, &mut items);
        items
    }

    /// Whether every entry of the zip `finish_book` would write is stored
    /// under a name the zip headers can hold.
    pub fn book_names_fit(plan: &BookExport, asset_bytes: &Vec<Vec<u8>>) -> (r: bool)
        requires
            asset_bytes.len() == plan.assets.len(),
        ensures
            r == crate::archive::zip_names_fit(
                crate::archive::entries_of(plan.items@) + asset_entries(
                    plan.root@ + "/assets/"@,
                    assets_view(plan.assets@),
                    bytes_view(asset_bytes@),
                ),
            ),
    {
        let items = Self::book_items(plan, asset_bytes);
        crate::archive::archive_names_fit(&items)
    }

    /// The zip a planned book export gives, with the bytes read for its
    /// assets in order: the folders and documents, then the uploads under
    /// `<root>/assets/` where there are any; it is made where the entries
    /// fit (`zip_fits`).
    pub fn finish_book(plan: &BookExport, asset_bytes: &Vec<Vec<u8>>) -> (r: Result<ExportArtifact, ExportError>)
        requires
            asset_bytes.len() == plan.assets.len(),
            crate::archive::zip_names_fit(
            crate::archive::entries_of(plan.items@) + asset_entries(
                plan.root@ + "/assets/"@,
                assets_view(plan.assets@),
                bytes_view(asset_bytes@),
            ),
            ),
        ensures
            match r {
                Ok(a) => a.filename@ == plan.root@ + ".zip"@ && a.content_type@ == "application/zip"@
                    && a.body@ == crate::archive::zip_archive(
                    crate::archive::entries_of(plan.items@) + asset_entries(
                        plan.root@ + "/assets/"@,
                        assets_view(plan.assets@),
                        bytes_view(asset_bytes@),
                    ),
                ),
                Err(e) => e == ExportError::Failed,
            },
            crate::archive::zip_fits(
                crate::archive::entries_of(plan.items@) + asset_entries(
                    plan.root@ + "/assets/"@,
                    assets_view(plan.assets@),
                    bytes_view(asset_bytes@),
                ),
            ) ==> r is Ok,
    {
        let items = Self::book_items(plan, asset_bytes);
        match crate::archive::write_archive(&items) {
            Some(body) => {
                let mut zip_name = string_of(plan.root.as_str());
                push_str(&mut zip_name, ".zip");
                Ok(ExportArtifact { filename: zip_name, content_type: string_of("application/zip"), body })
            },
            None => Err(ExportError::Failed),
        }
    }
}


/// What a post exports: its title and Markdown.
pub fn build_post<'a>(post: &'a crate::models::post::Post) -> (r: MarkdownDoc<'a>)
    ensures
        r.title@ == post.title@,
        r.body_md@ == post.content_md@,
{
    MarkdownDoc { title: post.title.as_str(), body_md: post.content_md.as_str() }
}

/// What a page exports: its title and Markdown.
pub fn build_page<'a>(page: &'a crate::models::page::Page) -> (r: MarkdownDoc<'a>)
    ensures
        r.title@ == page.title@,
        r.body_md@ == page.content_md@,
{
    MarkdownDoc { title: page.title.as_str(), body_md: page.content_md.as_str() }
}

/// What a knowledge-base node exports: only a document can be exported.
pub fn build_doc<'a>(node: &'a KbNode) -> (r: Result<MarkdownDoc<'a>, ExportError>)
    ensures
        match r {
            Ok(d) => node.doc() && d.title@ == node.title@ && d.body_md@ == node.content_md@,
            Err(e) => !node.doc() && e == ExportError::NotADoc,
        },
{
    if !node.is_doc() {
        return Err(ExportError::NotADoc);
    }
    Ok(MarkdownDoc { title: node.title.as_str(), body_md: node.content_md.as_str() })
}

/// What a book exports: the book and its nodes.
pub fn build_book<'a>(book: &'a KbBook, nodes: &'a Vec<KbNode>) -> (r: MarkdownBook<'a>)
    ensures
        r.book == book,
        r.nodes@ == nodes@,
{
    MarkdownBook { book, nodes }
}


// ---------------------------------------------------------------------------
// The download's headers
// ---------------------------------------------------------------------------

/// A file name percent-encoded for a header, spaces as `%20`.
pub fn urlencoding_minimal(s: &str) -> (r: String)
    ensures
        r@ == crate::text::url_encode(s@, false),
{
    crate::text::url_encode_str(s, false)
}

pub open spec fn ascii_name_char(c: char) -> char {
    if crate::text::is_ascii_alnum(c) || c == '.' || c == '-' || c == '_' {
        c
    } else {
        '_'
    }
}

/// `Content-Disposition` for a download: an ASCII fallback name (other
/// characters as `_`) and the UTF-8 name percent-encoded.
pub open spec fn content_disposition_of(filename: Seq<char>) -> Seq<char> {
    "attachment; filename=\""@ + filename.map_values(|c: char| ascii_name_char(c))
        + "\"; filename*=UTF-8''"@ + crate::text::url_encode(filename, false)
}

pub fn content_disposition(filename: &str) -> (r: String)
    ensures
        r@ == content_disposition_of(filename@),
{
    let v = chars_of(filename);
    let mut ascii = new_string();
    let mut i: usize = 0;
    while i < v.len()
        invariant
            0 <= i <= v.len(),
            v@ == filename@,
            ascii@ == v@.take(i as int).map_values(|c: char| ascii_name_char(c)),
        decreases v.len() - i,
    {
        let c = v[i];
        let keep = crate::text::char_is_ascii_alnum(c) || c == '.' || c == '-' || c == '_';
        push_char(
            &mut ascii,
            if keep {
                c
            } else {
                '_'
            },
        );
        i = i + 1;
        assert(ascii@ =~= v@.take(i as int).map_values(|c: char| ascii_name_char(c)));
    }
    assert(v@.take(v@.len() as int) =~= v@);
    let mut out = string_of("attachment; filename=\"");
    push_str(&mut out, ascii.as_str());
    push_str(&mut out, "\"; filename*=UTF-8''");
    push_str(&mut out, urlencoding_minimal(filename).as_str());
    out
}

/// The uploads an export bundles under `assets/` have different names:
/// the plans list them in strict name order.
pub proof fn law_export_assets_unique(a: Seq<(Seq<char>, Seq<char>)>)
    requires
        sorted_by_name(a),
    ensures
        names_distinct(a),
{
    assert forall|i: int, j: int| 0 <= i < j < a.len() implies a[i].0 != a[j].0 by {
        if a[i].0 == a[j].0 {
            lemma_name_lt_irrefl(a[i].0);
        }
    }
}

} // verus!
