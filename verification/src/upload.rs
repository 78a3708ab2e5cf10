//! Upload URLs and file names: which URLs under `/uploads/` are accepted,
//! how a stored media file's thumbnail is named, how an upload's image type
//! is recognised from its first bytes, and which extensions are accepted.
use vstd::prelude::*;

use crate::text::{
    char_is_ascii_alnum, chars_of, contains_char, contains_str, has_infix, is_ascii_alnum,
    new_string, push_range, push_str, starts, starts_with, str_eq, string_from_chars, string_of, subvec,
    take_n, take_vec, trim, trim_vec, trimmed, vec_eq,
};

verus! {

pub const MEDIA_URL_PREFIX: &'static str = "/uploads/media/";

pub const POSTS_URL_PREFIX: &'static str = "/uploads/posts/";

pub const SITE_URL_PREFIX: &'static str = "/uploads/site/";

pub const MAX_POST_IMAGE: usize = 2097152;

pub const MAX_MEDIA: usize = 5242880;

pub const MAIN_MAX_EDGE: u32 = 1920;

pub const THUMB_MAX_EDGE: u32 = 400;

pub const SKIP_REENCODE_JPEG_BYTES: usize = 460800;

/// A file stored under the media directory.
#[derive(Debug, Clone)]
pub struct SavedMedia {
    pub name: String,
    pub url: String,
    pub mime: String,
    pub size: i64,
}

pub open spec fn safe_name_char(c: char) -> bool {
    is_ascii_alnum(c) || c == '.' || c == '-' || c == '_'
}

/// A file name that may be joined to an upload directory.
pub open spec fn is_safe_filename_spec(name: Seq<char>) -> bool {
    &&& name.len() > 0
    &&& !name.contains('/')
    &&& !has_infix(name, ".."@)
    &&& forall|k: int| 0 <= k < name.len() ==> safe_name_char(#[trigger] name[k])
}

pub fn is_safe_filename(name: &Vec<char>) -> (r: bool)
    ensures
        r == is_safe_filename_spec(name@),
{
    if name.len() == 0 || contains_char(name, '/') || contains_str(name, "..") {
        return false;
    }
    let mut i: usize = 0;
    while i < name.len()
        invariant
            0 <= i <= name.len(),
            forall|k: int| 0 <= k < i ==> safe_name_char(#[trigger] name@[k]),
        decreases name.len() - i,
    {
        let c = name[i];
        if !(char_is_ascii_alnum(c) || c == '.' || c == '-' || c == '_') {
            return false;
        }
        i = i + 1;
    }
    true
}

/// `sanitize_asset_url`: the trimmed URL when it is `prefix` followed by a
/// safe file name, and the empty string otherwise.
pub open spec fn sanitize_asset_url_spec(url: Seq<char>, prefix: Seq<char>) -> Seq<char> {
    let u = trim(url);
    if starts(u, prefix) && is_safe_filename_spec(u.subrange(prefix.len() as int, u.len() as int)) {
        u
    } else {
        Seq::empty()
    }
}

pub fn sanitize_asset_url(url: &str, prefix: &str) -> (r: String)
    ensures
        r@ == sanitize_asset_url_spec(url@, prefix@),
{
    let u = trimmed(url);
    if !starts_with(&u, prefix) {
        return new_string();
    }
    let p = chars_of(prefix);
    let name = subvec(&u, p.len(), u.len());
    if !is_safe_filename(&name) {
        return new_string();
    }
    let mut out = string_of(prefix);
    push_range(&mut out, &u, p.len(), u.len());
    proof {
        assert(u@ =~= u@.subrange(0, p@.len() as int) + u@.subrange(p@.len() as int, u@.len() as int));
    }
    out
}

pub open spec fn sanitize_cover_url_spec(url: Seq<char>) -> Seq<char> {
    let posts = sanitize_asset_url_spec(url, POSTS_URL_PREFIX@);
    if posts.len() > 0 {
        posts
    } else {
        sanitize_asset_url_spec(url, MEDIA_URL_PREFIX@)
    }
}

/// A cover image may be a post upload or a media upload.
pub fn sanitize_cover_url(url: &str) -> (r: String)
    ensures
        r@ == sanitize_cover_url_spec(url@),
{
    let posts = sanitize_asset_url(url, POSTS_URL_PREFIX);
    let v = chars_of(posts.as_str());
    if v.len() > 0 {
        return posts;
    }
    sanitize_asset_url(url, MEDIA_URL_PREFIX)
}

pub open spec fn sanitize_brand_url_spec(url: Seq<char>) -> Seq<char> {
    let site = sanitize_asset_url_spec(url, SITE_URL_PREFIX@);
    if site.len() > 0 {
        site
    } else {
        sanitize_asset_url_spec(url, MEDIA_URL_PREFIX@)
    }
}

/// A logo, avatar or favicon may be a site upload or a media upload.
pub fn sanitize_brand_url(url: &str) -> (r: String)
    ensures
        r@ == sanitize_brand_url_spec(url@),
{
    let site = sanitize_asset_url(url, SITE_URL_PREFIX);
    let v = chars_of(site.as_str());
    if v.len() > 0 {
        return site;
    }
    sanitize_asset_url(url, MEDIA_URL_PREFIX)
}

/// The index of the last `.` in `s`, if any.
pub open spec fn last_dot(s: Seq<char>) -> Option<int>
    decreases s.len(),
{
    if s.len() == 0 {
        None
    } else if s.last() == '.' {
        Some(s.len() - 1)
    } else {
        last_dot(s.drop_last())
    }
}

/// `Path::file_stem` and `Path::extension` of a name that holds no `/` and
/// is neither `.` nor `..`: split at the last dot, unless that dot is the
/// first character.
pub open spec fn stem_ext(name: Seq<char>) -> (Seq<char>, Option<Seq<char>>) {
    match last_dot(name) {
        Some(k) => if k == 0 {
            (name, None)
        } else {
            (name.take(k), Some(name.subrange(k + 1, name.len() as int)))
        },
        None => (name, None),
    }
}

pub fn find_last_dot(v: &Vec<char>) -> (r: Option<usize>)
    ensures
        match r {
            Some(k) => last_dot(v@) == Some(k as int) && k < v.len(),
            None => last_dot(v@) is None,
        },
{
    let mut j: usize = v.len();
    assert(v@.take(v@.len() as int) =~= v@);
    while j > 0
        invariant
            j <= v.len(),
            last_dot(v@) == last_dot(v@.take(j as int)),
        decreases j,
    {
        assert(v@.take(j as int).drop_last() =~= v@.take(j - 1));
        if v[j - 1] == '.' {
            assert(v@.take(j as int).last() == '.');
            return Some(j - 1);
        }
        j = j - 1;
    }
    None
}

/// The thumbnail URL of a media upload: `<stem>_thumb.<ext>` beside it, with
/// `jpg` where the file has no extension; empty when the URL or the result
/// is not a safe media URL.
pub open spec fn media_thumb_url_spec(url: Seq<char>) -> Seq<char> {
    let safe = sanitize_asset_url_spec(url, MEDIA_URL_PREFIX@);
    let p = MEDIA_URL_PREFIX@;
    if !starts(safe, p) {
        Seq::empty()
    } else {
        let name = safe.subrange(p.len() as int, safe.len() as int);
        if name == "."@ {
            Seq::empty()
        } else {
            let (stem, ext) = stem_ext(name);
            let e = match ext {
                Some(e) => e,
                None => "jpg"@,
            };
            let thumb = stem + "_thumb."@ + e;
            if is_safe_filename_spec(thumb) {
                p + thumb
            } else {
                Seq::empty()
            }
        }
    }
}

pub fn media_thumb_url(url: &str) -> (r: String)
    ensures
        r@ == media_thumb_url_spec(url@),
{
    let safe = sanitize_asset_url(url, MEDIA_URL_PREFIX);
    let sv = chars_of(safe.as_str());
    if !starts_with(&sv, MEDIA_URL_PREFIX) {
        return new_string();
    }
    let p = chars_of(MEDIA_URL_PREFIX);
    let name = subvec(&sv, p.len(), sv.len());
    let dot = chars_of(".");
    if vec_eq(&name, &dot) {
        return new_string();
    }
    let mut thumb = new_string();
    let ghost stem_ext_v = stem_ext(name@);
    match find_last_dot(&name) {
        Some(k) => {
            if k == 0 {
                push_range(&mut thumb, &name, 0, name.len());
                push_str(&mut thumb, "_thumb.");
                push_str(&mut thumb, "jpg");
                assert(name@.subrange(0, name@.len() as int) =~= name@);
            } else {
                push_range(&mut thumb, &name, 0, k);
                push_str(&mut thumb, "_thumb.");
                push_range(&mut thumb, &name, k + 1, name.len());
                assert(name@.subrange(0, k as int) =~= name@.take(k as int));
            }
        },
        None => {
            push_range(&mut thumb, &name, 0, name.len());
            push_str(&mut thumb, "_thumb.");
            push_str(&mut thumb, "jpg");
            assert(name@.subrange(0, name@.len() as int) =~= name@);
        },
    }
    let tv = chars_of(thumb.as_str());
    proof {
        assert(Seq::<char>::empty() + stem_ext_v.0 =~= stem_ext_v.0);
    }
    if !is_safe_filename(&tv) {
        return new_string();
    }
    let mut out = string_of(MEDIA_URL_PREFIX);
    push_str(&mut out, thumb.as_str());
    out
}

/// Whether `bytes` starts with `sig`.
pub open spec fn bytes_start(bytes: Seq<u8>, sig: Seq<u8>) -> bool {
    sig.len() <= bytes.len() && bytes.subrange(0, sig.len() as int) == sig
}

pub open spec fn png_sig() -> Seq<u8> {
    seq![0x89u8, 0x50u8, 0x4Eu8, 0x47u8, 0x0Du8, 0x0Au8, 0x1Au8, 0x0Au8]
}

/// The image type recognised from the first bytes of an upload.
pub open spec fn detect_image_ext_spec(b: Seq<u8>) -> Option<Seq<char>> {
    if bytes_start(b, png_sig()) {
        Some("png"@)
    } else if b.len() >= 3 && b[0] == 0xFF && b[1] == 0xD8 && b[2] == 0xFF {
        Some("jpg"@)
    } else if b.len() >= 12 && b.subrange(0, 4) == seq![0x52u8, 0x49u8, 0x46u8, 0x46u8]
        && b.subrange(8, 12) == seq![0x57u8, 0x45u8, 0x42u8, 0x50u8] {
        Some("webp"@)
    } else if b.len() >= 4 && b[0] == 0 && b[1] == 0 && b[2] == 1 && b[3] == 0 {
        Some("ico"@)
    } else if b.len() >= 6 && (b.subrange(0, 6) == seq![0x47u8, 0x49u8, 0x46u8, 0x38u8, 0x37u8, 0x61u8]
        || b.subrange(0, 6) == seq![0x47u8, 0x49u8, 0x46u8, 0x38u8, 0x39u8, 0x61u8]) {
        Some("gif"@)
    } else {
        None
    }
}

fn bytes_match(b: &[u8], at: usize, sig: &[u8]) -> (r: bool)
    requires
        at + sig@.len() <= b@.len(),
    ensures
        r == (b@.subrange(at as int, at + sig@.len()) == sig@),
{
    let n = b.len();
    let mut k: usize = 0;
    while k < sig.len()
        invariant
            n == b@.len(),
            at + sig@.len() <= b@.len(),
            0 <= k <= sig@.len(),
            forall|m: int| 0 <= m < k ==> b@[at + m] == sig@[m],
        decreases sig.len() - k,
    {
        if b[at + k] != sig[k] {
            assert(b@.subrange(at as int, at + sig@.len())[k as int] != sig@[k as int]);
            return false;
        }
        k = k + 1;
    }
    assert(b@.subrange(at as int, at + sig@.len()) =~= sig@);
    true
}

pub fn detect_image_ext(bytes: &[u8]) -> (r: Option<&'static str>)
    ensures
        match r {
            Some(e) => detect_image_ext_spec(bytes@) == Some(e@),
            None => detect_image_ext_spec(bytes@) is None,
        },
{
    let png: [u8; 8] = [0x89, 0x50, 0x4E, 0x47, 0x0D, 0x0A, 0x1A, 0x0A];
    if bytes.len() >= 8 && bytes_match(bytes, 0, &png) {
        assert(png@ =~= png_sig());
        return Some("png");
    }
    assert(png@ =~= png_sig());
    if bytes.len() >= 3 && bytes[0] == 0xFF && bytes[1] == 0xD8 && bytes[2] == 0xFF {
        return Some("jpg");
    }
    let riff: [u8; 4] = [0x52, 0x49, 0x46, 0x46];
    let webp: [u8; 4] = [0x57, 0x45, 0x42, 0x50];
    if bytes.len() >= 12 && bytes_match(bytes, 0, &riff) && bytes_match(bytes, 8, &webp) {
        assert(riff@ =~= seq![0x52u8, 0x49u8, 0x46u8, 0x46u8]);
        assert(webp@ =~= seq![0x57u8, 0x45u8, 0x42u8, 0x50u8]);
        return Some("webp");
    }
    assert(riff@ =~= seq![0x52u8, 0x49u8, 0x46u8, 0x46u8]);
    assert(webp@ =~= seq![0x57u8, 0x45u8, 0x42u8, 0x50u8]);
    if bytes.len() >= 4 && bytes[0] == 0 && bytes[1] == 0 && bytes[2] == 1 && bytes[3] == 0 {
        return Some("ico");
    }
    let gif7: [u8; 6] = [0x47, 0x49, 0x46, 0x38, 0x37, 0x61];
    let gif9: [u8; 6] = [0x47, 0x49, 0x46, 0x38, 0x39, 0x61];
    assert(gif7@ =~= seq![0x47u8, 0x49u8, 0x46u8, 0x38u8, 0x37u8, 0x61u8]);
    assert(gif9@ =~= seq![0x47u8, 0x49u8, 0x46u8, 0x38u8, 0x39u8, 0x61u8]);
    if bytes.len() >= 6 && (bytes_match(bytes, 0, &gif7) || bytes_match(bytes, 0, &gif9)) {
        return Some("gif");
    }
    None
}

/// The stored extension and MIME type of an accepted upload extension.
pub open spec fn ext_mime_spec(ext: Seq<char>) -> Option<(Seq<char>, Seq<char>)> {
    if ext == "png"@ {
        Some(("png"@, "image/png"@))
    } else if ext == "jpg"@ || ext == "jpeg"@ {
        Some(("jpg"@, "image/jpeg"@))
    } else if ext == "webp"@ {
        Some(("webp"@, "image/webp"@))
    } else if ext == "gif"@ {
        Some(("gif"@, "image/gif"@))
    } else if ext == "ico"@ {
        Some(("ico"@, "image/x-icon"@))
    } else if ext == "pdf"@ {
        Some(("pdf"@, "application/pdf"@))
    } else if ext == "zip"@ {
        Some(("zip"@, "application/zip"@))
    } else if ext == "txt"@ {
        Some(("txt"@, "text/plain"@))
    } else if ext == "md"@ {
        Some(("md"@, "text/markdown"@))
    } else if ext == "csv"@ {
        Some(("csv"@, "text/csv"@))
    } else if ext == "json"@ {
        Some(("json"@, "application/json"@))
    } else {
        None
    }
}

pub fn ext_mime(ext: &str) -> (r: Option<(&'static str, &'static str)>)
    ensures
        match r {
            Some((e, m)) => ext_mime_spec(ext@) == Some((e@, m@)),
            None => ext_mime_spec(ext@) is None,
        },
{
    if str_eq(ext, "png") {
        Some(("png", "image/png"))
    } else if str_eq(ext, "jpg") || str_eq(ext, "jpeg") {
        Some(("jpg", "image/jpeg"))
    } else if str_eq(ext, "webp") {
        Some(("webp", "image/webp"))
    } else if str_eq(ext, "gif") {
        Some(("gif", "image/gif"))
    } else if str_eq(ext, "ico") {
        Some(("ico", "image/x-icon"))
    } else if str_eq(ext, "pdf") {
        Some(("pdf", "application/pdf"))
    } else if str_eq(ext, "zip") {
        Some(("zip", "application/zip"))
    } else if str_eq(ext, "txt") {
        Some(("txt", "text/plain"))
    } else if str_eq(ext, "md") {
        Some(("md", "text/markdown"))
    } else if str_eq(ext, "csv") {
        Some(("csv", "text/csv"))
    } else if str_eq(ext, "json") {
        Some(("json", "application/json"))
    } else {
        None
    }
}

/// The last part of `raw` between slashes that is neither empty nor `.`,
/// read from the end; `cur` is what has been read of the part at the end.
pub open spec fn last_part_from(raw: Seq<char>, cur: Seq<char>) -> Option<Seq<char>>
    decreases raw.len(),
{
    if raw.len() == 0 || raw.last() == '/' {
        if cur.len() > 0 && cur != "."@ {
            Some(cur)
        } else if raw.len() == 0 {
            None
        } else {
            last_part_from(raw.drop_last(), Seq::empty())
        }
    } else {
        last_part_from(raw.drop_last(), seq![raw.last()] + cur)
    }
}

/// The last component of a path, as `Path::file_name` documents it:
/// repeated slashes and `.` parts are passed over, and a path that ends in
/// `..`, or has no part left (empty, `/`, `.`), has none.
pub open spec fn path_file_name(raw: Seq<char>) -> Option<Seq<char>> {
    match last_part_from(raw, Seq::empty()) {
        Some(p) => if p == ".."@ {
            None
        } else {
            Some(p)
        },
        None => None,
    }
}

/// `Path::file_name` on a path given as a string (`path_file_name`); a
/// component of a `&str` path is always valid UTF-8, so `to_str` never
/// fails.
#[verifier::external_body]
pub(crate) fn file_name_of(raw: &str) -> (r: Option<String>)
    ensures
        match r {
            Some(s) => path_file_name(raw@) == Some(s@),
            None => path_file_name(raw@) is None,
        },
{
    std::path::Path::new(raw).file_name().and_then(|s| s.to_str()).map(|s| s.to_string())
}

/// The name under which an uploaded file is listed: its last path
/// component, cut to 120 characters, or `file` when that is blank.
pub open spec fn original_name_from(file_name: Option<Seq<char>>) -> Seq<char> {
    let base = match file_name {
        Some(n) => n,
        None => "file"@,
    };
    let name = take_n(base, 120);
    if trim(name).len() == 0 {
        "file"@
    } else {
        name
    }
}

pub fn sanitize_original_name(raw: &str) -> (r: String)
    ensures
        r@ == original_name_from(path_file_name(raw@)),
{
    let base = match file_name_of(raw) {
        Some(n) => chars_of(n.as_str()),
        None => chars_of("file"),
    };
    let name = take_vec(&base, 120);
    let t = trim_vec(&name);
    if t.len() == 0 {
        string_of("file")
    } else {
        string_from_chars(&name)
    }
}

/// The bucket and file name a `/uploads/<bucket>/<name>` URL points at.
pub open spec fn upload_parts_spec(url: Seq<char>) -> Option<(Seq<char>, Seq<char>)> {
    let u = trim(url);
    let pre = "/uploads/"@;
    if !starts(u, pre) {
        None
    } else {
        let rest = u.subrange(pre.len() as int, u.len() as int);
        if rest.len() == 0 || has_infix(rest, ".."@) || starts(rest, "/"@) || rest.contains('\\') {
            None
        } else {
            match first_slash(rest) {
                None => None,
                Some(k) => {
                    let bucket = rest.take(k);
                    let name = rest.subrange(k + 1, rest.len() as int);
                    if !(bucket == "media"@ || bucket == "posts"@ || bucket == "site"@) {
                        None
                    } else if name.contains('/') || !is_safe_filename_spec(name) {
                        None
                    } else {
                        Some((bucket, name))
                    }
                },
            }
        }
    }
}

pub open spec fn first_slash(s: Seq<char>) -> Option<int> {
    if s.contains('/') {
        Some(choose|k: int| 0 <= k < s.len() && s[k] == '/' && forall|j: int| 0 <= j < k ==> s[j] != '/')
    } else {
        None
    }
}

pub fn find_char(v: &Vec<char>, c: char) -> (r: Option<usize>)
    ensures
        match r {
            Some(k) => k < v.len() && v@[k as int] == c && forall|j: int| 0 <= j < k ==> v@[j] != c,
            None => !v@.contains(c),
        },
{
    let mut i: usize = 0;
    while i < v.len()
        invariant
            0 <= i <= v.len(),
            forall|j: int| 0 <= j < i ==> v@[j] != c,
        decreases v.len() - i,
    {
        if v[i] == c {
            return Some(i);
        }
        i = i + 1;
    }
    None
}

proof fn lemma_first_slash(s: Seq<char>, k: int)
    requires
        0 <= k < s.len(),
        s[k] == '/',
        forall|j: int| 0 <= j < k ==> s[j] != '/',
    ensures
        first_slash(s) == Some(k),
{
    let c = choose|m: int| 0 <= m < s.len() && s[m] == '/' && forall|j: int| 0 <= j < m ==> s[j] != '/';
    assert(0 <= c < s.len() && s[c] == '/' && forall|j: int| 0 <= j < c ==> s[j] != '/');
    if c < k {
        assert(s[c] != '/');
    }
    if k < c {
        assert(s[k] != '/');
    }
}

/// The bucket and name of an upload URL, or `None` when the URL does not
/// name a single safe file in one of the three upload buckets.
pub fn upload_parts(url: &str) -> (r: Option<(String, String)>)
    ensures
        match r {
            Some((b, n)) => upload_parts_spec(url@) == Some((b@, n@)),
            None => upload_parts_spec(url@) is None,
        },
{
    let u = trimmed(url);
    if !starts_with(&u, "/uploads/") {
        return None;
    }
    let pre = chars_of("/uploads/");
    let rest = subvec(&u, pre.len(), u.len());
    if rest.len() == 0 || contains_str(&rest, "..") || starts_with(&rest, "/") || contains_char(
        &rest,
        '\\',
    ) {
        return None;
    }
    match find_char(&rest, '/') {
        None => {
            proof {
                assert(first_slash(rest@) is None);
            }
            None
        },
        Some(k) => {
            proof {
                lemma_first_slash(rest@, k as int);
            }
            let bucket = subvec(&rest, 0, k);
            let name = subvec(&rest, k + 1, rest.len());
            assert(bucket@ =~= rest@.take(k as int));
            let media = chars_of("media");
            let posts = chars_of("posts");
            let site = chars_of("site");
            if !(vec_eq(&bucket, &media) || vec_eq(&bucket, &posts) || vec_eq(&bucket, &site)) {
                return None;
            }
            if contains_char(&name, '/') || !is_safe_filename(&name) {
                return None;
            }
            Some((string_from_chars(&bucket), string_from_chars(&name)))
        },
    }
}

/// A relative path `part` joined to `base` as `Path::join` documents it: a
/// separator goes between them unless `base` is empty or already ends
/// with one.
pub open spec fn join_path(base: Seq<char>, part: Seq<char>) -> Seq<char> {
    if base.len() == 0 || base.last() == '/' {
        base + part
    } else {
        base + "/"@ + part
    }
}

fn push_path(p: &mut String, part: &str)
    ensures
        final(p)@ == join_path(old(p)@, part@),
{
    let v = chars_of(p.as_str());
    if !(v.len() == 0 || v[v.len() - 1] == '/') {
        push_str(p, "/");
    }
    push_str(p, part);
}

/// The path of the file an upload URL points at, below `upload_dir`
/// (`upload_dir` joined with the bucket, then the name), whether or not
/// the file is there.
pub fn upload_file_path(url: &str, upload_dir: &str) -> (r: Option<String>)
    ensures
        match upload_parts_spec(url@) {
            Some((b, n)) => r is Some && r.unwrap()@ == join_path(join_path(upload_dir@, b), n),
            None => r is None,
        },
{
    match upload_parts(url) {
        Some((bucket, name)) => {
            let mut p = string_of(upload_dir);
            push_path(&mut p, bucket.as_str());
            push_path(&mut p, name.as_str());
            Some(p)
        },
        None => None,
    }
}

/// The file an upload URL points at, where it is one of the files that
/// exist (`existing`, the paths of the regular files under the upload
/// directory, as the file system lists them).
pub fn resolve_upload_file(url: &str, upload_dir: &str, existing: &Vec<String>) -> (r: Option<String>)
    ensures
        match r {
            Some(p) => crate::export::upload_path(url@, upload_dir@, existing@.map_values(|x: String| x@))
                == Some(p@),
            None => crate::export::upload_path(url@, upload_dir@, existing@.map_values(|x: String| x@))
                is None,
        },
{
    let ghost ex = existing@.map_values(|x: String| x@);
    match upload_file_path(url, upload_dir) {
        Some(p) => {
            assert(upload_parts_spec(url@) is Some);
            assert(crate::export::upload_path(url@, upload_dir@, ex) == (if ex.contains(p@) {
                Some(p@)
            } else {
                None
            }));
            let mut i: usize = 0;
            while i < existing.len()
                invariant
                    0 <= i <= existing.len(),
                    ex == existing@.map_values(|x: String| x@),
                    forall|k: int| 0 <= k < i ==> ex[k] != p@,
                    crate::export::upload_path(url@, upload_dir@, ex) == (if ex.contains(p@) {
                        Some(p@)
                    } else {
                        None
                    }),
                decreases existing.len() - i,
            {
                if crate::text::str_eq(existing[i].as_str(), p.as_str()) {
                    assert(ex[i as int] == p@);
                    assert(ex.contains(p@));
                    return Some(p);
                }
                i = i + 1;
            }
            assert(!ex.contains(p@));
            None
        },
        None => None,
    }
}

/// An upload URL is served only from one of the three buckets, and only
/// as a single safe file name inside it: no separator and no `..`.
pub proof fn law_uploads_stay_in_buckets(url: Seq<char>)
    ensures
        match upload_parts_spec(url) {
            Some((b, n)) => (b == "media"@ || b == "posts"@ || b == "site"@) && is_safe_filename_spec(n)
                && !n.contains('/') && !has_infix(n, ".."@),
            None => true,
        },
{
}

/// Making an asset URL safe is done once: a URL it gives back is given
/// back again unchanged.
pub proof fn law_asset_url_stable(url: Seq<char>, prefix: Seq<char>)
    ensures
        sanitize_asset_url_spec(sanitize_asset_url_spec(url, prefix), prefix)
            == sanitize_asset_url_spec(url, prefix),
{
    crate::text::lemma_trim_idempotent(url);
    let r = sanitize_asset_url_spec(url, prefix);
    if r.len() == 0 {
        let e = Seq::<char>::empty();
        assert(trim(e) =~= e) by {
            assert(crate::text::trim_start(e) == e);
        }
        if starts(e, prefix) {
            assert(prefix.len() == 0);
            assert(e.subrange(0, 0) =~= e);
        }
        assert(r =~= e);
    }
}

} // verus!
