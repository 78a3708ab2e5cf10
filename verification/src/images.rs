//! Uploaded images and files: which uploads are taken and how they are
//! stored, when a photo keeps its original bytes, how large pictures are
//! scaled down, and which format a processed picture is saved in. The
//! pixels themselves are the `image` crate's work.
use image::ImageEncoder;
use vstd::prelude::*;

use crate::markdown::{new_uuid_text, uuid_shape};
use crate::text::{
    chars_of, lower_seq, lower_vec, push_str, str_eq, string_from_chars, string_of,
};
use crate::upload::{
    MAX_POST_IMAGE, POSTS_URL_PREFIX,
    detect_image_ext, detect_image_ext_spec, ext_mime, ext_mime_spec, original_name_from,
    path_file_name, sanitize_original_name, stem_ext, MAIN_MAX_EDGE, MAX_MEDIA,
    MEDIA_URL_PREFIX, SKIP_REENCODE_JPEG_BYTES, THUMB_MAX_EDGE,
};

verus! {

pub const JPEG_QUALITY: u8 = 80;

#[verifier::external_type_specification]
#[verifier::external_body]
pub struct ExDynamicImage(image::DynamicImage);

/// The size in pixels of the picture that `image::load_from_memory` decodes
/// from `bytes`, or none where it refuses them.
pub uninterp spec fn decoded_size(bytes: Seq<u8>) -> Option<(u32, u32)>;

/// How a picture came to be: decoded from bytes, or scaled from another
/// picture to fit within a box.
pub enum PicV {
    Decoded(Seq<u8>),
    Resized(Box<PicV>, u32, u32),
}

/// The size in pixels of the picture `DynamicImage::resize` makes of `p`
/// to fit within `w` by `h`.
pub uninterp spec fn resized_size(p: PicV, w: u32, h: u32) -> (u32, u32);

/// Whether the colour type of the picture `p` has an alpha channel
/// (`ColorType::has_alpha` of `DynamicImage::color`).
pub uninterp spec fn alpha_of(p: PicV) -> bool;

/// The bytes `JpegEncoder` writes for the picture `p`, made RGB, at
/// `quality`.
pub uninterp spec fn jpeg_of(p: PicV, quality: u8) -> Seq<u8>;

/// The bytes `PngEncoder` writes for the picture `p`, made RGBA, with fast
/// compression and adaptive filtering.
pub uninterp spec fn png_of(p: PicV) -> Seq<u8>;

/// The size of the picture `p` in pixels.
pub open spec fn pic_size(p: PicV) -> (u32, u32) {
    match p {
        PicV::Decoded(b) => match decoded_size(b) {
            Some(s) => s,
            None => (0, 0),
        },
        PicV::Resized(q, w, h) => resized_size(*q, w, h),
    }
}

/// A decoded picture with its width and height in pixels, and how it came
/// to be. Only the functions of this module that decode or scale a picture
/// make one, and they read the size from the picture itself.
struct Picture {
    img: image::DynamicImage,
    width: u32,
    height: u32,
    model: Ghost<PicV>,
}

impl View for Picture {
    type V = PicV;

    closed spec fn view(&self) -> PicV {
        self.model@
    }
}

impl Picture {
    spec fn size(self) -> (u32, u32) {
        (self.width, self.height)
    }
}

/// `image::load_from_memory`, with `DynamicImage::width` and `height` of
/// what it decodes; none where the bytes are refused.
#[verifier::external_body]
fn image_load(bytes: &[u8]) -> (r: Option<Picture>)
    ensures
        match r {
            Some(p) => decoded_size(bytes@) == Some((p.width, p.height)) && p@ == PicV::Decoded(bytes@),
            None => decoded_size(bytes@) is None,
        },
{
    match image::load_from_memory(bytes) {
        Ok(img) => {
            let (width, height) = (img.width(), img.height());
            Some(Picture { img, width, height, model: Ghost(PicV::Decoded(bytes@)) })
        },
        Err(_) => None,
    }
}

/// `DynamicImage::resize` with the triangle filter: scaled to the largest
/// size that fits within `w` by `h`, keeping its proportions, and at least
/// one pixel each way (`resize_dimensions` rounds the scaled sides and
/// takes at least 1); so the longer side stays the longer.
#[verifier::external_body]
fn image_resize(p: Picture, w: u32, h: u32) -> (r: Picture)
    ensures
        r@ == PicV::Resized(Box::new(p@), w, h),
        (r.width, r.height) == resized_size(p@, w, h),
        w >= 1 && h >= 1 && p.width >= 1 && p.height >= 1 ==> {
            &&& 1 <= r.width <= w
            &&& 1 <= r.height <= h
            &&& (p.width >= p.height ==> r.width >= r.height)
            &&& (p.height >= p.width ==> r.height >= r.width)
        },
{
    let img = p.img.resize(w, h, image::imageops::FilterType::Triangle);
    let (width, height) = (img.width(), img.height());
    Picture { img, width, height, model: Ghost(PicV::Resized(Box::new(p.model@), w, h)) }
}

/// Whether the picture's colour type has an alpha channel
/// (`ColorType::has_alpha`).
#[verifier::external_body]
fn image_has_alpha(p: &Picture) -> (r: bool)
    ensures
        r == alpha_of(p@),
{
    p.img.color().has_alpha()
}

/// The picture as RGB, encoded by `JpegEncoder` at `quality` into memory;
/// the error's text where encoding fails. The encoder refuses only a side
/// of no pixels or of more than 65535 (`encode_image`), and writing into a
/// `Vec` does not fail.
#[verifier::external_body]
fn image_encode_jpeg(p: &Picture, quality: u8) -> (r: Result<Vec<u8>, String>)
    ensures
        1 <= p.width <= 65535 && 1 <= p.height <= 65535 ==> r is Ok,
        r matches Ok(b) ==> b@ == jpeg_of(p@, quality),
{
    let rgb = p.img.to_rgb8();
    let mut buf = std::io::Cursor::new(Vec::new());
    image::codecs::jpeg::JpegEncoder::new_with_quality(&mut buf, quality).encode(
        rgb.as_raw(),
        rgb.width(),
        rgb.height(),
        image::ExtendedColorType::Rgb8,
    ).map_err(|e| e.to_string())?;
    Ok(buf.into_inner())
}

/// The picture as RGBA, encoded by `PngEncoder` with fast compression and
/// adaptive filtering; the error's text where encoding fails. The `png`
/// encoder refuses a side of no pixels (`Writer::init`); RGBA at 8 bits is a
/// valid combination, the image data is split into chunks it accepts, and
/// writing into a `Vec` does not fail.
#[verifier::external_body]
fn image_encode_png(p: &Picture) -> (r: Result<Vec<u8>, String>)
    ensures
        p.width >= 1 && p.height >= 1 ==> r is Ok,
        r matches Ok(b) ==> b@ == png_of(p@),
{
    let rgba = p.img.to_rgba8();
    let mut buf = Vec::new();
    image::codecs::png::PngEncoder::new_with_quality(
        &mut buf,
        image::codecs::png::CompressionType::Fast,
        image::codecs::png::FilterType::Adaptive,
    ).write_image(rgba.as_raw(), rgba.width(), rgba.height(), image::ExtendedColorType::Rgba8).map_err(
        |e| e.to_string(),
    )?;
    Ok(buf)
}

// ---------------------------------------------------------------------------
// Scaling and formats
// ---------------------------------------------------------------------------

/// How a picture of `w` by `h` is brought within `max` on both sides: kept
/// where it fits; else scaled by its longer side (the width on a tie).
#[derive(Debug, Clone, Copy, PartialEq, Eq, Structural)]
pub enum Fit {
    Keep,
    ByWidth,
    ByHeight,
}

pub open spec fn fit_of(w: u32, h: u32, max: u32) -> Fit {
    if w <= max && h <= max {
        Fit::Keep
    } else if w >= h {
        Fit::ByWidth
    } else {
        Fit::ByHeight
    }
}

pub fn fit_within(w: u32, h: u32, max: u32) -> (r: Fit)
    ensures
        r == fit_of(w, h, max),
{
    if w <= max && h <= max {
        Fit::Keep
    } else if w >= h {
        Fit::ByWidth
    } else {
        Fit::ByHeight
    }
}

/// The picture `p` brought within `max` on both sides, as `fit_of` says.
pub open spec fn fitted(p: PicV, max: u32) -> PicV {
    match fit_of(pic_size(p).0, pic_size(p).1, max) {
        Fit::Keep => p,
        Fit::ByWidth => PicV::Resized(Box::new(p), max, u32::MAX),
        Fit::ByHeight => PicV::Resized(Box::new(p), u32::MAX, max),
    }
}

/// Brings a picture within `max_edge` on both sides, as `fit_of` says.
fn resize_to_max_edge(p: Picture, max_edge: u32) -> (r: Picture)
    requires
        p.size() == pic_size(p@),
    ensures
        max_edge >= 1 && p.width >= 1 && p.height >= 1 ==> 1 <= r.width <= max_edge && 1 <= r.height <= max_edge,
        fit_of(p.width, p.height, max_edge) == Fit::Keep ==> r.size() == p.size(),
        r@ == fitted(p@, max_edge),
        r.size() == pic_size(r@),
{
    match fit_within(p.width, p.height, max_edge) {
        Fit::Keep => p,
        Fit::ByWidth => image_resize(p, max_edge, u32::MAX),
        Fit::ByHeight => image_resize(p, u32::MAX, max_edge),
    }
}

/// A photo keeps its bytes where it is a JPEG of at most 450 KiB that fits
/// within 1920 pixels.
pub open spec fn keeps_original(ext: Seq<char>, len: nat, w: u32, h: u32) -> bool {
    ext == "jpg"@ && len <= SKIP_REENCODE_JPEG_BYTES && w <= MAIN_MAX_EDGE && h <= MAIN_MAX_EDGE
}

/// A processed picture is saved as PNG where it has transparency, else as
/// JPEG.
pub open spec fn main_format(has_alpha: bool) -> (Seq<char>, Seq<char>) {
    if has_alpha {
        ("png"@, "image/png"@)
    } else {
        ("jpg"@, "image/jpeg"@)
    }
}

/// A picture processed for the media library: the main file, its type, and
/// a JPEG thumbnail.
pub struct ProcessedImage {
    pub main: Vec<u8>,
    pub ext: &'static str,
    pub mime: &'static str,
    pub thumb: Vec<u8>,
    pub thumb_ext: &'static str,
}

fn encode_failed(e: String) -> (r: String)
    ensures
        r@ == "图片编码失败: "@ + e@,
{
    let mut m = string_of("图片编码失败: ");
    push_str(&mut m, e.as_str());
    m
}

/// What a processed picture is saved as: PNG where it has an alpha
/// channel, else JPEG at quality 80; the bytes, the extension and the type.
pub open spec fn main_out(p: PicV) -> (Seq<u8>, Seq<char>, Seq<char>) {
    if alpha_of(p) {
        (png_of(p), "png"@, "image/png"@)
    } else {
        (jpeg_of(p, JPEG_QUALITY), "jpg"@, "image/jpeg"@)
    }
}

fn encode_main(p: &Picture) -> (r: Result<(Vec<u8>, &'static str, &'static str), String>)
    ensures
        match r {
            Ok((b, ext, mime)) => (b@, ext@, mime@) == main_out(p@),
            Err(m) => crate::text::starts(m@, "图片编码失败: "@),
        },
        1 <= p.width <= 65535 && 1 <= p.height <= 65535 ==> r is Ok,
{
    proof {
        reveal_strlit("png");
        reveal_strlit("image/png");
        reveal_strlit("jpg");
        reveal_strlit("image/jpeg");
    }
    if image_has_alpha(p) {
        match image_encode_png(p) {
            Ok(out) => Ok((out, "png", "image/png")),
            Err(e) => {
                let m = encode_failed(e);
                assert(m@.subrange(0, "图片编码失败: "@.len() as int) =~= "图片编码失败: "@);
                Err(m)
            },
        }
    } else {
        match image_encode_jpeg(p, JPEG_QUALITY) {
            Ok(out) => Ok((out, "jpg", "image/jpeg")),
            Err(e) => {
                let m = encode_failed(e);
                assert(m@.subrange(0, "图片编码失败: "@.len() as int) =~= "图片编码失败: "@);
                Err(m)
            },
        }
    }
}

/// Whether the decoded picture has at least one pixel each way.
pub open spec fn decodes(bytes: Seq<u8>) -> bool {
    decoded_size(bytes) matches Some((w, h)) && w >= 1 && h >= 1
}

/// The files a picture for the media library is stored as: the main
/// file's bytes, extension and type, and the thumbnail's bytes. A JPEG
/// that `keeps_original` is kept as sent; any other picture is brought
/// within 1920 pixels and saved as `main_out` says; the thumbnail is the
/// main picture brought within 400 pixels, as a JPEG at quality 80.
pub open spec fn pair_files(bytes: Seq<u8>) -> (Seq<u8>, Seq<char>, Seq<char>, Seq<u8>) {
    let d = PicV::Decoded(bytes);
    if keeps_original(detect_image_ext_spec(bytes)->0, bytes.len(), pic_size(d).0, pic_size(d).1) {
        (bytes, "jpg"@, "image/jpeg"@, jpeg_of(fitted(d, THUMB_MAX_EDGE), JPEG_QUALITY))
    } else {
        let m = fitted(d, MAIN_MAX_EDGE);
        (main_out(m).0, main_out(m).1, main_out(m).2, jpeg_of(fitted(m, THUMB_MAX_EDGE), JPEG_QUALITY))
    }
}

/// Processes an uploaded PNG, JPEG or WebP for the media library: a JPEG
/// that `keeps_original` is kept as sent; anything else is scaled within
/// 1920 pixels and saved as `main_format` says; the thumbnail is a JPEG
/// within 400 pixels. Refused where the type is not recognised, is a GIF or
/// an icon, or the bytes do not decode; done wherever `decodes` holds.
pub fn process_image_pair(bytes: &[u8]) -> (r: Result<ProcessedImage, String>)
    ensures
        match detect_image_ext_spec(bytes@) {
            None => r matches Err(m) && m@ == "无法识别图片"@,
            Some(e) => if e == "gif"@ || e == "ico"@ {
                r matches Err(m) && m@ == "请使用位图处理路径"@
            } else {
                &&& decodes(bytes@) ==> r is Ok
                &&& match r {
                    Ok(p) => {
                        &&& decoded_size(bytes@) is Some
                        &&& (p.main@, p.ext@, p.mime@, p.thumb@) == pair_files(bytes@)
                        &&& p.thumb_ext@ == "jpg"@
                        &&& ((p.ext@ == "jpg"@ && p.mime@ == "image/jpeg"@) || (p.ext@ == "png"@
                            && p.mime@ == "image/png"@))
                        &&& (decoded_size(bytes@) matches Some((w, h)) && keeps_original(
                            e,
                            bytes@.len(),
                            w,
                            h,
                        ) ==> p.main@ == bytes@ && p.ext@ == "jpg"@)
                    },
                    Err(m) => (decoded_size(bytes@) is None && m@ == "图片内容无效"@) || (
                    decoded_size(bytes@) is Some && crate::text::starts(m@, "图片编码失败: "@)),
                }
            },
        },
{
    let src_ext = match detect_image_ext(bytes) {
        None => {
            return Err(string_of("无法识别图片"));
        },
        Some(e) => e,
    };
    if str_eq(src_ext, "gif") || str_eq(src_ext, "ico") {
        return Err(string_of("请使用位图处理路径"));
    }
    let pic = match image_load(bytes) {
        None => {
            return Err(string_of("图片内容无效"));
        },
        Some(p) => p,
    };
    let w = pic.width;
    let h = pic.height;
    let skip_main = str_eq(src_ext, "jpg") && bytes.len() <= SKIP_REENCODE_JPEG_BYTES && w
        <= MAIN_MAX_EDGE && h <= MAIN_MAX_EDGE;
    if skip_main {
        let thumb_pic = resize_to_max_edge(pic, THUMB_MAX_EDGE);
        let thumb = match image_encode_jpeg(&thumb_pic, JPEG_QUALITY) {
            Ok(t) => t,
            Err(e) => {
                let m = encode_failed(e);
                assert(m@.subrange(0, "图片编码失败: "@.len() as int) =~= "图片编码失败: "@);
                return Err(m);
            },
        };
        let main = copy_bytes(bytes);
        return Ok(ProcessedImage { main, ext: "jpg", mime: "image/jpeg", thumb, thumb_ext: "jpg" });
    }
    let main_pic = resize_to_max_edge(pic, MAIN_MAX_EDGE);
    let (main, ext, mime) = match encode_main(&main_pic) {
        Ok(x) => x,
        Err(m) => {
            return Err(m);
        },
    };
    let thumb_pic = resize_to_max_edge(main_pic, THUMB_MAX_EDGE);
    let thumb = match image_encode_jpeg(&thumb_pic, JPEG_QUALITY) {
        Ok(t) => t,
        Err(e) => {
            let m = encode_failed(e);
            assert(m@.subrange(0, "图片编码失败: "@.len() as int) =~= "图片编码失败: "@);
            return Err(m);
        },
    };
    Ok(ProcessedImage { main, ext, mime, thumb, thumb_ext: "jpg" })
}

// ---------------------------------------------------------------------------
// Storing uploads
// ---------------------------------------------------------------------------

/// How an upload to the media library is stored.
#[derive(Debug, Clone, Copy, PartialEq, Eq)]
pub enum MediaKind {
    /// A PNG, JPEG or WebP picture, processed with a thumbnail.
    Bitmap,
    /// A GIF, kept as sent.
    Gif,
    /// Another accepted file, kept as sent with its extension and type.
    Plain(&'static str, &'static str),
}

/// The extension of a displayed name, in ASCII lower case; empty where it
/// has none.
pub open spec fn name_ext(name: Seq<char>) -> Seq<char> {
    match stem_ext(name).1 {
        Some(e) => lower_seq(e),
        None => Seq::empty(),
    }
}

pub open spec fn is_bitmap_ext(e: Seq<char>) -> bool {
    e == "png"@ || e == "jpg"@ || e == "webp"@
}

/// What the media library does with an upload of `bytes` shown as `name`:
/// refused where empty, over 5 MiB, an icon, or neither a picture nor an
/// accepted extension; else how it is stored.
pub open spec fn media_kind_of(bytes: Seq<u8>, name: Seq<char>) -> Result<
    (bool, bool, Option<(Seq<char>, Seq<char>)>),
    Seq<char>,
> {
    let detected = detect_image_ext_spec(bytes);
    if bytes.len() == 0 {
        Err("上传文件为空"@)
    } else if bytes.len() > MAX_MEDIA {
        Err("文件过大（最大 5MB）"@)
    } else {
        match detected {
            Some(d) => if is_bitmap_ext(d) {
                Ok((true, false, None))
            } else if d == "gif"@ {
                Ok((false, true, None))
            } else {
                Err("不支持的图片类型"@)
            },
            None => match ext_mime_spec(name_ext(name)) {
                Some(em) => Ok((false, false, Some(em))),
                None => Err("仅支持 PNG / JPEG / WebP / GIF / PDF / ZIP / TXT / MD / CSV / JSON"@),
            },
        }
    }
}

pub open spec fn kind_model(k: MediaKind) -> (bool, bool, Option<(Seq<char>, Seq<char>)>) {
    match k {
        MediaKind::Bitmap => (true, false, None),
        MediaKind::Gif => (false, true, None),
        MediaKind::Plain(e, m) => (false, false, Some((e@, m@))),
    }
}

/// Decides how an upload to the media library is stored (see
/// `media_kind_of`), for the name it is shown by.
pub fn media_kind(bytes: &[u8], display_name: &str) -> (r: Result<MediaKind, &'static str>)
    ensures
        match r {
            Ok(k) => media_kind_of(bytes@, display_name@) == Ok::<_, Seq<char>>(kind_model(k)),
            Err(m) => media_kind_of(bytes@, display_name@) == Err::<(bool, bool, Option<(Seq<char>, Seq<char>)>), _>(m@),
        },
{
    if bytes.len() == 0 {
        return Err("上传文件为空");
    }
    if bytes.len() > MAX_MEDIA {
        return Err("文件过大（最大 5MB）");
    }
    match detect_image_ext(bytes) {
        Some(d) => {
            if str_eq(d, "png") || str_eq(d, "jpg") || str_eq(d, "webp") {
                Ok(MediaKind::Bitmap)
            } else if str_eq(d, "gif") {
                Ok(MediaKind::Gif)
            } else {
                Err("不支持的图片类型")
            }
        },
        None => {
            let v = chars_of(display_name);
            let ext = match crate::upload::find_last_dot(&v) {
                Some(k) => if k == 0 {
                    string_of("")
                } else {
                    string_from_chars(&lower_vec(&crate::text::subvec(&v, k + 1, v.len())))
                },
                None => string_of(""),
            };
            proof {
                reveal_strlit("");
            }
            assert(ext@ == name_ext(display_name@));
            match ext_mime(ext.as_str()) {
                Some((e, m)) => Ok(MediaKind::Plain(e, m)),
                None => Err("仅支持 PNG / JPEG / WebP / GIF / PDF / ZIP / TXT / MD / CSV / JSON"),
            }
        },
    }
}

/// A file to write into an upload directory, and whether the upload fails
/// where it cannot be written (a thumbnail may be missing).
pub struct FileToWrite {
    pub name: String,
    pub bytes: Vec<u8>,
    pub required: bool,
}

/// An upload to the media library, ready to write.
pub struct MediaUpload {
    pub saved: crate::upload::SavedMedia,
    pub files: Vec<FileToWrite>,
}

fn copy_bytes(b: &[u8]) -> (r: Vec<u8>)
    ensures
        r@ == b@,
{
    let mut r: Vec<u8> = Vec::new();
    let mut i: usize = 0;
    while i < b.len()
        invariant
            0 <= i <= b@.len(),
            r@ == b@.take(i as int),
        decreases b.len() - i,
    {
        r.push(b[i]);
        i = i + 1;
        assert(r@ =~= b@.take(i as int));
    }
    assert(b@.take(b@.len() as int) =~= b@);
    r
}

/// Prepares an upload to the media library: it is listed under its
/// original file name, stored under a new UUID with the extension of what
/// is stored (a picture with a `_thumb` JPEG beside it), and its size is
/// that of the stored file.
pub fn save_media(bytes: &[u8], original_name: &str) -> (r: Result<MediaUpload, String>)
    ensures
        ({
            let name = original_name_from(path_file_name(original_name@));
            let kind = media_kind_of(bytes@, name);
            &&& (kind matches Ok((false, _, _)) ==> r is Ok)
            &&& (kind matches Ok((true, _, _)) && decodes(bytes@) ==> r is Ok)
            &&& match r {
                Ok(u) => {
                    &&& u.saved.name@ == name
                    &&& kind is Ok
                    &&& u.files.len() >= 1
                    &&& u.files@[0].required
                    &&& u.saved.url@ == MEDIA_URL_PREFIX@ + u.files@[0].name@
                    &&& (u.files@[0].bytes@.len() <= i64::MAX ==> u.saved.size as int
                        == u.files@[0].bytes@.len())
                    &&& (kind matches Ok((false, _, _)) ==> u.files@[0].bytes@ == bytes@)
                    &&& (kind matches Ok((false, false, Some((e, m)))) ==> u.saved.mime@ == m
                        && u.files.len() == 1 && stored_name(u.files@[0].name@, e))
                    &&& (kind matches Ok((false, true, _)) ==> u.saved.mime@ == "image/gif"@
                        && u.files.len() == 1 && stored_name(u.files@[0].name@, "gif"@))
                    &&& (kind matches Ok((true, _, _)) ==> {
                        &&& u.files.len() == 2
                        &&& !u.files@[1].required
                        &&& stored_name(u.files@[0].name@, pair_files(bytes@).1)
                        &&& u.files@[0].bytes@ == pair_files(bytes@).0
                        &&& u.saved.mime@ == pair_files(bytes@).2
                        &&& u.files@[1].name@ == u.files@[0].name@.take(36) + "_thumb.jpg"@
                        &&& u.files@[1].bytes@ == pair_files(bytes@).3
                    })
                },
                Err(m) => match kind {
                    Err(e) => m@ == e,
                    Ok(_) => (decoded_size(bytes@) is None && m@ == "图片内容无效"@) || (
                    decoded_size(bytes@) is Some && crate::text::starts(m@, "图片编码失败: "@)),
                },
            }
        }),
{
    let display_name = sanitize_original_name(original_name);
    let kind = match media_kind(bytes, display_name.as_str()) {
        Ok(k) => k,
        Err(m) => {
            return Err(string_of(m));
        },
    };
    let id = new_uuid_text();
    match kind {
        MediaKind::Bitmap => {
            proof {
                reveal_strlit("gif");
                reveal_strlit("ico");
                reveal_strlit("png");
                reveal_strlit("jpg");
                reveal_strlit("webp");
                let d = detect_image_ext_spec(bytes@);
                assert(d is Some);
                assert(is_bitmap_ext(d->0));
                assert("png"@[0] == 'p' && "jpg"@[0] == 'j' && "webp"@[0] == 'w');
                assert("gif"@[0] == 'g' && "ico"@[0] == 'i');
                assert(d->0 != "gif"@ && d->0 != "ico"@);
            }
            let processed = match process_image_pair(bytes) {
                Ok(p) => p,
                Err(m) => {
                    return Err(m);
                },
            };
            let stored = stored_file_name(id.as_str(), processed.ext);
            let mut thumb_name = string_of(id.as_str());
            push_str(&mut thumb_name, "_thumb.");
            push_str(&mut thumb_name, processed.thumb_ext);
            proof {
                reveal_strlit("_thumb.");
                reveal_strlit("_thumb.jpg");
                reveal_strlit("jpg");
                assert(id@.len() == 36);
                assert(stored@.take(36) =~= id@);
                assert(thumb_name@ =~= stored@.take(36) + "_thumb.jpg"@);
            }
            let mut url = string_of(MEDIA_URL_PREFIX);
            push_str(&mut url, stored.as_str());
            let size = processed.main.len() as i64;
            let mut files: Vec<FileToWrite> = Vec::new();
            files.push(FileToWrite { name: stored, bytes: processed.main, required: true });
            files.push(FileToWrite { name: thumb_name, bytes: processed.thumb, required: false });
            let saved = crate::upload::SavedMedia {
                name: display_name,
                url,
                mime: string_of(processed.mime),
                size,
            };
            Ok(MediaUpload { saved, files })
        },
        MediaKind::Gif => {
            let stored = stored_file_name(id.as_str(), "gif");
            let mut url = string_of(MEDIA_URL_PREFIX);
            push_str(&mut url, stored.as_str());
            let data = copy_bytes(bytes);
            let size = data.len() as i64;
            let mut files: Vec<FileToWrite> = Vec::new();
            files.push(FileToWrite { name: stored, bytes: data, required: true });
            let saved = crate::upload::SavedMedia {
                name: display_name,
                url,
                mime: string_of("image/gif"),
                size,
            };
            Ok(MediaUpload { saved, files })
        },
        MediaKind::Plain(ext, mime) => {
            let stored = stored_file_name(id.as_str(), ext);
            let mut url = string_of(MEDIA_URL_PREFIX);
            push_str(&mut url, stored.as_str());
            let data = copy_bytes(bytes);
            let size = data.len() as i64;
            let mut files: Vec<FileToWrite> = Vec::new();
            files.push(FileToWrite { name: stored, bytes: data, required: true });
            let saved = crate::upload::SavedMedia {
                name: display_name,
                url,
                mime: string_of(mime),
                size,
            };
            Ok(MediaUpload { saved, files })
        },
    }
}


// ---------------------------------------------------------------------------
// Post images and site images
// ---------------------------------------------------------------------------

/// A name an upload is stored under: a fresh UUID, a dot, and `ext`.
pub open spec fn stored_name(name: Seq<char>, ext: Seq<char>) -> bool {
    &&& name.len() == 37 + ext.len()
    &&& uuid_shape(name.take(36))
    &&& name.skip(36) == seq!['.'] + ext
}

fn stored_file_name(id: &str, ext: &str) -> (r: String)
    requires
        uuid_shape(id@),
    ensures
        stored_name(r@, ext@),
        r@ == id@ + seq!['.'] + ext@,
{
    let mut r = string_of(id);
    push_str(&mut r, ".");
    push_str(&mut r, ext);
    proof {
        reveal_strlit(".");
        assert(r@ == id@ + "."@ + ext@);
        assert(r@.take(36) =~= id@);
        assert(r@.skip(36) =~= seq!['.'] + ext@);
    }
    r
}

/// The type of a kept GIF or icon: the one its extension lists, else
/// `application/octet-stream`.
pub open spec fn kept_mime(ext: Seq<char>) -> Seq<char> {
    match ext_mime_spec(ext) {
        Some(em) => em.1,
        None => "application/octet-stream"@,
    }
}

/// Prepares a picture for a post or the site: a GIF or an icon is kept as
/// sent; a PNG, JPEG or WebP is scaled within `max_edge` and saved as
/// `main_format` says. Refused where the type is not recognised or the
/// bytes do not decode; done wherever `decodes` holds.
pub fn process_bitmap(bytes: &[u8], max_edge: u32) -> (r: Result<
    (Vec<u8>, &'static str, &'static str),
    String,
>)
    ensures
        match detect_image_ext_spec(bytes@) {
            None => r matches Err(m) && m@ == "无法识别图片"@,
            Some(e) => if e == "gif"@ || e == "ico"@ {
                r matches Ok((out, ext, mime)) && out@ == bytes@ && ext@ == e && mime@
                    == kept_mime(e)
            } else {
                &&& (decodes(bytes@) && 1 <= max_edge <= 65535 ==> r is Ok)
                &&& match r {
                    Ok((out, ext, mime)) => decoded_size(bytes@) is Some && (out@, ext@, mime@)
                        == main_out(fitted(PicV::Decoded(bytes@), max_edge)),
                    Err(m) => (decoded_size(bytes@) is None && m@ == "图片内容无效"@) || (
                    decoded_size(bytes@) is Some && crate::text::starts(m@, "图片编码失败: "@)),
                }
            },
        },
{
    let ext = match detect_image_ext(bytes) {
        None => {
            return Err(string_of("无法识别图片"));
        },
        Some(e) => e,
    };
    if str_eq(ext, "gif") || str_eq(ext, "ico") {
        let mime = match ext_mime(ext) {
            Some((_, m)) => m,
            None => "application/octet-stream",
        };
        return Ok((copy_bytes(bytes), ext, mime));
    }
    let img = match image_load(bytes) {
        None => {
            return Err(string_of("图片内容无效"));
        },
        Some(i) => i,
    };
    let img = resize_to_max_edge(img, max_edge);
    encode_main(&img)
}

/// A picture ready to write, and the URL it is served at.
pub struct StoredUpload {
    pub file: FileToWrite,
    pub url: String,
}

/// Why a picture for a post or the site is refused before it is read: it
/// is empty, larger than `max`, not a recognised picture, or an icon where
/// icons are not taken.
pub open spec fn picture_refusal(bytes: Seq<u8>, max: nat, allow_ico: bool) -> Option<Seq<char>> {
    if bytes.len() == 0 {
        Some("上传文件为空"@)
    } else if bytes.len() > max {
        Some("文件过大"@)
    } else {
        match detect_image_ext_spec(bytes) {
            None => Some("仅支持 PNG / JPEG / WebP / GIF（Favicon 另支持 ICO）"@),
            Some(e) => if e == "ico"@ && !allow_ico {
                Some("该位置不支持 ICO，请使用 PNG / JPEG / WebP"@)
            } else {
                None
            },
        }
    }
}

/// Prepares a picture for a post or the site, served under `url_prefix`:
/// refused as `picture_refusal` says; a PNG, JPEG or WebP is processed
/// where `compress` is set; anything else taken is kept as sent. It is
/// stored under a new UUID with the extension of what is stored.
pub fn save_bytes(bytes: &[u8], url_prefix: &str, max: usize, allow_ico: bool, compress: bool) -> (r:
    Result<StoredUpload, String>)
    ensures
        picture_refusal(bytes@, max as nat, allow_ico) matches Some(m) ==> r matches Err(e) && e@
            == m,
        picture_refusal(bytes@, max as nat, allow_ico) is None ==> {
            let e = detect_image_ext_spec(bytes@)->0;
            if compress && e != "gif"@ && e != "ico"@ {
                &&& (decodes(bytes@) ==> r is Ok)
                &&& match r {
                    Ok(u) => {
                        &&& u.file.required
                        &&& u.url@ == url_prefix@ + u.file.name@
                        &&& u.file.bytes@ == main_out(fitted(PicV::Decoded(bytes@), MAIN_MAX_EDGE)).0
                        &&& stored_name(
                            u.file.name@,
                            main_out(fitted(PicV::Decoded(bytes@), MAIN_MAX_EDGE)).1,
                        )
                    },
                    Err(m) => (decoded_size(bytes@) is None && m@ == "图片内容无效"@) || (
                    decoded_size(bytes@) is Some && crate::text::starts(m@, "图片编码失败: "@)),
                }
            } else {
                r matches Ok(u) && u.file.required && u.file.bytes@ == bytes@ && u.url@
                    == url_prefix@ + u.file.name@ && stored_name(u.file.name@, e)
            }
        },
{
    if bytes.len() == 0 {
        return Err(string_of("上传文件为空"));
    }
    if bytes.len() > max {
        return Err(string_of("文件过大"));
    }
    let ext = match detect_image_ext(bytes) {
        None => {
            return Err(string_of("仅支持 PNG / JPEG / WebP / GIF（Favicon 另支持 ICO）"));
        },
        Some(e) => e,
    };
    if str_eq(ext, "ico") && !allow_ico {
        return Err(string_of("该位置不支持 ICO，请使用 PNG / JPEG / WebP"));
    }
    let (data, out_ext) = if compress && !str_eq(ext, "gif") && !str_eq(ext, "ico") {
        match process_bitmap(bytes, MAIN_MAX_EDGE) {
            Ok((out, e, _)) => (out, e),
            Err(m) => {
                proof {
                    reveal_strlit("gif");
                    reveal_strlit("ico");
                    reveal_strlit("png");
                    reveal_strlit("jpg");
                    reveal_strlit("webp");
                    assert("png"@[0] == 'p' && "jpg"@[0] == 'j' && "webp"@[0] == 'w');
                    assert("gif"@[0] == 'g' && "ico"@[0] == 'i');
                }
                return Err(m);
            },
        }
    } else {
        (copy_bytes(bytes), ext)
    };
    let id = new_uuid_text();
    let name = stored_file_name(id.as_str(), out_ext);
    let mut url = string_of(url_prefix);
    push_str(&mut url, name.as_str());
    Ok(StoredUpload { file: FileToWrite { name, bytes: data, required: true }, url })
}

/// A picture in a post: at most 2 MiB, no icons, processed; served under
/// `/uploads/posts/`.
pub fn save_post_image(bytes: &[u8]) -> (r: Result<StoredUpload, String>)
    ensures
        picture_refusal(bytes@, MAX_POST_IMAGE as nat, false) matches Some(m) ==> r matches Err(e)
            && e@ == m,
        picture_refusal(bytes@, MAX_POST_IMAGE as nat, false) is None && (detect_image_ext_spec(
            bytes@,
        ) == Some("gif"@) || decodes(bytes@)) ==> r is Ok,
        picture_refusal(bytes@, MAX_POST_IMAGE as nat, false) is None ==> match r {
            Ok(u) => {
                &&& u.file.required
                &&& u.url@ == POSTS_URL_PREFIX@ + u.file.name@
                &&& (detect_image_ext_spec(bytes@) == Some("gif"@) ==> u.file.bytes@ == bytes@
                    && stored_name(u.file.name@, "gif"@))
                &&& (detect_image_ext_spec(bytes@) != Some("gif"@) ==> {
                    let m = main_out(fitted(PicV::Decoded(bytes@), MAIN_MAX_EDGE));
                    u.file.bytes@ == m.0 && stored_name(u.file.name@, m.1)
                })
            },
            Err(m) => (decoded_size(bytes@) is None && m@ == "图片内容无效"@) || (decoded_size(
                bytes@,
            ) is Some && crate::text::starts(m@, "图片编码失败: "@)),
        },
{
    let r = save_bytes(bytes, POSTS_URL_PREFIX, MAX_POST_IMAGE, false, true);
    proof {
        reveal_strlit("ico");
        reveal_strlit("gif");
        assert("gif"@[0] == 'g' && "ico"@[0] == 'i');
    }
    r
}

// ---------------------------------------------------------------------------
// Upload forms
// ---------------------------------------------------------------------------

/// The file of an upload form as read so far, and the name it was sent
/// under.
pub struct UploadFields {
    pub file: Option<Vec<u8>>,
    pub original_name: String,
}

impl UploadFields {
    /// A form with no file yet, named `default_name` until one is read.
    pub fn new(default_name: &str) -> (r: Self)
        ensures
            r.file is None,
            r.original_name@ == default_name@,
    {
        UploadFields { file: None, original_name: string_of(default_name) }
    }

    /// Reads a file field: a file name that is not blank becomes the
    /// original name, and bytes that are not empty become the file.
    pub fn accept_file(&mut self, file_name: Option<&str>, bytes: Vec<u8>)
        ensures
            final(self).original_name@ == (match file_name {
                Some(n) => if crate::text::trim(n@).len() > 0 {
                    n@
                } else {
                    old(self).original_name@
                },
                None => old(self).original_name@,
            }),
            final(self).file == (if bytes@.len() > 0 {
                Some(bytes)
            } else {
                old(self).file
            }),
    {
        match file_name {
            Some(n) => {
                if crate::text::trimmed(n).len() > 0 {
                    self.original_name = string_of(n);
                }
            },
            None => {},
        }
        if bytes.len() > 0 {
            self.file = Some(bytes);
        }
    }
}

/// Whether a field of the editor's image upload carries the file: `file`
/// or `image`.
pub fn is_image_field(name: &str) -> (r: bool)
    ensures
        r == (name@ == "file"@ || name@ == "image"@),
{
    str_eq(name, "file") || str_eq(name, "image")
}

/// The answers of the upload forms.
pub const UPLOAD_NO_IMAGE: &'static str = "请选择图片文件";

pub const UPLOAD_NO_FILE: &'static str = "请选择要上传的文件";

pub const UPLOAD_REFUSED: &'static str = "上传失败，请检查文件类型或大小";

pub const UPLOAD_NOT_SAVED: &'static str = "保存失败，请稍后重试";

/// An image uploaded from the post editor, ready to write: the files, the
/// media record to add (none where it went to the post images), and what
/// the editor is answered.
pub struct ImageUpload {
    pub files: Vec<FileToWrite>,
    pub media: Option<crate::upload::SavedMedia>,
    pub url: String,
    pub mime: String,
    pub name: String,
}

/// Prepares an image uploaded from the post editor: it goes to the media
/// library where that takes it, else to the post images, answered as a
/// JPEG under the name it was sent; refused where neither takes it.
pub fn plan_image_upload(bytes: &[u8], original_name: &str) -> (r: Result<ImageUpload, &'static str>)
    ensures
        match r {
            Ok(u) => match u.media {
                Some(m) => {
                    &&& media_kind_of(bytes@, original_name_from(path_file_name(original_name@))) is Ok
                    &&& m.name@ == original_name_from(path_file_name(original_name@))
                    &&& m.url@ == MEDIA_URL_PREFIX@ + u.files@[0].name@
                    &&& u.url@ == m.url@
                    &&& u.mime@ == m.mime@
                    &&& u.name@ == m.name@
                },
                None => {
                    &&& picture_refusal(bytes@, MAX_POST_IMAGE as nat, false) is None
                    &&& u.files.len() == 1
                    &&& u.files@[0].required
                    &&& u.url@ == POSTS_URL_PREFIX@ + u.files@[0].name@
                    &&& u.mime@ == "image/jpeg"@
                    &&& u.name@ == original_name@
                },
            },
            Err(m) => m@ == UPLOAD_REFUSED@,
        },
        media_kind_of(bytes@, original_name_from(path_file_name(original_name@))) is Err
            && picture_refusal(bytes@, MAX_POST_IMAGE as nat, false) is Some ==> r is Err,
        media_kind_of(bytes@, original_name_from(path_file_name(original_name@))) matches Ok(
            (false, _, _),
        ) ==> r is Ok,
        media_kind_of(bytes@, original_name_from(path_file_name(original_name@))) matches Ok(
            (true, _, _),
        ) && decodes(bytes@) ==> r is Ok,
        picture_refusal(bytes@, MAX_POST_IMAGE as nat, false) is None && (detect_image_ext_spec(
            bytes@,
        ) == Some("gif"@) || decodes(bytes@)) ==> r is Ok,
{
    match save_media(bytes, original_name) {
        Ok(u) => {
            let url = string_of(u.saved.url.as_str());
            let mime = string_of(u.saved.mime.as_str());
            let name = string_of(u.saved.name.as_str());
            Ok(ImageUpload { files: u.files, media: Some(u.saved), url, mime, name })
        },
        Err(_) => match save_post_image(bytes) {
            Ok(s) => {
                let url = string_of(s.url.as_str());
                let mut files: Vec<FileToWrite> = Vec::new();
                files.push(s.file);
                Ok(ImageUpload {
                    files,
                    media: None,
                    url,
                    mime: string_of("image/jpeg"),
                    name: string_of(original_name),
                })
            },
            Err(_) => Err(UPLOAD_REFUSED),
        },
    }
}

/// Every name an upload is stored under passes the check made before a
/// file is written: a UUID, a dot and an extension of letters and digits
/// make a safe file name.
pub proof fn law_stored_names_safe(name: Seq<char>, ext: Seq<char>)
    requires
        stored_name(name, ext),
        ext.len() > 0,
        forall|k: int| 0 <= k < ext.len() ==> crate::text::is_ascii_alnum(#[trigger] ext[k]),
    ensures
        crate::upload::is_safe_filename_spec(name),
{
    let id = name.take(36);
    assert forall|k: int| 0 <= k < name.len() implies crate::upload::safe_name_char(#[trigger] name[k])
        && name[k] != '/' && (name[k] == '.' <==> k == 36) by {
        if k < 36 {
            assert(name[k] == id[k]);
            if !(k == 8 || k == 13 || k == 18 || k == 23) {
                assert(crate::markdown::is_lower_hex(id[k]));
            }
        } else if k == 36 {
            assert(name.skip(36)[0] == name[k]);
        } else {
            assert(name.skip(36)[k - 36] == name[k]);
            assert(ext[k - 37] == name[k]);
        }
    }
    assert(!name.contains('/')) by {
        if name.contains('/') {
            let k = choose|k: int| 0 <= k < name.len() && name[k] == '/';
            assert(name[k] != '/');
        }
    }
    reveal_strlit("..");
    assert(!crate::text::has_infix(name, ".."@)) by {
        if crate::text::has_infix(name, ".."@) {
            let i = choose|i: int| crate::text::infix_at(name, ".."@, i);
            assert(name.subrange(i, i + 2)[0] == name[i]);
            assert(name.subrange(i, i + 2)[1] == name[i + 1]);
            assert(name[i] == '.' && name[i + 1] == '.');
        }
    }
}

} // verus!
