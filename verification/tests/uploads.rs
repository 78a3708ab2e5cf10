use oakis::account::{hash_password, verify_password};
use oakis::archive::{write_archive, ArchiveItem};
use oakis::export::{MarkdownDoc, MarkdownExporter};
use oakis::images::{
    media_kind, plan_image_upload, process_bitmap, save_media, save_post_image, MediaKind,
    UploadFields, UPLOAD_REFUSED,
};
use oakis::upload::{detect_image_ext, ext_mime, media_thumb_url, upload_file_path, sanitize_original_name, upload_parts};

fn png_bytes(w: u32, h: u32, alpha: bool) -> Vec<u8> {
    let mut buf = std::io::Cursor::new(Vec::new());
    if alpha {
        let img = image::RgbaImage::from_pixel(w, h, image::Rgba([10, 20, 30, 128]));
        img.write_to(&mut buf, image::ImageFormat::Png).unwrap();
    } else {
        let img = image::RgbImage::from_pixel(w, h, image::Rgb([10, 20, 30]));
        img.write_to(&mut buf, image::ImageFormat::Png).unwrap();
    }
    buf.into_inner()
}

fn jpeg_bytes(w: u32, h: u32) -> Vec<u8> {
    let mut buf = std::io::Cursor::new(Vec::new());
    let img = image::RgbImage::from_pixel(w, h, image::Rgb([200, 100, 50]));
    img.write_to(&mut buf, image::ImageFormat::Jpeg).unwrap();
    buf.into_inner()
}

#[test]
fn image_types_are_told_by_their_first_bytes() {
    assert_eq!(detect_image_ext(&png_bytes(2, 2, false)), Some("png"));
    assert_eq!(detect_image_ext(&jpeg_bytes(2, 2)), Some("jpg"));
    assert_eq!(detect_image_ext(b"GIF89a......"), Some("gif"));
    assert_eq!(detect_image_ext(&[0, 0, 1, 0, 1]), Some("ico"));
    assert_eq!(detect_image_ext(b"RIFF\0\0\0\0WEBPxxxx"), Some("webp"));
    assert_eq!(detect_image_ext(b"hello"), None);
    assert_eq!(ext_mime("jpeg"), Some(("jpg", "image/jpeg")));
    assert_eq!(ext_mime("exe"), None);
}

#[test]
fn media_kinds() {
    assert_eq!(media_kind(b"", "a.txt"), Err("上传文件为空"));
    assert_eq!(media_kind(b"hello", "notes.TXT"), Ok(MediaKind::Plain("txt", "text/plain")));
    assert_eq!(media_kind(b"hello", "run.exe"), Err("仅支持 PNG / JPEG / WebP / GIF / PDF / ZIP / TXT / MD / CSV / JSON"));
    assert_eq!(media_kind(&[0, 0, 1, 0, 1], "x.ico"), Err("不支持的图片类型"));
    assert_eq!(media_kind(b"GIF89a..", "x"), Ok(MediaKind::Gif));
    assert_eq!(media_kind(&png_bytes(2, 2, false), "x"), Ok(MediaKind::Bitmap));
    assert_eq!(media_kind(&vec![b'a'; 5 * 1024 * 1024 + 1], "big.txt"), Err("文件过大（最大 5MB）"));
}

#[test]
fn a_small_photo_keeps_its_bytes() {
    let jpg = jpeg_bytes(40, 30);
    let u = save_media(&jpg, "/home/u/holiday.jpg").unwrap();
    assert_eq!(u.saved.name, "holiday.jpg");
    assert_eq!(u.saved.mime, "image/jpeg");
    assert_eq!(u.files[0].bytes, jpg);
    assert!(u.files[0].name.ends_with(".jpg"));
    assert_eq!(u.files[0].name.len(), 40);
    assert_eq!(u.saved.url, format!("/uploads/media/{}", u.files[0].name));
    assert_eq!(u.saved.size as usize, jpg.len());
    assert_eq!(u.files.len(), 2);
    assert!(u.files[1].name.ends_with("_thumb.jpg"));
    assert!(!u.files[1].required);
}

#[test]
fn a_transparent_picture_is_stored_as_png_and_a_large_one_scaled() {
    let png = png_bytes(2400, 10, true);
    let u = save_media(&png, "wide.png").unwrap();
    assert_eq!(u.saved.mime, "image/png");
    assert!(u.files[0].name.ends_with(".png"));
    let img = image::load_from_memory(&u.files[0].bytes).unwrap();
    assert_eq!(img.width(), 1920);
    let thumb = image::load_from_memory(&u.files[1].bytes).unwrap();
    assert_eq!(thumb.width(), 400);
    let opaque = save_media(&png_bytes(20, 20, false), "o.png").unwrap();
    assert_eq!(opaque.saved.mime, "image/jpeg");
}

#[test]
fn other_files_keep_their_bytes_and_type() {
    let u = save_media(b"a,b\n1,2\n", "/tmp/data.csv").unwrap();
    assert_eq!(u.saved.name, "data.csv");
    assert_eq!(u.saved.mime, "text/csv");
    assert_eq!(u.files.len(), 1);
    assert!(u.files[0].name.ends_with(".csv"));
    assert_eq!(u.files[0].bytes, b"a,b\n1,2\n".to_vec());
    assert!(save_media(b"not a picture", "x.exe").is_err());
}

#[test]
fn post_images() {
    assert_eq!(save_post_image(b"").err().unwrap(), "上传文件为空");
    assert_eq!(save_post_image(b"hello").err().unwrap(), "仅支持 PNG / JPEG / WebP / GIF（Favicon 另支持 ICO）");
    assert_eq!(save_post_image(&[0, 0, 1, 0, 9]).err().unwrap(), "该位置不支持 ICO，请使用 PNG / JPEG / WebP");
    let u = save_post_image(&png_bytes(10, 10, false)).unwrap();
    assert!(u.url.starts_with("/uploads/posts/"));
    assert!(u.url.ends_with(".jpg"));
    let gif = b"GIF89a\x01\x00\x01\x00\x00\x00\x00;".to_vec();
    let g = save_post_image(&gif).unwrap();
    assert_eq!(g.file.bytes, gif);
    assert!(g.url.ends_with(".gif"));
    let (out, ext, mime) = process_bitmap(&gif, 1920).unwrap();
    assert_eq!((out, ext, mime), (gif.clone(), "gif", "image/gif"));
}

#[test]
fn editor_uploads_fall_back_to_post_images() {
    let u = plan_image_upload(&png_bytes(8, 8, false), "shot.png").unwrap();
    assert!(u.media.is_some());
    assert_eq!(u.name, "shot.png");
    assert!(plan_image_upload(b"plain", "x.bin").is_err());
    assert_eq!(plan_image_upload(b"plain", "x.bin").err().unwrap(), UPLOAD_REFUSED);
}

#[test]
fn upload_fields_keep_the_last_file() {
    let mut f = UploadFields::new("image");
    f.accept_file(Some("  "), Vec::new());
    assert_eq!(f.original_name, "image");
    assert!(f.file.is_none());
    f.accept_file(Some("a.png"), vec![1, 2]);
    assert_eq!(f.original_name, "a.png");
    assert_eq!(f.file, Some(vec![1, 2]));
}

#[test]
fn names_and_thumbnails() {
    assert_eq!(sanitize_original_name("../../etc/passwd"), "passwd");
    assert_eq!(sanitize_original_name("   "), "file");
    assert_eq!(media_thumb_url("/uploads/media/abc.png"), "/uploads/media/abc_thumb.png");
    assert_eq!(media_thumb_url("/elsewhere/abc.png"), "");
}

#[test]
fn passwords_hash_and_verify() {
    let h = hash_password("correct horse").unwrap();
    assert!(h.starts_with("$argon2"));
    assert!(verify_password("correct horse", &h));
    assert!(!verify_password("wrong", &h));
    assert!(!verify_password("correct horse", "not a hash"));
}

#[test]
fn archives_are_zip_files() {
    let bytes = write_archive(&vec![
        ArchiveItem::Dir("assets/".to_string()),
        ArchiveItem::File("index.md".to_string(), b"# Hi".to_vec()),
    ])
    .unwrap();
    assert!(bytes.starts_with(b"PK"));
    assert!(bytes.windows(8).any(|w| w == b"index.md"));
}

#[test]
fn exports_point_links_at_their_assets() {
    let body = "See ![x](/uploads/media/a.png) and [y](/uploads/posts/missing.jpg)\n";
    let doc = MarkdownDoc { title: "Note", body_md: body };
    let existing = vec!["/data/uploads/media/a.png".to_string()];
    let plan = MarkdownExporter::plan_doc(&doc, "/data/uploads", &existing);
    assert_eq!(plan.base, "Note");
    assert_eq!(plan.md, "# Note\n\nSee ![x](assets/a.png) and [y](/uploads/posts/missing.jpg)\n");
    assert_eq!(plan.assets, vec![("a.png".to_string(), "/data/uploads/media/a.png".to_string())]);
    let art = MarkdownExporter::finish_doc(&plan, &vec![b"PNG".to_vec()]).unwrap();
    assert_eq!(art.filename, "Note.zip");
    assert_eq!(art.content_type, "application/zip");
    assert_eq!(&art.body[..2], b"PK");

    let plain = MarkdownDoc { title: "Note", body_md: "  plain  " };
    let plan = MarkdownExporter::plan_doc(&plain, "/data/uploads", &existing);
    assert!(plan.assets.is_empty());
    let art = MarkdownExporter::finish_doc(&plan, &Vec::new()).unwrap();
    assert_eq!(art.filename, "Note.md");
    assert_eq!(art.content_type, "text/markdown; charset=utf-8");
    assert_eq!(art.body, b"# Note\n\nplain\n".to_vec());
}

#[test]
fn upload_urls_resolve_inside_their_bucket() {
    assert_eq!(upload_file_path(" /uploads/media/a-1.png ", "/srv/up").as_deref(), Some("/srv/up/media/a-1.png"));
    assert_eq!(upload_parts("/uploads/site/logo.png"), Some(("site".to_string(), "logo.png".to_string())));
    for bad in [
        "/uploads/media/../x.png",
        "/uploads//media/x.png",
        "/uploads/other/x.png",
        "/uploads/media/sub/x.png",
        "/uploads/media/x y.png",
        "/uploads/media\\x.png",
        "/uploads/media",
        "/files/media/x.png",
    ] {
        assert_eq!(upload_file_path(bad, "/srv/up"), None, "{bad}");
    }
}
