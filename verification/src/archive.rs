//! Writing an export's zip archive in memory with the `zip` crate: each
//! directory and file in turn, then the finished bytes.
use vstd::prelude::*;

verus! {

/// A zip archive being written into memory (`zip::ZipWriter` over a
/// `Cursor<Vec<u8>>`). Verus refuses to declare the writer type itself (its
/// parameter is bound by `std::io` traits), so it is held here, opaque.
#[verifier::external_body]
pub struct ZipBuilder {
    inner: zip::ZipWriter<std::io::Cursor<Vec<u8>>>,
}

#[verifier::external_type_specification]
#[verifier::external_body]
pub struct ExZipError(zip::result::ZipError);

/// One entry of an archive: its name, its bytes, and whether it is a
/// directory.
pub struct ZipEntry {
    pub name: Seq<char>,
    pub data: Seq<u8>,
    pub dir: bool,
}

/// The entries a writer holds, the last one still open for writing.
pub uninterp spec fn zip_contents(w: ZipBuilder) -> Seq<ZipEntry>;

/// The name an entry is stored under: the writer ends a directory's name
/// with `/` where it ends with neither `/` nor `\\`.
pub open spec fn stored_entry_name(e: ZipEntry) -> Seq<char> {
    if e.dir && !(e.name.len() > 0 && (e.name.last() == '/' || e.name.last() == '\\')) {
        e.name.push('/')
    } else {
        e.name
    }
}

/// Entries an in-memory writer takes without failing: no two are stored
/// under one name (the writer refuses a duplicate), and no file holds 2 GiB
/// or more (beyond 4 GiB, compressed or not, it needs the large-file option,
/// which is not set).
pub open spec fn zip_fits(es: Seq<ZipEntry>) -> bool {
    &&& forall|i: int, j: int|
        0 <= i < j < es.len() ==> stored_entry_name(#[trigger] es[i]) != stored_entry_name(#[trigger] es[j])
    &&& forall|i: int| 0 <= i < es.len() ==> (#[trigger] es[i]).data.len() < 0x8000_0000
}

/// The longest name an entry can be stored under, in UTF-8 bytes: the zip
/// headers hold the length in 16 bits, and the writer panics beyond it
/// (`ZipFileData::local_block` unwraps the conversion).
pub const ZIP_NAME_MAX: usize = 65535;

/// Whether `e` is stored under a name the zip headers can hold.
pub open spec fn zip_name_fits(e: ZipEntry) -> bool {
    crate::text::utf8_len(stored_entry_name(e)) <= ZIP_NAME_MAX
}

/// Every entry is stored under a name the zip headers can hold.
pub open spec fn zip_names_fit(es: Seq<ZipEntry>) -> bool {
    forall|i: int| 0 <= i < es.len() ==> zip_name_fits(#[trigger] es[i])
}

/// The bytes of an archive of these entries, each file compressed with
/// deflate and stamped with the format's default time.
pub uninterp spec fn zip_archive(entries: Seq<ZipEntry>) -> Seq<u8>;

/// `zip::ZipWriter::new` on an empty in-memory buffer: no entries.
#[verifier::external_body]
fn zip_new() -> (w: ZipBuilder)
    ensures
        zip_contents(w) == Seq::<ZipEntry>::empty(),
{
    ZipBuilder { inner: zip::ZipWriter::new(std::io::Cursor::new(Vec::new())) }
}

/// `ZipWriter::add_directory` with default options: on success the
/// directory is the last entry; it succeeds where the entries still fit.
/// Its name, with the `/` the writer adds, must fit the headers.
#[verifier::external_body]
fn zip_add_directory(w: &mut ZipBuilder, name: &str) -> (r: Result<
    (),
    zip::result::ZipError,
>)
    requires
        zip_name_fits(ZipEntry { name: name@, data: Seq::empty(), dir: true }),
    ensures
        zip_fits(zip_contents(*old(w)).push(ZipEntry { name: name@, data: Seq::empty(), dir: true }))
            ==> r is Ok,
        r is Ok ==> zip_contents(*final(w)) == zip_contents(*old(w)).push(
            ZipEntry { name: name@, data: Seq::empty(), dir: true },
        ),
{
    w.inner.add_directory(name, zip::write::SimpleFileOptions::default())
}

/// `ZipWriter::start_file` with deflate compression: on success an empty
/// file of that name is the last entry; it succeeds where the entries still
/// fit. Its name must fit the headers.
#[verifier::external_body]
fn zip_start_file(w: &mut ZipBuilder, name: &str) -> (r: Result<
    (),
    zip::result::ZipError,
>)
    requires
        zip_name_fits(ZipEntry { name: name@, data: Seq::empty(), dir: false }),
    ensures
        zip_fits(zip_contents(*old(w)).push(ZipEntry { name: name@, data: Seq::empty(), dir: false }))
            ==> r is Ok,
        r is Ok ==> zip_contents(*final(w)) == zip_contents(*old(w)).push(
            ZipEntry { name: name@, data: Seq::empty(), dir: false },
        ),
{
    w.inner.start_file(
        name,
        zip::write::SimpleFileOptions::default().compression_method(
            zip::CompressionMethod::Deflated,
        ),
    )
}

/// The open file's entry with `data` appended.
pub open spec fn appended(es: Seq<ZipEntry>, data: Seq<u8>) -> Seq<ZipEntry> {
    es.update(
        es.len() - 1,
        ZipEntry { name: es.last().name, data: es.last().data + data, dir: false },
    )
}

/// `std::io::Write::write_all` on the writer, whose last entry is an open
/// file: on success the bytes are appended to it; it succeeds where the
/// entries still fit.
#[verifier::external_body]
fn zip_write_all(w: &mut ZipBuilder, data: &[u8]) -> (r: bool)
    requires
        zip_contents(*old(w)).len() > 0,
        !zip_contents(*old(w)).last().dir,
    ensures
        zip_fits(appended(zip_contents(*old(w)), data@)) ==> r,
        r ==> zip_contents(*final(w)) == zip_contents(
            *old(w),
        ).update(
            zip_contents(*old(w)).len() - 1,
            ZipEntry {
                name: zip_contents(*old(w)).last().name,
                data: zip_contents(*old(w)).last().data + data@,
                dir: false,
            },
        ),
{
    std::io::Write::write_all(&mut w.inner, data).is_ok()
}

/// `ZipWriter::finish`, then the buffer's bytes: on success the archive of
/// the entries written; it succeeds where they fit. The central directory
/// repeats every name, so each must fit the headers.
#[verifier::external_body]
fn zip_finish(w: ZipBuilder) -> (r: Result<
    Vec<u8>,
    zip::result::ZipError,
>)
    requires
        zip_names_fit(zip_contents(w)),
    ensures
        zip_fits(zip_contents(w)) ==> r is Ok,
        match r {
            Ok(b) => b@ == zip_archive(zip_contents(w)),
            Err(_) => true,
        },
{
    w.inner.finish().map(|c| c.into_inner())
}


/// An entry to write: a directory, or a file with its bytes.
#[derive(Debug, Clone)]
pub enum ArchiveItem {
    Dir(String),
    File(String, Vec<u8>),
}

pub open spec fn item_entry(i: ArchiveItem) -> ZipEntry {
    match i {
        ArchiveItem::Dir(n) => ZipEntry { name: n@, data: Seq::empty(), dir: true },
        ArchiveItem::File(n, d) => ZipEntry { name: n@, data: d@, dir: false },
    }
}

pub open spec fn entries_of(items: Seq<ArchiveItem>) -> Seq<ZipEntry> {
    items.map_values(|i: ArchiveItem| item_entry(i))
}

proof fn lemma_fits_prefix(full: Seq<ZipEntry>, i: int, e: ZipEntry)
    requires
        zip_fits(full),
        0 <= i < full.len(),
        stored_entry_name(e) == stored_entry_name(full[i]),
        e.data.len() <= full[i].data.len(),
    ensures
        zip_fits(full.take(i).push(e)),
{
    let p = full.take(i).push(e);
    assert forall|a: int, b: int| 0 <= a < b < p.len() implies stored_entry_name(#[trigger] p[a])
        != stored_entry_name(#[trigger] p[b]) by {
        assert(p[a] == full[a]);
        if b < i {
            assert(p[b] == full[b]);
        }
    }
    assert forall|a: int| 0 <= a < p.len() implies (#[trigger] p[a]).data.len() < 0x8000_0000 by {
        if a < i {
            assert(p[a] == full[a]);
        }
    }
}

/// The archive of `items`, written in order; none where the writer fails,
/// which it does not where the entries fit (`zip_fits`).
pub fn write_archive(items: &Vec<ArchiveItem>) -> (r: Option<Vec<u8>>)
    requires
        zip_names_fit(entries_of(items@)),
    ensures
        zip_fits(entries_of(items@)) ==> r is Some,
        match r {
            Some(b) => b@ == zip_archive(entries_of(items@)),
            None => true,
        },
{
    let mut w = zip_new();
    let mut i: usize = 0;
    while i < items.len()
        invariant
            0 <= i <= items.len(),
            zip_names_fit(entries_of(items@)),
            zip_contents(w) == entries_of(items@.take(i as int)),
        decreases items.len() - i,
    {
        let ghost before = zip_contents(w);
        let ghost full = entries_of(items@);
        assert(items@.take(i + 1) == items@.take(i as int).push(items@[i as int]));
        assert(full.take(i as int) =~= before);
        assert(full[i as int] == item_entry(items@[i as int]));
        match &items[i] {
            ArchiveItem::Dir(name) => {
                proof {
                    if zip_fits(full) {
                        lemma_fits_prefix(full, i as int, ZipEntry { name: name@, data: Seq::empty(), dir: true });
                    }
                }
                if zip_add_directory(&mut w, name.as_str()).is_err() {
                    return None;
                }
            },
            ArchiveItem::File(name, data) => {
                proof {
                    if zip_fits(full) {
                        lemma_fits_prefix(full, i as int, ZipEntry { name: name@, data: Seq::empty(), dir: false });
                    }
                }
                if zip_start_file(&mut w, name.as_str()).is_err() {
                    return None;
                }
                proof {
                    if zip_fits(full) {
                        lemma_fits_prefix(full, i as int, full[i as int]);
                        assert(appended(zip_contents(w), data@) =~= full.take(i as int).push(full[i as int]));
                    }
                }
                if !zip_write_all(&mut w, data.as_slice()) {
                    return None;
                }
                assert(Seq::<u8>::empty() + data@ =~= data@);
            },
        }
        assert(zip_contents(w) =~= entries_of(items@.take(i + 1)));
        i = i + 1;
    }
    assert(items@.take(items@.len() as int) =~= items@);
    match zip_finish(w) {
        Ok(b) => Some(b),
        Err(_) => None,
    }
}

proof fn lemma_utf8_len_push_ascii(s: Seq<char>, c: char)
    requires
        (c as u32) < 0x80,
    ensures
        crate::text::utf8_len(s.push(c)) == crate::text::utf8_len(s) + 1,
{
    assert(s.push(c).drop_last() =~= s);
}

/// Whether every entry of `items` is stored under a name the zip headers
/// can hold (`zip_names_fit`), so that `write_archive` can be called.
pub fn archive_names_fit(items: &Vec<ArchiveItem>) -> (r: bool)
    ensures
        r == zip_names_fit(entries_of(items@)),
{
    let mut i: usize = 0;
    while i < items.len()
        invariant
            0 <= i <= items.len(),
            forall|k: int| 0 <= k < i ==> zip_name_fits(#[trigger] entries_of(items@)[k]),
        decreases items.len() - i,
    {
        let (name, dir) = match &items[i] {
            ArchiveItem::Dir(n) => (n, true),
            ArchiveItem::File(n, _) => (n, false),
        };
        let v = crate::text::chars_of(name.as_str());
        let n = crate::text::utf8_len_of(&v);
        let slash = dir && !(v.len() > 0 && (v[v.len() - 1] == '/' || v[v.len() - 1] == '\\'));
        let ghost e = entries_of(items@)[i as int];
        assert(e == item_entry(items@[i as int]));
        proof {
            if slash {
                lemma_utf8_len_push_ascii(v@, '/');
                assert(stored_entry_name(e) == v@.push('/'));
            } else {
                assert(stored_entry_name(e) == v@);
            }
        }
        let fits = if slash {
            n < ZIP_NAME_MAX
        } else {
            n <= ZIP_NAME_MAX
        };
        if !fits {
            assert(!zip_name_fits(e));
            return false;
        }
        i = i + 1;
    }
    true
}

} // verus!
