//! Writing entries as a ZIP or TAR archive in memory. The archive crates
//! lay out the containers; which entries become directories, their names,
//! modes and times are decided here.
use crate::convert::archive::Entry;
use crate::convert::archive_read::RawEntry;
use crate::convert::error::ConvertError;
use crate::text::{chars_of, push_str, string_from_chars};
use std::io::Write;
use vstd::prelude::*;

verus! {

/// A `zip::ZipWriter` filling an in-memory buffer (Verus refuses to
/// declare the writer type itself, whose parameter is bound by std's I/O
/// traits, so it is held here out of Verus's sight).
#[verifier::external_body]
pub struct ZipOut {
    inner: zip::ZipWriter<std::io::Cursor<Vec<u8>>>,
}

/// The entries written so far into a ZIP writer: name, whether it was
/// added as a directory, and the file's bytes.
pub uninterp spec fn zip_items(w: ZipOut) -> Seq<RawEntry>;

/// The bytes `zip::ZipWriter::finish` leaves for the entries `items`
/// (directories stored, files deflated, the crate's default file time).
pub uninterp spec fn zip_archive_bytes(items: Seq<RawEntry>) -> Seq<u8>;

/// Whether a ZIP writer holding `items` accepts one more `item` (the crate
/// refuses, for instance, a name it already holds).
pub uninterp spec fn zip_adds(items: Seq<RawEntry>, item: RawEntry) -> bool;

/// Whether `finish` succeeds for a ZIP writer holding `items`.
pub uninterp spec fn zip_finishes(items: Seq<RawEntry>) -> bool;

/// Whether a ZIP writer accepts `items` one after another.
pub open spec fn zip_accepts_all(items: Seq<RawEntry>) -> bool
    decreases items.len(),
{
    items.len() == 0 || (zip_accepts_all(items.drop_last()) && zip_adds(items.drop_last(), items.last()))
}

proof fn lemma_zip_accepts_prefix(items: Seq<RawEntry>, k: int)
    requires
        zip_accepts_all(items),
        0 <= k <= items.len(),
    ensures
        zip_accepts_all(items.take(k)),
    decreases items.len(),
{
    if k < items.len() {
        lemma_zip_accepts_prefix(items.drop_last(), k);
        assert(items.drop_last().take(k) =~= items.take(k));
    } else {
        assert(items.take(k) =~= items);
    }
}

/// Calls `zip::ZipWriter::new` on an empty in-memory buffer.
#[verifier::external_body]
fn zip_new() -> (w: ZipOut)
    ensures
        zip_items(w) == Seq::<RawEntry>::empty(),
{
    ZipOut { inner: zip::ZipWriter::new(std::io::Cursor::new(Vec::new())) }
}

/// Calls `add_directory` with the stored method.
#[verifier::external_body]
fn zip_add_dir(w: &mut ZipOut, name: &str) -> (r: Result<(), String>)
    ensures
        r is Ok == zip_adds(zip_items(*old(w)), (name@, true, Seq::<u8>::empty())),
        r is Ok ==> zip_items(*final(w)) == zip_items(*old(w)).push((name@, true, Seq::<u8>::empty())),
{
    let options = zip::write::SimpleFileOptions::default().compression_method(zip::CompressionMethod::Stored);
    w.inner.add_directory(name, options).map_err(|e| e.to_string())
}

/// Calls `start_file` with the deflate method, then `write_all` of `data`.
#[verifier::external_body]
fn zip_add_file(w: &mut ZipOut, name: &str, data: &[u8]) -> (r: Result<(), String>)
    ensures
        r is Ok == zip_adds(zip_items(*old(w)), (name@, false, data@)),
        r is Ok ==> zip_items(*final(w)) == zip_items(*old(w)).push((name@, false, data@)),
{
    let options = zip::write::SimpleFileOptions::default().compression_method(zip::CompressionMethod::Deflated);
    w.inner.start_file(name, options).map_err(|e| e.to_string())?;
    w.inner.write_all(data).map_err(|e| e.to_string())
}

/// Calls `finish` and takes the buffer out of its cursor.
#[verifier::external_body]
fn zip_finish(w: ZipOut) -> (r: Result<Vec<u8>, String>)
    ensures
        r is Ok == zip_finishes(zip_items(w)),
        r matches Ok(b) ==> b@ == zip_archive_bytes(zip_items(w)),
{
    w.inner.finish().map(|c| c.into_inner()).map_err(|e| e.to_string())
}

/// The items an archive writer is given for `entries`: each entry's path,
/// whether it is a directory, and a file's bytes (none for a directory).
pub open spec fn written_items(entries: Seq<Entry>) -> Seq<RawEntry> {
    entries.map_values(|e: Entry| (e.path@, e.is_dir, if e.is_dir {
        Seq::<u8>::empty()
    } else {
        e.data@
    }))
}

/// The message for an archive the ZIP crate refuses to write.
pub open spec fn zip_write_lead() -> Seq<char> {
    "could not write ZIP archive: "@
}

fn zip_error(m: String) -> (r: ConvertError)
    ensures
        r matches ConvertError::Other(d) && d@ == zip_write_lead() + m@,
{
    let mut d = chars_of("could not write ZIP archive: ");
    push_str(&mut d, m.as_str());
    ConvertError::Other(string_from_chars(&d))
}

/// The entries zipped in order, each directory stored and each file
/// deflated; a refusal is the crate's error text.
pub(crate) fn zip_entries(entries: &[Entry]) -> (r: Result<Vec<u8>, String>)
    ensures
        r is Ok == (zip_accepts_all(written_items(entries@)) && zip_finishes(written_items(entries@))),
        r matches Ok(b) ==> b@ == zip_archive_bytes(written_items(entries@)),
{
    let mut w = zip_new();
    proof {
        assert(written_items(entries@).take(0) =~= Seq::<RawEntry>::empty());
    }
    for i in 0..entries.len()
        invariant
            zip_items(w) == written_items(entries@).take(i as int),
            zip_accepts_all(written_items(entries@).take(i as int)),
    {
        let e = &entries[i];
        let step = if e.is_dir {
            zip_add_dir(&mut w, e.path.as_str())
        } else {
            zip_add_file(&mut w, e.path.as_str(), e.data.as_slice())
        };
        let ghost next = written_items(entries@).take(i + 1);
        proof {
            assert(next.drop_last() =~= written_items(entries@).take(i as int));
        }
        match step {
            Err(m) => {
                proof {
                    if zip_accepts_all(written_items(entries@)) {
                        lemma_zip_accepts_prefix(written_items(entries@), i + 1);
                    }
                }
                return Err(m);
            },
            Ok(()) => {
                proof {
                    assert(written_items(entries@).take(i + 1) =~= written_items(entries@).take(i as int).push(
                        (e.path@, e.is_dir, if e.is_dir {
                            Seq::<u8>::empty()
                        } else {
                            e.data@
                        }),
                    ));
                }
            },
        }
    }
    proof {
        assert(written_items(entries@).take(entries@.len() as int) =~= written_items(entries@));
    }
    zip_finish(w)
}

/// The entries as a ZIP archive: each directory stored, each file
/// deflated, in order. When the crate writes them, the bytes are those
/// [`zip_archive_bytes`] names for the entries; a refusal is an `Other`
/// error.
pub fn zip_bytes(entries: &[Entry]) -> (r: Result<Vec<u8>, ConvertError>)
    ensures
        r is Ok == (zip_accepts_all(written_items(entries@)) && zip_finishes(written_items(entries@))),
        r matches Ok(b) ==> b@ == zip_archive_bytes(written_items(entries@)),
        r matches Err(e) ==> e is Other,
{
    match zip_entries(entries) {
        Ok(b) => Ok(b),
        Err(m) => Err(zip_error(m)),
    }
}

/// A `tar::Builder` filling an in-memory buffer (held out of Verus's sight
/// for the same reason as [`ZipOut`]).
#[verifier::external_body]
pub struct TarOut {
    inner: tar::Builder<Vec<u8>>,
}

/// One TAR member as it is appended: its header path, whether it is a
/// directory, its mode bits, its modification time, and its bytes.
pub type TarItem = (Seq<char>, bool, u32, u64, Seq<u8>);

/// The members appended so far to a TAR builder.
pub uninterp spec fn tar_items(b: TarOut) -> Seq<TarItem>;

/// The bytes `tar::Builder::into_inner` leaves for the members `items`
/// (GNU headers, the end-of-archive blocks included).
pub uninterp spec fn tar_archive_bytes(items: Seq<TarItem>) -> Seq<u8>;

/// Whether a TAR builder holding `items` appends one more `item` (the
/// crate refuses, for instance, a path a header cannot hold).
pub uninterp spec fn tar_appends(items: Seq<TarItem>, item: TarItem) -> bool;

/// Whether `into_inner` succeeds for a TAR builder holding `items`.
pub uninterp spec fn tar_finishes(items: Seq<TarItem>) -> bool;

/// Whether a TAR builder appends `items` one after another.
pub open spec fn tar_accepts_all(items: Seq<TarItem>) -> bool
    decreases items.len(),
{
    items.len() == 0 || (tar_accepts_all(items.drop_last()) && tar_appends(items.drop_last(), items.last()))
}

proof fn lemma_tar_accepts_prefix(items: Seq<TarItem>, k: int)
    requires
        tar_accepts_all(items),
        0 <= k <= items.len(),
    ensures
        tar_accepts_all(items.take(k)),
    decreases items.len(),
{
    if k < items.len() {
        lemma_tar_accepts_prefix(items.drop_last(), k);
        assert(items.drop_last().take(k) =~= items.take(k));
    } else {
        assert(items.take(k) =~= items);
    }
}

/// Calls `tar::Builder::new` on an empty buffer.
#[verifier::external_body]
fn tar_new() -> (b: TarOut)
    ensures
        tar_items(b) == Seq::<TarItem>::empty(),
{
    TarOut { inner: tar::Builder::new(Vec::new()) }
}

/// Builds a GNU header (`tar::Header::new_gnu`) with `mtime`, the
/// directory or regular-file type, `mode`, the size of `data` and `path`,
/// sets its checksum, and calls `append` with `data`.
#[verifier::external_body]
fn tar_append(b: &mut TarOut, path: &str, is_dir: bool, mode: u32, mtime: u64, data: &[u8]) -> (r: Result<(), String>)
    ensures
        r is Ok == tar_appends(tar_items(*old(b)), (path@, is_dir, mode, mtime, data@)),
        r is Ok ==> tar_items(*final(b)) == tar_items(*old(b)).push((path@, is_dir, mode, mtime, data@)),
{
    let mut header = tar::Header::new_gnu();
    header.set_mtime(mtime);
    header.set_entry_type(if is_dir { tar::EntryType::Directory } else { tar::EntryType::Regular });
    header.set_mode(mode);
    header.set_size(data.len() as u64);
    header.set_path(path).map_err(|e| e.to_string())?;
    header.set_cksum();
    b.inner.append(&header, data).map_err(|e| e.to_string())
}

/// Calls `into_inner`, which writes the end-of-archive blocks.
#[verifier::external_body]
fn tar_finish(b: TarOut) -> (r: Result<Vec<u8>, String>)
    ensures
        r is Ok == tar_finishes(tar_items(b)),
        r matches Ok(v) ==> v@ == tar_archive_bytes(tar_items(b)),
{
    b.inner.into_inner().map_err(|e| e.to_string())
}

/// The member an entry is appended as: a directory's path ends in `/`
/// (one is added when missing), has mode `755` and no bytes; a file keeps
/// its path, has mode `644` and its bytes.
pub open spec fn tar_item(e: Entry, mtime: u64) -> TarItem {
    if e.is_dir {
        (
            if e.path@.len() > 0 && e.path@.last() == '/' {
                e.path@
            } else {
                e.path@.push('/')
            },
            true,
            0o755u32,
            mtime,
            Seq::empty(),
        )
    } else {
        (e.path@, false, 0o644u32, mtime, e.data@)
    }
}

/// The members `entries` are appended as.
pub open spec fn tar_plan(entries: Seq<Entry>, mtime: u64) -> Seq<TarItem> {
    entries.map_values(|e: Entry| tar_item(e, mtime))
}

fn tar_error(m: String) -> (r: ConvertError)
    ensures
        r is Other,
{
    let mut d = chars_of("could not write TAR archive: ");
    push_str(&mut d, m.as_str());
    ConvertError::Other(string_from_chars(&d))
}

/// The entries as a TAR archive, every member stamped `mtime`: when the
/// crate writes them, the bytes [`tar_archive_bytes`] names for
/// [`tar_plan`]; a refusal (such as a path a header cannot hold) is an
/// `Other` error.
pub fn tar_bytes(entries: &[Entry], mtime: u64) -> (r: Result<Vec<u8>, ConvertError>)
    ensures
        r is Ok == (tar_accepts_all(tar_plan(entries@, mtime)) && tar_finishes(tar_plan(entries@, mtime))),
        r matches Ok(b) ==> b@ == tar_archive_bytes(tar_plan(entries@, mtime)),
        r matches Err(e) ==> e is Other,
{
    let mut b = tar_new();
    proof {
        assert(tar_plan(entries@, mtime).take(0) =~= Seq::<TarItem>::empty());
    }
    for i in 0..entries.len()
        invariant
            tar_items(b) == tar_plan(entries@, mtime).take(i as int),
            tar_accepts_all(tar_plan(entries@, mtime).take(i as int)),
    {
        let e = &entries[i];
        let step = if e.is_dir {
            let mut name = chars_of(e.path.as_str());
            if name.len() == 0 || name[name.len() - 1] != '/' {
                name.push('/');
            }
            let name_s = string_from_chars(&name);
            let empty: Vec<u8> = Vec::new();
            tar_append(&mut b, name_s.as_str(), true, 0o755, mtime, empty.as_slice())
        } else {
            tar_append(&mut b, e.path.as_str(), false, 0o644, mtime, e.data.as_slice())
        };
        proof {
            assert(tar_plan(entries@, mtime).take(i + 1).drop_last() =~= tar_plan(entries@, mtime).take(i as int));
        }
        match step {
            Err(m) => {
                proof {
                    if tar_accepts_all(tar_plan(entries@, mtime)) {
                        lemma_tar_accepts_prefix(tar_plan(entries@, mtime), i + 1);
                    }
                }
                return Err(tar_error(m));
            },
            Ok(()) => {
                proof {
                    assert(tar_plan(entries@, mtime).take(i + 1) =~= tar_plan(entries@, mtime).take(i as int).push(
                        tar_item(*e, mtime),
                    ));
                }
            },
        }
    }
    proof {
        assert(tar_plan(entries@, mtime).take(entries@.len() as int) =~= tar_plan(entries@, mtime));
    }
    match tar_finish(b) {
        Ok(v) => Ok(v),
        Err(m) => Err(tar_error(m)),
    }
}

/// The GZIP stream `flate2::write::GzEncoder` (default level, default
/// header) writes for `data`, or `None` when writing fails.
pub uninterp spec fn gzip_stream(data: Seq<u8>) -> Option<Seq<u8>>;

/// Writes `data` through a `GzEncoder` over an empty buffer and calls
/// `finish`.
#[verifier::external_body]
fn gzip_compress(data: &[u8]) -> (r: Result<Vec<u8>, String>)
    ensures
        match r {
            Ok(v) => gzip_stream(data@) == Some(v@),
            Err(_) => gzip_stream(data@) is None,
        },
{
    let mut encoder = flate2::write::GzEncoder::new(Vec::new(), flate2::Compression::default());
    encoder.write_all(data).map_err(|e| e.to_string())?;
    encoder.finish().map_err(|e| e.to_string())
}

/// The entries as a gzipped tarball: the TAR archive of [`tar_bytes`],
/// compressed as one GZIP stream.
pub fn tar_gz_bytes(entries: &[Entry], mtime: u64) -> (r: Result<Vec<u8>, ConvertError>)
    ensures
        r is Ok == (tar_accepts_all(tar_plan(entries@, mtime)) && tar_finishes(tar_plan(entries@, mtime))
            && gzip_stream(tar_archive_bytes(tar_plan(entries@, mtime))) is Some),
        r matches Ok(b) ==> gzip_stream(tar_archive_bytes(tar_plan(entries@, mtime))) == Some(b@),
        r matches Err(e) ==> e is Other,
{
    let tar = match tar_bytes(entries, mtime) {
        Ok(t) => t,
        Err(e) => return Err(e),
    };
    match gzip_compress(tar.as_slice()) {
        Ok(v) => Ok(v),
        Err(m) => {
            let mut d = chars_of("could not write GZIP stream: ");
            push_str(&mut d, m.as_str());
            Err(ConvertError::Other(string_from_chars(&d)))
        },
    }
}

} // verus!
