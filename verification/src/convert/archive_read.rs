//! Reading the entries of ZIP, TAR and GZIP archives held in memory. The
//! archive crates parse the containers and inflate the data; every entry
//! they hand out goes through the same checks here: its name is
//! sanitized, its size and the archive's totals are held to the budgets,
//! and no two entries may end up at the same path.
use crate::convert::archive::{
    bare_gzip_entries, debug_quoted, duplicate_message, looks_like_tar, lower_paths, over_limit_message,
    oversized_message, read_bounded, sanitize_path, spec_looks_like_tar, spec_sanitize, Entry, EntryCollector,
    MAX_ENTRY_COUNT, MAX_ENTRY_UNCOMPRESSED_BYTES, MAX_TOTAL_UNCOMPRESSED_BYTES,
};
use crate::convert::error::{io_error_text, ConvertError};
use crate::convert::naming::file_stem;
use crate::text::{ascii_lower, chars_of, push_str, string_from_chars};
use std::io::Read;
use vstd::prelude::*;

verus! {

/// Why an archive crate could not hand out an entry.
pub enum ArchiveFailure {
    /// The container is damaged; the crate's own description.
    Corrupt(String),
    /// Reading the entry's bytes failed (a damaged compressed stream).
    Io(std::io::Error),
}

/// One entry as an archive crate lists it: its name, whether it is a
/// directory, and its bytes (read up to a limit).
pub type RawEntry = (Seq<char>, bool, Seq<u8>);

/// The bytes a raw entry adds to the archive's total: a file's, none for a
/// directory.
pub open spec fn file_size(e: RawEntry) -> nat {
    if e.1 {
        0
    } else {
        e.2.len()
    }
}

/// The file bytes of all of `raw`.
pub open spec fn file_total(raw: Seq<RawEntry>) -> nat
    decreases raw.len(),
{
    if raw.len() == 0 {
        0
    } else {
        file_total(raw.drop_last()) + file_size(raw.last())
    }
}

/// The refusal of an entry whose name has a drive-letter component.
pub open spec fn drive_letter_message(name: Seq<char>) -> Seq<char> {
    "refusing archive entry with a drive-letter path: "@ + debug_quoted(name)
}

/// The refusal of an archive whose file bytes pass the total budget.
pub open spec fn total_limit_message() -> Seq<char> {
    "archive decompresses to more than the 536870912-byte total limit"@
}

/// The refusal of an archive with more entries than the count budget.
pub open spec fn count_limit_message() -> Seq<char> {
    "archive contains more than 100000 entries"@
}

/// Why the raw entry `e` cannot be taken after `count` entries holding
/// `total` file bytes, checked in this order: its name sanitizes, a file
/// is within the per-entry budget (`label` names the format in that
/// message), the file bytes stay within the total budget, and the entry
/// count within its budget. `None` when it can be taken.
pub open spec fn fit_error(count: nat, total: nat, e: RawEntry, label: Seq<char>) -> Option<Seq<char>> {
    if spec_sanitize(e.0) is None {
        Some(drive_letter_message(e.0))
    } else if !e.1 && e.2.len() > MAX_ENTRY_UNCOMPRESSED_BYTES {
        Some(over_limit_message(label, MAX_ENTRY_UNCOMPRESSED_BYTES))
    } else if !e.1 && total + e.2.len() > MAX_TOTAL_UNCOMPRESSED_BYTES {
        Some(total_limit_message())
    } else if count >= MAX_ENTRY_COUNT {
        Some(count_limit_message())
    } else {
        None
    }
}

/// The entry a raw entry becomes: its sanitized path, and no bytes for a
/// directory.
pub open spec fn raw_entry(e: RawEntry) -> RawEntry {
    (spec_sanitize(e.0)->0, e.1, if e.1 {
        Seq::empty()
    } else {
        e.2
    })
}

/// The entries `raw` become.
pub open spec fn raw_entries(raw: Seq<RawEntry>) -> Seq<RawEntry> {
    raw.map_values(|e: RawEntry| raw_entry(e))
}

/// Entries by plain values.
pub open spec fn entry_views(es: Seq<Entry>) -> Seq<RawEntry> {
    es.map_values(|e: Entry| (e.path@, e.is_dir, e.data@))
}

/// No two entries share a path, compared ASCII case-insensitively.
pub open spec fn distinct_paths(vs: Seq<RawEntry>) -> bool {
    forall|i: int, j: int| 0 <= i < j < vs.len() ==> ascii_lower(vs[i].0) != ascii_lower(vs[j].0)
}

/// `m` refuses `vs` for its first entry whose path repeats an earlier one
/// (ASCII case-insensitively): [`duplicate_message`] of that entry's path.
pub open spec fn duplicate_refusal(vs: Seq<RawEntry>, m: Seq<char>) -> bool {
    exists|j: int|
        #![trigger vs[j]]
        0 <= j < vs.len() && (exists|i: int| 0 <= i < j && ascii_lower(vs[i].0) == ascii_lower(vs[j].0))
            && (forall|k: int, l: int| 0 <= k < l < j ==> ascii_lower(vs[k].0) != ascii_lower(vs[l].0))
            && m == duplicate_message(vs[j].0)
}

/// What reading an archive comes to.
pub enum Listing {
    /// Its entries, checked.
    Entries(Seq<RawEntry>),
    /// The bytes are not an archive of the format.
    NotArchive,
    /// An entry could not be read out of the archive.
    Unreadable,
    /// An entry was refused, with this message.
    Refused(Seq<char>),
    /// Every entry fits, but two of these share a path.
    Duplicates(Seq<RawEntry>),
}

/// What a listing whose raw entries `raw` all fit comes to.
pub open spec fn finish_listing(raw: Seq<RawEntry>) -> Listing {
    if distinct_paths(raw_entries(raw)) {
        Listing::Entries(raw_entries(raw))
    } else {
        Listing::Duplicates(raw_entries(raw))
    }
}

/// Whether `d` starts with `lead`.
pub open spec fn starts_with(d: Seq<char>, lead: Seq<char>) -> bool {
    d.len() >= lead.len() && d.take(lead.len() as int) == lead
}

/// Whether `r` is what a reader returns for the listing `o`; `lead`
/// starts the `Decode` error for bytes that are not an archive, and
/// `entry_lead` the one for an entry the crate cannot read (an entry whose
/// bytes fail to read gives an `Io` error instead).
pub open spec fn listing_result(
    o: Listing,
    r: Result<Vec<Entry>, ConvertError>,
    lead: Seq<char>,
    entry_lead: Seq<char>,
) -> bool {
    match o {
        Listing::Entries(es) => r matches Ok(v) && entry_views(v@) == es,
        Listing::NotArchive => r matches Err(ConvertError::Decode(d)) && starts_with(d@, lead),
        Listing::Unreadable => (r matches Err(ConvertError::Decode(d)) && starts_with(d@, entry_lead)) || r matches Err(
            ConvertError::Io(_),
        ),
        Listing::Refused(m) => r matches Err(ConvertError::Other(x)) && x@ == m,
        Listing::Duplicates(es) => r matches Err(ConvertError::Other(x)) && duplicate_refusal(es, x@),
    }
}

/// Takes one raw entry into `collector`: its name sanitized, a file's
/// bytes held to the per-entry budget (`label` names the format in that
/// message), then the archive-wide budgets.
fn take_raw(collector: &mut EntryCollector, name: String, is_dir: bool, data: Vec<u8>, label: &str) -> (r: Result<
    (),
    ConvertError,
>)
    requires
        old(collector).wf(),
    ensures
        final(collector).wf(),
        match fit_error(old(collector).entries().len(), old(collector).total(), (name@, is_dir, data@), label@) {
            Some(m) => r matches Err(ConvertError::Other(x)) && x@ == m,
            None => {
                &&& r is Ok
                &&& entry_views(final(collector).entries()) == entry_views(old(collector).entries()).push(
                    raw_entry((name@, is_dir, data@)),
                )
                &&& final(collector).total() == old(collector).total() + file_size((name@, is_dir, data@))
            },
        },
{
    let ghost before = collector.entries();
    let ghost e: RawEntry = (name@, is_dir, data@);
    proof {
        collector.lemma_within_budgets();
    }
    let path = match sanitize_path(name.as_str()) {
        Ok(p) => p,
        Err(err) => return Err(err),
    };
    if is_dir {
        let ghost pv = path@;
        let r = collector.add_dir(path);
        proof {
            if r is Ok {
                assert(collector.entries() =~= before.push(collector.entries().last()));
                assert(collector.entries().last().data@ =~= Seq::<u8>::empty());
                assert(collector.entries().last().path@ == pv);
                assert(entry_views(collector.entries()) =~= entry_views(before).push(raw_entry(e)));
            }
        }
        r
    } else {
        let d = match read_bounded(data, MAX_ENTRY_UNCOMPRESSED_BYTES, label) {
            Ok(d) => d,
            Err(err) => return Err(err),
        };
        let ghost pv = path@;
        let r = collector.add_file(path, d);
        proof {
            if r is Ok {
                assert(collector.entries() =~= before.push(collector.entries().last()));
                assert(collector.entries().last().path@ == pv);
                assert(entry_views(collector.entries()) =~= entry_views(before).push(raw_entry(e)));
            }
        }
        r
    }
}

/// Hands back the entries of `collector`, once no two share a path.
fn finish_collected(collector: EntryCollector, Ghost(raw): Ghost<Seq<RawEntry>>) -> (r: Result<
    Vec<Entry>,
    ConvertError,
>)
    requires
        entry_views(collector.entries()) == raw_entries(raw),
    ensures
        forall|lead: Seq<char>, entry_lead: Seq<char>| listing_result(finish_listing(raw), r, lead, entry_lead),
{
    let ghost es = collector.entries();
    let ghost vs = raw_entries(raw);
    let r = collector.finish();
    proof {
        assert forall|i: int| 0 <= i < es.len() implies #[trigger] lower_paths(es)[i] == ascii_lower(vs[i].0) by {
            assert(vs[i] == entry_views(es)[i]);
        }
        if distinct_paths(vs) {
            assert forall|i: int, j: int| 0 <= i < j < es.len() implies lower_paths(es)[i] != lower_paths(es)[j] by {
                assert(lower_paths(es)[i] == ascii_lower(vs[i].0));
                assert(lower_paths(es)[j] == ascii_lower(vs[j].0));
            }
            let v = r->Ok_0;
            assert(entry_views(v@) == vs);
        } else {
            let (i0, j0) = choose|i: int, j: int| 0 <= i < j < vs.len() && ascii_lower(vs[i].0) == ascii_lower(vs[j].0);
            assert(lower_paths(es)[i0] == ascii_lower(vs[i0].0));
            assert(lower_paths(es)[j0] == ascii_lower(vs[j0].0));
            let m = r->Err_0->Other_0;
            let j = choose|j: int|
                #![trigger es[j]]
                0 <= j < es.len() && (exists|i: int| 0 <= i < j && lower_paths(es)[i] == lower_paths(es)[j])
                    && (forall|k: int, l: int| 0 <= k < l < j ==> lower_paths(es)[k] != lower_paths(es)[l])
                    && m@ == duplicate_message(es[j].path@);
            let i = choose|i: int| 0 <= i < j && lower_paths(es)[i] == lower_paths(es)[j];
            assert(vs[j] == entry_views(es)[j]);
            assert(lower_paths(es)[i] == ascii_lower(vs[i].0));
            assert(lower_paths(es)[j] == ascii_lower(vs[j].0));
            assert forall|k: int, l: int| 0 <= k < l < j implies ascii_lower(vs[k].0) != ascii_lower(vs[l].0) by {
                assert(lower_paths(es)[k] == ascii_lower(vs[k].0));
                assert(lower_paths(es)[l] == ascii_lower(vs[l].0));
            }
            assert(duplicate_refusal(vs, m@));
        }
    }
    r
}

/// The number of entries `zip::ZipArchive::new` lists for `bytes`, or
/// `None` when it does not read them as a ZIP archive.
pub uninterp spec fn zip_entry_count(bytes: Seq<u8>) -> Option<nat>;

/// Entry `index` of the ZIP archive `bytes` as `zip::ZipArchive::by_index`
/// gives it: its name, whether it is a directory, and at most `limit` of
/// its inflated bytes; `None` when the entry cannot be read.
pub uninterp spec fn zip_entry(bytes: Seq<u8>, index: nat, limit: nat) -> Option<RawEntry>;

/// `zip::ZipArchive`, the `zip` crate's archive reader; opaque here.
#[verifier::external_type_specification]
#[verifier::external_body]
#[verifier::reject_recursive_types(R)]
pub struct ExZipArchive<R>(zip::ZipArchive<R>);

/// `std::io::Cursor`, a reader over bytes in memory; opaque here.
#[verifier::external_type_specification]
#[verifier::external_body]
#[verifier::reject_recursive_types(T)]
pub struct ExCursor<T>(std::io::Cursor<T>);

/// The bytes a ZIP archive reader was opened on.
pub uninterp spec fn zip_in_bytes(z: zip::ZipArchive<std::io::Cursor<&[u8]>>) -> Seq<u8>;

/// Calls `zip::ZipArchive::new` on `bytes`: the opened archive and its
/// `len()`, or the crate's error text.
#[verifier::external_body]
fn zip_open<'a>(bytes: &'a [u8]) -> (r: Result<(zip::ZipArchive<std::io::Cursor<&'a [u8]>>, usize), String>)
    ensures
        match r {
            Ok((z, n)) => zip_in_bytes(z) == bytes@ && zip_entry_count(bytes@) == Some(n as nat),
            Err(_) => zip_entry_count(bytes@) is None,
        },
{
    let inner = zip::ZipArchive::new(std::io::Cursor::new(bytes)).map_err(|e| e.to_string())?;
    let n = inner.len();
    Ok((inner, n))
}

/// Reads entry `index` of the opened archive with `by_index`: its
/// `name()`, `is_dir()`, and at most `limit` of its bytes. Reading leaves
/// the archive as it was opened.
#[verifier::external_body]
fn zip_entry_at(z: &mut zip::ZipArchive<std::io::Cursor<&[u8]>>, index: usize, limit: u64) -> (r: Result<(String, bool, Vec<u8>), ArchiveFailure>)
    ensures
        zip_in_bytes(*final(z)) == zip_in_bytes(*old(z)),
        match r {
            Ok((n, d, data)) => zip_entry(zip_in_bytes(*old(z)), index as nat, limit as nat) == Some((n@, d, data@)),
            Err(_) => zip_entry(zip_in_bytes(*old(z)), index as nat, limit as nat) is None,
        },
{
    let mut file = z.by_index(index).map_err(|e| ArchiveFailure::Corrupt(e.to_string()))?;
    let is_dir = file.is_dir();
    let name = file.name().to_string();
    let mut data = Vec::new();
    (&mut file).take(limit).read_to_end(&mut data).map_err(ArchiveFailure::Io)?;
    Ok((name, is_dir, data))
}

/// What reading the ZIP archive `bytes`, listed as `n` entries, comes to
/// once the entries before index `raw.len()` were read as `raw` and all
/// fit: each entry is read up to one byte past the per-entry budget.
pub open spec fn zip_from(bytes: Seq<u8>, n: nat, raw: Seq<RawEntry>) -> Listing
    decreases n - raw.len(),
{
    if raw.len() >= n {
        finish_listing(raw)
    } else {
        match zip_entry(bytes, raw.len(), (MAX_ENTRY_UNCOMPRESSED_BYTES + 1) as nat) {
            None => Listing::Unreadable,
            Some(e) => match fit_error(raw.len(), file_total(raw), e, "ZIP entry"@) {
                Some(m) => Listing::Refused(m),
                None => zip_from(bytes, n, raw.push(e)),
            },
        }
    }
}

/// What reading the ZIP archive `bytes` comes to.
pub open spec fn spec_zip_read(bytes: Seq<u8>) -> Listing {
    match zip_entry_count(bytes) {
        None => Listing::NotArchive,
        Some(n) => zip_from(bytes, n, Seq::empty()),
    }
}

fn failure_error(f: ArchiveFailure, lead: &str) -> (r: ConvertError)
    ensures
        (r matches ConvertError::Decode(d) && starts_with(d@, lead@)) || r is Io,
{
    match f {
        ArchiveFailure::Corrupt(m) => {
            let mut d = chars_of(lead);
            push_str(&mut d, m.as_str());
            proof {
                assert(d@.take(lead@.len() as int) =~= lead@);
            }
            ConvertError::Decode(string_from_chars(&d))
        },
        ArchiveFailure::Io(e) => ConvertError::Io(e),
    }
}

/// Every entry of the ZIP archive `bytes`, checked in order: bytes that
/// are not a ZIP archive give a `Decode` error (`not a valid ZIP file: `
/// and the crate's reason); an entry that cannot be read a `Decode` error
/// (`corrupt ZIP entry: ` and the reason) or, when its bytes fail to
/// read, an `Io` error; the first entry refused by [`fit_error`] an `Other` error
/// with that message; two entries at one path an `Other` error naming the
/// first that repeats; otherwise the entries, as [`spec_zip_read`] gives
/// them.
pub fn read_zip_entries(bytes: &[u8]) -> (r: Result<Vec<Entry>, ConvertError>)
    ensures
        listing_result(spec_zip_read(bytes@), r, "not a valid ZIP file: "@, "corrupt ZIP entry: "@),
{
    let (mut archive, n) = match zip_open(bytes) {
        Ok(x) => x,
        Err(m) => {
            let mut d = chars_of("not a valid ZIP file: ");
            push_str(&mut d, m.as_str());
            proof {
                assert(d@.take("not a valid ZIP file: "@.len() as int) =~= "not a valid ZIP file: "@);
            }
            return Err(ConvertError::Decode(string_from_chars(&d)));
        },
    };
    let limit: u64 = MAX_ENTRY_UNCOMPRESSED_BYTES + 1;
    let ghost mut raw: Seq<RawEntry> = Seq::empty();
    let mut collector = EntryCollector::new();
    proof {
        assert(entry_views(collector.entries()) =~= raw_entries(raw));
    }
    for i in 0..n
        invariant
            limit == MAX_ENTRY_UNCOMPRESSED_BYTES + 1,
            spec_zip_read(bytes@) == zip_from(bytes@, n as nat, raw),
            zip_in_bytes(archive) == bytes@,
            raw.len() == i,
            collector.wf(),
            collector.entries().len() == i,
            entry_views(collector.entries()) == raw_entries(raw),
            collector.total() == file_total(raw),
    {
        match zip_entry_at(&mut archive, i, limit) {
            Err(f) => {
                return Err(failure_error(f, "corrupt ZIP entry: "));
            },
            Ok((name, is_dir, data)) => {
                let ghost e: RawEntry = (name@, is_dir, data@);
                let step = take_raw(&mut collector, name, is_dir, data, "ZIP entry");
                proof {
                    reveal_strlit("ZIP entry");
                }
                match step {
                    Err(err) => {
                        return Err(err);
                    },
                    Ok(()) => {
                        proof {
                            assert(raw_entries(raw.push(e)) =~= raw_entries(raw).push(raw_entry(e)));
                            assert(raw.push(e).drop_last() =~= raw);
                            raw = raw.push(e);
                        }
                    },
                }
            },
        }
    }
    finish_collected(collector, Ghost(raw))
}

/// Entry `index` of the TAR archive `bytes`, as the `index`-th call of
/// `next` on `tar::Archive::entries_with_seek` hands it out (the calls
/// before it having succeeded): `Some(None)` past the last entry, `Some(Some(..))` with its path (read
/// lossily as UTF-8), whether its header marks a directory, and at most
/// `limit` of its bytes; `None` when the archive cannot be read that far.
pub uninterp spec fn tar_entry(bytes: Seq<u8>, index: nat, limit: nat) -> Option<Option<RawEntry>>;

/// A `tar::Archive` over bytes held in memory (held out of Verus's sight:
/// the archive type's parameter is bound by std's I/O traits).
#[verifier::external_body]
pub struct TarIn<'a> {
    inner: tar::Archive<std::io::Cursor<&'a [u8]>>,
}

/// A walk over the entries of a [`TarIn`] (`tar::Entries`, borrowing the
/// archive).
#[verifier::external_body]
pub struct TarWalk<'b, 'a> {
    inner: tar::Entries<'b, std::io::Cursor<&'a [u8]>>,
}

/// The bytes a `TarIn` reads.
pub uninterp spec fn tar_in_bytes(t: TarIn) -> Seq<u8>;

/// Whether no walk over the entries of `t` was started yet.
pub uninterp spec fn tar_in_fresh(t: TarIn) -> bool;

/// The bytes whose entries a walk goes over.
pub uninterp spec fn walk_bytes(w: TarWalk) -> Seq<u8>;

/// How many entries a walk has handed out.
pub uninterp spec fn walk_index(w: TarWalk) -> nat;

/// Calls `tar::Archive::new` on a cursor over `bytes`.
#[verifier::external_body]
fn tar_open<'a>(bytes: &'a [u8]) -> (t: TarIn<'a>)
    ensures
        tar_in_bytes(t) == bytes@,
        tar_in_fresh(t),
{
    TarIn { inner: tar::Archive::new(std::io::Cursor::new(bytes)) }
}

/// Calls `entries_with_seek`, which succeeds on an archive no walk has
/// started on (its reader is still at position 0).
#[verifier::external_body]
fn tar_walk<'b, 'a>(t: &'b mut TarIn<'a>) -> (r: Result<TarWalk<'b, 'a>, std::io::Error>)
    requires
        tar_in_fresh(*old(t)),
    ensures
        r is Ok,
        r matches Ok(w) ==> walk_bytes(w) == tar_in_bytes(*old(t)) && walk_index(w) == 0,
{
    t.inner.entries_with_seek().map(|inner| TarWalk { inner })
}

/// Takes the walk's next entry (`next`): its `path()`, whether
/// `header().entry_type().is_dir()`, and at most `limit` of its bytes;
/// `None` past the last entry.
#[verifier::external_body]
fn tar_next(w: &mut TarWalk, limit: u64) -> (r: Result<Option<(String, bool, Vec<u8>)>, ArchiveFailure>)
    ensures
        walk_bytes(*final(w)) == walk_bytes(*old(w)),
        walk_index(*final(w)) == walk_index(*old(w)) + 1,
        match r {
            Ok(None) => tar_entry(walk_bytes(*old(w)), walk_index(*old(w)), limit as nat) == Some(None::<RawEntry>),
            Ok(Some((n, d, data))) => tar_entry(walk_bytes(*old(w)), walk_index(*old(w)), limit as nat) == Some(
                Some((n@, d, data@)),
            ),
            Err(_) => tar_entry(walk_bytes(*old(w)), walk_index(*old(w)), limit as nat) is None,
        },
{
    let mut entry = match w.inner.next() {
        None => return Ok(None),
        Some(entry) => entry.map_err(|e| ArchiveFailure::Corrupt(e.to_string()))?,
    };
    let is_dir = entry.header().entry_type().is_dir();
    let name = entry.path().map_err(|e| ArchiveFailure::Corrupt(e.to_string()))?.to_string_lossy().into_owned();
    let mut data = Vec::new();
    (&mut entry).take(limit).read_to_end(&mut data).map_err(ArchiveFailure::Io)?;
    Ok(Some((name, is_dir, data)))
}

/// What reading the TAR archive `bytes` comes to once the entries before
/// index `raw.len()` were read as `raw` and all fit: each entry is read
/// up to one byte past the per-entry budget, until the archive ends.
pub open spec fn tar_from(bytes: Seq<u8>, raw: Seq<RawEntry>) -> Listing
    decreases MAX_ENTRY_COUNT - raw.len(),
{
    match tar_entry(bytes, raw.len(), (MAX_ENTRY_UNCOMPRESSED_BYTES + 1) as nat) {
        None => Listing::Unreadable,
        Some(None) => finish_listing(raw),
        Some(Some(e)) => match fit_error(raw.len(), file_total(raw), e, "TAR entry"@) {
            Some(m) => Listing::Refused(m),
            None => tar_from(bytes, raw.push(e)),
        },
    }
}

/// A TAR listing has no container to fail on: it never comes to
/// `NotArchive`.
proof fn lemma_tar_from_is_archive(bytes: Seq<u8>, raw: Seq<RawEntry>)
    ensures
        !(tar_from(bytes, raw) is NotArchive),
    decreases MAX_ENTRY_COUNT - raw.len(),
{
    match tar_entry(bytes, raw.len(), (MAX_ENTRY_UNCOMPRESSED_BYTES + 1) as nat) {
        Some(Some(e)) => {
            if fit_error(raw.len(), file_total(raw), e, "TAR entry"@) is None {
                lemma_tar_from_is_archive(bytes, raw.push(e));
            }
        },
        _ => {},
    }
}

/// What reading the TAR archive `bytes` comes to.
pub open spec fn spec_tar_read(bytes: Seq<u8>) -> Listing {
    tar_from(bytes, Seq::empty())
}

/// Every entry of the TAR archive `bytes`, checked in order: an entry
/// that cannot be read gives a `Decode` error (`corrupt TAR entry: ` and
/// the crate's reason) or, when its bytes fail to read, an `Io` error; the first entry
/// refused by [`fit_error`] (the entry after the last one the count budget
/// allows among them) an `Other` error with that message; two entries at
/// one path an `Other` error naming the first that repeats; otherwise the
/// entries, as [`spec_tar_read`] gives them.
pub fn read_tar_entries(bytes: &[u8]) -> (r: Result<Vec<Entry>, ConvertError>)
    ensures
        listing_result(spec_tar_read(bytes@), r, Seq::empty(), "corrupt TAR entry: "@),
{
    let limit: u64 = MAX_ENTRY_UNCOMPRESSED_BYTES + 1;
    let mut archive = tar_open(bytes);
    let mut walk = match tar_walk(&mut archive) {
        Ok(w) => w,
        Err(e) => {
            proof {
                assert(false);
            }
            return Err(ConvertError::Io(e));
        },
    };
    let ghost mut raw: Seq<RawEntry> = Seq::empty();
    let mut collector = EntryCollector::new();
    proof {
        assert(entry_views(collector.entries()) =~= raw_entries(raw));
    }
    for i in 0..MAX_ENTRY_COUNT + 1
        invariant
            limit == MAX_ENTRY_UNCOMPRESSED_BYTES + 1,
            spec_tar_read(bytes@) == tar_from(bytes@, raw),
            walk_bytes(walk) == bytes@,
            walk_index(walk) == i,
            raw.len() == i,
            collector.wf(),
            collector.entries().len() == i,
            entry_views(collector.entries()) == raw_entries(raw),
            collector.total() == file_total(raw),
    {
        match tar_next(&mut walk, limit) {
            Err(f) => {
                return Err(failure_error(f, "corrupt TAR entry: "));
            },
            Ok(None) => {
                return finish_collected(collector, Ghost(raw));
            },
            Ok(Some((name, is_dir, data))) => {
                let ghost e: RawEntry = (name@, is_dir, data@);
                let step = take_raw(&mut collector, name, is_dir, data, "TAR entry");
                proof {
                    reveal_strlit("TAR entry");
                }
                match step {
                    Err(err) => {
                        return Err(err);
                    },
                    Ok(()) => {
                        proof {
                            assert(raw_entries(raw.push(e)) =~= raw_entries(raw).push(raw_entry(e)));
                            assert(raw.push(e).drop_last() =~= raw);
                            raw = raw.push(e);
                        }
                    },
                }
            },
        }
    }
    proof {
        collector.lemma_within_budgets();
    }
    Err(ConvertError::Other("archive contains more than 100000 entries".to_owned()))
}

/// What `flate2::read::GzDecoder` gives for `bytes`: the file name in the
/// GZIP header (read lossily as UTF-8), if any, and at most `limit` of the
/// inflated bytes; `None` when inflating fails.
pub uninterp spec fn gunzipped(bytes: Seq<u8>, limit: nat) -> Option<(Option<Seq<char>>, Seq<u8>)>;

/// Opens `bytes` with `flate2::read::GzDecoder::new`, takes the header's
/// `filename()`, and reads at most `limit` inflated bytes.
#[verifier::external_body]
fn gunzip(bytes: &[u8], limit: u64) -> (r: Result<(Option<String>, Vec<u8>), std::io::Error>)
    ensures
        match r {
            Ok((name, data)) => gunzipped(bytes@, limit as nat) == Some(
                (
                    match name {
                        Some(n) => Some(n@),
                        None => None,
                    },
                    data@,
                ),
            ),
            Err(_) => gunzipped(bytes@, limit as nat) is None,
        },
{
    let mut decoder = flate2::read::GzDecoder::new(bytes);
    let name = decoder.header().and_then(|h| h.filename()).map(|b| String::from_utf8_lossy(b).into_owned());
    let mut data = Vec::new();
    (&mut decoder).take(limit).read_to_end(&mut data)?;
    Ok((name, data))
}

/// What a GZIP stream that is not a tarball comes to: one file named by
/// its header's file name, else the source's stem, else `payload`.
pub open spec fn spec_bare_gzip(data: Seq<u8>, name: Option<Seq<char>>, source: Seq<char>) -> Listing {
    let n = match name {
        Some(x) => x,
        None => match file_stem(source) {
            Some(st) => st,
            None => "payload"@,
        },
    };
    if data.len() > MAX_ENTRY_UNCOMPRESSED_BYTES {
        Listing::Refused(oversized_message(data.len() as u64))
    } else {
        match spec_sanitize(n) {
            None => Listing::Refused(drive_letter_message(n)),
            Some(p) => Listing::Entries(seq![(p, false, data)]),
        }
    }
}

/// What reading the GZIP stream `bytes` from the file `source` comes to: a
/// tarball inside is read as TAR, any other stream is one file.
pub open spec fn spec_gzip_read(bytes: Seq<u8>, source: Seq<char>) -> Listing {
    match gunzipped(bytes, (MAX_TOTAL_UNCOMPRESSED_BYTES + 1) as nat) {
        None => Listing::NotArchive,
        Some((name, data)) => if data.len() > MAX_TOTAL_UNCOMPRESSED_BYTES {
            Listing::Refused(over_limit_message("GZIP stream"@, MAX_TOTAL_UNCOMPRESSED_BYTES))
        } else if spec_looks_like_tar(data) {
            spec_tar_read(data)
        } else {
            spec_bare_gzip(data, name, source)
        },
    }
}

/// Every entry of the GZIP stream `bytes` (read from the file `source`),
/// checked: a stream that does not inflate gives a `Decode` error (`not a
/// valid GZIP file: ` and the reason), one that inflates past the total
/// budget an `Other` error; a tarball inside is read as
/// [`read_tar_entries`] reads it, any other stream becomes one file, as
/// [`spec_gzip_read`] says.
pub fn read_gzip_entries(bytes: &[u8], source: &str) -> (r: Result<Vec<Entry>, ConvertError>)
    ensures
        listing_result(spec_gzip_read(bytes@, source@), r, "not a valid GZIP file: "@, "corrupt TAR entry: "@),
{
    let (name, raw) = match gunzip(bytes, MAX_TOTAL_UNCOMPRESSED_BYTES + 1) {
        Ok(x) => x,
        Err(e) => {
            let mut d = chars_of("not a valid GZIP file: ");
            let t = io_error_text(&e);
            push_str(&mut d, t.as_str());
            proof {
                assert(d@.take("not a valid GZIP file: "@.len() as int) =~= "not a valid GZIP file: "@);
            }
            return Err(ConvertError::Decode(string_from_chars(&d)));
        },
    };
    let buffer = match read_bounded(raw, MAX_TOTAL_UNCOMPRESSED_BYTES, "GZIP stream") {
        Ok(b) => b,
        Err(e) => return Err(e),
    };
    if looks_like_tar(buffer.as_slice()) {
        proof {
            lemma_tar_from_is_archive(buffer@, Seq::empty());
        }
        return read_tar_entries(buffer.as_slice());
    }
    let r = bare_gzip_entries(buffer, name, source);
    proof {
        if r is Ok {
            let v = r->Ok_0;
            assert(entry_views(v@) =~= seq![(v@[0].path@, false, v@[0].data@)]);
        }
    }
    r
}

} // verus!
