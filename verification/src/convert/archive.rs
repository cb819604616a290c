//! Archive <-> archive conversion decisions (every pairwise ZIP/TAR/GZIP/RAR
//! combination) and Extract Archive: which formats convert to which, how a
//! gzipped tarball's output is named, how archive entry paths are
//! sanitized, the decompression budgets, and the hand-written RAR5
//! (store-method) container writer.
use crate::convert::error::ConvertError;
use crate::convert::naming::{
    contains_name, file_stem, file_stem_of, output_dir_path, output_path, parent_prefix, parent_prefix_of,
    output_path_with_suffix, placed_at, placed_split, unique_output_path,
};
use crate::convert::string_views;
use crate::ext::{ext_name, ext_names, ext_strs, parse_ext, parse_ext_chars, str_views, Ext};
use crate::file_type::{extension_of, is_sep, spec_extension_of};
use crate::text::{
    ascii_lower, ascii_lowercase, chars_eq, chars_of, decimal, decimal_chars, push_all, push_str,
    string_from_chars, sub_chars, to_lowercase, unicode_lowercase,
};
use vstd::hash_set::StringHashSet;
use vstd::prelude::*;

verus! {

/// One entry read out of a source archive: a directory marker or a file
/// with its raw, already decompressed bytes.
pub struct Entry {
    /// `/`-separated relative path inside the archive, already sanitized
    /// (see [`sanitize_path`]).
    pub path: String,
    /// Whether this entry is a directory (its `data` is then empty).
    pub is_dir: bool,
    /// The entry's uncompressed bytes.
    pub data: Vec<u8>,
}

/// The four archive formats.
#[derive(Clone, Copy, Debug, PartialEq, Eq, Structural)]
pub enum Format {
    /// `.zip`
    Zip,
    /// `.tar`
    Tar,
    /// `.gz` (a bare gzipped file or a gzipped tarball), `.tgz` on input
    Gzip,
    /// `.rar`
    Rar,
}

/// The source format an extension spelling names: `tgz` is accepted as a
/// gzipped tarball on input.
pub open spec fn source_format_of(e: Option<Ext>) -> Option<Format> {
    match e {
        Some(Ext::Zip) => Some(Format::Zip),
        Some(Ext::Tar) => Some(Format::Tar),
        Some(Ext::Gz) | Some(Ext::Tgz) => Some(Format::Gzip),
        Some(Ext::Rar) => Some(Format::Rar),
        _ => None,
    }
}

/// The target format an extension spelling names: `tgz` is never produced.
pub open spec fn target_format_of(e: Option<Ext>) -> Option<Format> {
    match e {
        Some(Ext::Tgz) => None,
        _ => source_format_of(e),
    }
}

/// Parses a source file's (lower-case) extension into a [`Format`].
pub fn parse_source_format(ext: &str) -> (r: Option<Format>)
    ensures
        r == source_format_of(parse_ext(ext@)),
{
    let chars = chars_of(ext);
    match parse_ext_chars(&chars) {
        Some(Ext::Zip) => Some(Format::Zip),
        Some(Ext::Tar) => Some(Format::Tar),
        Some(Ext::Gz) | Some(Ext::Tgz) => Some(Format::Gzip),
        Some(Ext::Rar) => Some(Format::Rar),
        _ => None,
    }
}

/// Parses a requested target extension into a [`Format`]; unlike
/// [`parse_source_format`], `tgz` is refused.
pub fn parse_target_format(ext: &str) -> (r: Option<Format>)
    ensures
        r == target_format_of(parse_ext(ext@)),
{
    let chars = chars_of(ext);
    match parse_ext_chars(&chars) {
        Some(Ext::Zip) => Some(Format::Zip),
        Some(Ext::Tar) => Some(Format::Tar),
        Some(Ext::Gz) => Some(Format::Gzip),
        Some(Ext::Rar) => Some(Format::Rar),
        _ => None,
    }
}

/// The targets offered for each source format.
pub open spec fn archive_targets(f: Option<Format>) -> Seq<Ext> {
    match f {
        Some(Format::Zip) => seq![Ext::Tar, Ext::Gz, Ext::Rar],
        Some(Format::Tar) => seq![Ext::Zip, Ext::Gz, Ext::Rar],
        Some(Format::Gzip) => seq![Ext::Zip, Ext::Tar, Ext::Rar],
        Some(Format::Rar) => seq![Ext::Zip, Ext::Tar, Ext::Gz],
        None => seq![],
    }
}

/// The archive formats and the extension each is written with, in the
/// order targets are listed.
pub open spec fn archive_formats() -> Seq<(Format, Ext)> {
    seq![(Format::Zip, Ext::Zip), (Format::Tar, Ext::Tar), (Format::Gzip, Ext::Gz), (Format::Rar, Ext::Rar)]
}

/// Each archive format converts to each other one, listed in
/// [`archive_formats`] order by their extensions; an extension reads as
/// its format, `tgz` reads as GZIP but is never a target, and nothing
/// else is an archive format.
pub proof fn lemma_archive_target_matrix(e: Option<Ext>)
    ensures
        forall|i: int|
            0 <= i < archive_formats().len() ==> #[trigger] archive_targets(Some(archive_formats()[i].0))
                == archive_formats().remove(i).map_values(|p: (Format, Ext)| p.1),
        forall|i: int|
            0 <= i < archive_formats().len() ==> source_format_of(Some(#[trigger] archive_formats()[i].1)) == Some(
                archive_formats()[i].0,
            ) && target_format_of(Some(archive_formats()[i].1)) == Some(archive_formats()[i].0),
        source_format_of(Some(Ext::Tgz)) == Some(Format::Gzip),
        target_format_of(Some(Ext::Tgz)) is None,
        !(e == Some(Ext::Zip) || e == Some(Ext::Tar) || e == Some(Ext::Gz) || e == Some(Ext::Tgz) || e == Some(
            Ext::Rar,
        )) ==> source_format_of(e) is None,
{
    let v = archive_formats();
    assert forall|i: int|
        0 <= i < archive_formats().len() implies #[trigger] archive_targets(Some(archive_formats()[i].0))
            == archive_formats().remove(i).map_values(|p: (Format, Ext)| p.1) by {
        assert(v.remove(i) =~= v.subrange(0, i) + v.subrange(i + 1, 4));
        let w = v.remove(i).map_values(|p: (Format, Ext)| p.1);
        if i == 0 {
            assert(archive_targets(Some(v[i].0)) =~= w);
        } else if i == 1 {
            assert(archive_targets(Some(v[i].0)) =~= w);
        } else if i == 2 {
            assert(archive_targets(Some(v[i].0)) =~= w);
        } else {
            assert(archive_targets(Some(v[i].0)) =~= w);
        }
    }
}

/// The targets `supported_targets` lists for the spelling `s`.
pub open spec fn spec_archive_targets(s: Seq<char>) -> Seq<Seq<char>> {
    ext_names(archive_targets(source_format_of(parse_ext(unicode_lowercase(s)))))
}

/// Extensions this family can produce from `source_ext` (compared
/// case-insensitively), excluding its own format.
pub fn supported_targets(source_ext: &str) -> (r: Vec<&'static str>)
    ensures
        str_views(r@) == spec_archive_targets(source_ext@),
{
    let lower = to_lowercase(source_ext);
    let format = parse_source_format(lower.as_str());
    let targets: Vec<Ext> = match format {
        Some(Format::Zip) => vec![Ext::Tar, Ext::Gz, Ext::Rar],
        Some(Format::Tar) => vec![Ext::Zip, Ext::Gz, Ext::Rar],
        Some(Format::Gzip) => vec![Ext::Zip, Ext::Tar, Ext::Rar],
        Some(Format::Rar) => vec![Ext::Zip, Ext::Tar, Ext::Gz],
        None => vec![],
    };
    ext_strs(&targets)
}


/// Upper bound on one entry's decompressed size.
pub const MAX_ENTRY_UNCOMPRESSED_BYTES: u64 = 256 * 1024 * 1024;

/// Upper bound on the total decompressed size of one archive.
pub const MAX_TOTAL_UNCOMPRESSED_BYTES: u64 = 512 * 1024 * 1024;

/// Upper bound on how many entries one archive may hold.
pub const MAX_ENTRY_COUNT: usize = 100_000;

/// The message for an entry that decompresses past `limit`.
pub open spec fn over_limit_message(label: Seq<char>, limit: u64) -> Seq<char> {
    label + " decompresses to more than the "@ + decimal(limit as nat) + "-byte per-entry limit"@
}

/// The result of reading an entry through a reader cut off at `limit + 1`
/// bytes: `data` is what was read. Rejects a stream that still had bytes
/// past the limit rather than silently truncating it.
pub fn read_bounded(data: Vec<u8>, limit: u64, label: &str) -> (r: Result<Vec<u8>, ConvertError>)
    ensures
        data@.len() <= limit ==> (r matches Ok(d) && d@ == data@),
        data@.len() > limit ==> (r matches Err(ConvertError::Other(m)) && m@ == over_limit_message(
            label@,
            limit,
        )),
{
    let n = data.len();
    if n as u64 > limit {
        let mut m = chars_of(label);
        push_str(&mut m, " decompresses to more than the ");
        let digits = decimal_chars(limit);
        push_all(&mut m, &digits);
        push_str(&mut m, "-byte per-entry limit");
        return Err(ConvertError::Other(string_from_chars(&m)));
    }
    Ok(data)
}

/// The message for an entry whose header declares `size` bytes, past the
/// per-entry limit.
pub open spec fn oversized_message(size: u64) -> Seq<char> {
    "archive entry claims "@ + decimal(size as nat)
        + " uncompressed bytes, exceeding the 268435456-byte per-entry limit"@
}

/// Rejects an entry whose header declares more uncompressed bytes than the
/// per-entry budget, before any of them are materialized.
pub fn reject_oversized_entry(size: u64) -> (r: Result<(), ConvertError>)
    ensures
        size <= MAX_ENTRY_UNCOMPRESSED_BYTES ==> r is Ok,
        size > MAX_ENTRY_UNCOMPRESSED_BYTES ==> (r matches Err(ConvertError::Other(m)) && m@
            == oversized_message(size)),
{
    if size > MAX_ENTRY_UNCOMPRESSED_BYTES {
        let mut m = chars_of("archive entry claims ");
        let digits = decimal_chars(size);
        push_all(&mut m, &digits);
        push_str(&mut m, " uncompressed bytes, exceeding the 268435456-byte per-entry limit");
        return Err(ConvertError::Other(string_from_chars(&m)));
    }
    Ok(())
}

/// The refusal for an archive whose entries are password-protected.
pub open spec fn rar_password_message() -> Seq<char> {
    "password-protected RAR archives are not supported"@
}

/// Refuses a RAR archive whose name marks it as one part of a multi-part
/// set, before it is opened.
pub fn rar_name_check(named_as_part: bool) -> (r: Result<(), ConvertError>)
    ensures
        !named_as_part ==> r is Ok,
        named_as_part ==> (r matches Err(ConvertError::Other(m)) && m@
            == "multivolume RAR archives (.partN.rar / .rNN) are not supported"@),
{
    if named_as_part {
        return Err(ConvertError::Other("multivolume RAR archives (.partN.rar / .rNN) are not supported".to_owned()));
    }
    Ok(())
}

/// Refuses an opened RAR archive whose headers are encrypted, or which is a
/// volume of a multi-volume set.
pub fn rar_opened_check(encrypted_headers: bool, volume: bool) -> (r: Result<(), ConvertError>)
    ensures
        encrypted_headers ==> (r matches Err(ConvertError::Other(m)) && m@ == rar_password_message()),
        !encrypted_headers && volume ==> (r matches Err(ConvertError::Other(m)) && m@
            == "multivolume RAR archives are not supported"@),
        !encrypted_headers && !volume ==> r is Ok,
{
    if encrypted_headers {
        return Err(ConvertError::Other("password-protected RAR archives are not supported".to_owned()));
    }
    if volume {
        return Err(ConvertError::Other("multivolume RAR archives are not supported".to_owned()));
    }
    Ok(())
}

/// What the RAR reader does with the entry whose header it just read.
#[derive(Clone, Copy, Debug, PartialEq, Eq, Structural)]
pub enum RarEntryStep {
    /// A directory: skip its (empty) data and record the directory.
    SkipDirectory,
    /// A file within the per-entry budget: read its data.
    ReadFile,
}

/// The step for a RAR entry from its header, with the entry's sanitized
/// path: an encrypted entry is refused, then an unsafe name; a directory is
/// skipped, and a file read unless its declared size is past the per-entry
/// budget.
pub fn rar_entry_step(encrypted: bool, is_dir: bool, unpacked_size: u64, name: &str) -> (r: Result<
    (RarEntryStep, String),
    ConvertError,
>)
    ensures
        encrypted ==> (r matches Err(ConvertError::Other(m)) && m@ == rar_password_message()),
        !encrypted ==> match spec_sanitize(name@) {
            None => r matches Err(ConvertError::Other(m)) && m@
                == "refusing archive entry with a drive-letter path: "@ + debug_quoted(name@),
            Some(p) => if is_dir {
                r matches Ok((step, path)) && step == RarEntryStep::SkipDirectory && path@ == p
            } else if unpacked_size <= MAX_ENTRY_UNCOMPRESSED_BYTES {
                r matches Ok((step, path)) && step == RarEntryStep::ReadFile && path@ == p
            } else {
                r matches Err(ConvertError::Other(m)) && m@ == oversized_message(unpacked_size)
            },
        },
{
    if encrypted {
        return Err(ConvertError::Other("password-protected RAR archives are not supported".to_owned()));
    }
    let path = match sanitize_path(name) {
        Err(e) => return Err(e),
        Ok(p) => p,
    };
    if is_dir {
        return Ok((RarEntryStep::SkipDirectory, path));
    }
    match reject_oversized_entry(unpacked_size) {
        Err(e) => Err(e),
        Ok(()) => Ok((RarEntryStep::ReadFile, path)),
    }
}

/// The error for a failure the RAR library reported: a missing or wrong
/// password is refused as unsupported; anything else is a read error with
/// the library's own text as detail.
pub fn rar_failure(password: bool, detail: String) -> (r: ConvertError)
    ensures
        password ==> (r matches ConvertError::Other(m) && m@ == rar_password_message()),
        !password ==> (r matches ConvertError::Decode(d) && d@ == "RAR error: "@ + detail@),
{
    if password {
        ConvertError::Other("password-protected RAR archives are not supported".to_owned())
    } else {
        let mut d = chars_of("RAR error: ");
        push_str(&mut d, detail.as_str());
        ConvertError::Decode(string_from_chars(&d))
    }
}

/// Adds `size` materialized bytes to the archive-wide running `total`,
/// rejecting the archive once the total passes the budget (the total is
/// updated either way).
pub fn account_uncompressed(total: &mut u64, size: u64) -> (r: Result<(), ConvertError>)
    requires
        old(total) + size <= u64::MAX,
    ensures
        *final(total) == *old(total) + size,
        *final(total) <= MAX_TOTAL_UNCOMPRESSED_BYTES ==> r is Ok,
        *final(total) > MAX_TOTAL_UNCOMPRESSED_BYTES ==> (r matches Err(ConvertError::Other(m)) && m@
            == "archive decompresses to more than the 536870912-byte total limit"@),
{
    *total = *total + size;
    if *total > MAX_TOTAL_UNCOMPRESSED_BYTES {
        return Err(
            ConvertError::Other("archive decompresses to more than the 536870912-byte total limit".to_owned()),
        );
    }
    Ok(())
}

/// Appends `entry`, rejecting the archive once it already holds the
/// maximum number of entries.
pub fn push_entry(entries: &mut Vec<Entry>, entry: Entry) -> (r: Result<(), ConvertError>)
    ensures
        old(entries)@.len() < MAX_ENTRY_COUNT ==> r is Ok && final(entries)@ == old(entries)@.push(entry),
        old(entries)@.len() >= MAX_ENTRY_COUNT ==> final(entries)@ == old(entries)@,
        old(entries)@.len() >= MAX_ENTRY_COUNT ==> (r matches Err(ConvertError::Other(m)) && m@
            == "archive contains more than 100000 entries"@),
{
    if entries.len() >= MAX_ENTRY_COUNT {
        return Err(ConvertError::Other("archive contains more than 100000 entries".to_owned()));
    }
    entries.push(entry);
    Ok(())
}

/// Collects the entries read out of an archive, holding them to the
/// archive-wide budgets: at most [`MAX_ENTRY_COUNT`] entries and
/// [`MAX_TOTAL_UNCOMPRESSED_BYTES`] file bytes in all.
pub struct EntryCollector {
    entries: Vec<Entry>,
    total: u64,
}

impl EntryCollector {
    /// The entries taken so far, in order.
    pub closed spec fn entries(&self) -> Seq<Entry> {
        self.entries@
    }

    /// The file bytes taken so far.
    pub closed spec fn total(&self) -> nat {
        self.total as nat
    }

    /// Both budgets hold.
    pub closed spec fn wf(&self) -> bool {
        self.total <= MAX_TOTAL_UNCOMPRESSED_BYTES && self.entries@.len() <= MAX_ENTRY_COUNT
    }

    /// A well-formed collector is within its budgets.
    pub proof fn lemma_within_budgets(&self)
        requires
            self.wf(),
        ensures
            self.total() <= MAX_TOTAL_UNCOMPRESSED_BYTES,
            self.entries().len() <= MAX_ENTRY_COUNT,
    {
    }

    /// A collector that holds nothing.
    pub fn new() -> (r: Self)
        ensures
            r.wf(),
            r.entries() == Seq::<Entry>::empty(),
            r.total() == 0,
    {
        EntryCollector { entries: Vec::new(), total: 0 }
    }

    /// Takes a directory entry at the sanitized `path`; refused once the
    /// archive already holds the maximum number of entries.
    pub fn add_dir(&mut self, path: String) -> (r: Result<(), ConvertError>)
        requires
            old(self).wf(),
        ensures
            final(self).wf(),
            final(self).total() == old(self).total(),
            old(self).entries().len() < MAX_ENTRY_COUNT ==> {
                &&& r is Ok
                &&& final(self).entries().len() == old(self).entries().len() + 1
                &&& final(self).entries().take(old(self).entries().len() as int) == old(self).entries()
                &&& final(self).entries().last().path == path
                &&& final(self).entries().last().is_dir
                &&& final(self).entries().last().data@.len() == 0
            },
            old(self).entries().len() >= MAX_ENTRY_COUNT ==> (r matches Err(ConvertError::Other(m)) && m@
                == "archive contains more than 100000 entries"@ && final(self).entries() == old(self).entries()),
    {
        let ghost before = self.entries@;
        let r = push_entry(&mut self.entries, Entry { path, is_dir: true, data: Vec::new() });
        proof {
            if before.len() < MAX_ENTRY_COUNT {
                assert(self.entries@.take(before.len() as int) =~= before);
            }
        }
        r
    }

    /// Takes a file entry at the sanitized `path` holding `data`: its bytes
    /// count towards the archive-wide total first, then towards the entry
    /// count. A refused entry leaves the collector as it was.
    pub fn add_file(&mut self, path: String, data: Vec<u8>) -> (r: Result<(), ConvertError>)
        requires
            old(self).wf(),
        ensures
            final(self).wf(),
            old(self).total() + data@.len() > MAX_TOTAL_UNCOMPRESSED_BYTES ==> (r matches Err(ConvertError::Other(m)) && m@
                == "archive decompresses to more than the 536870912-byte total limit"@),
            old(self).total() + data@.len() <= MAX_TOTAL_UNCOMPRESSED_BYTES && old(self).entries().len()
                >= MAX_ENTRY_COUNT ==> (r matches Err(ConvertError::Other(m)) && m@
                == "archive contains more than 100000 entries"@),
            r is Err ==> final(self).entries() == old(self).entries() && final(self).total() == old(self).total(),
            old(self).total() + data@.len() <= MAX_TOTAL_UNCOMPRESSED_BYTES && old(self).entries().len()
                < MAX_ENTRY_COUNT ==> r is Ok,
            r is Ok ==> {
                &&& old(self).total() + data@.len() <= MAX_TOTAL_UNCOMPRESSED_BYTES
                &&& old(self).entries().len() < MAX_ENTRY_COUNT
                &&& final(self).total() == old(self).total() + data@.len()
                &&& final(self).entries().len() == old(self).entries().len() + 1
                &&& final(self).entries().take(old(self).entries().len() as int) == old(self).entries()
                &&& final(self).entries().last().path == path
                &&& !final(self).entries().last().is_dir
                &&& final(self).entries().last().data@ == data@
            },
    {
        let n = data.len();
        if n as u64 > MAX_TOTAL_UNCOMPRESSED_BYTES - self.total {
            return Err(
                ConvertError::Other("archive decompresses to more than the 536870912-byte total limit".to_owned()),
            );
        }
        let mut total = self.total;
        let ok = account_uncompressed(&mut total, n as u64);
        if ok.is_err() {
            return ok;
        }
        let ghost before = self.entries@;
        if self.entries.len() >= MAX_ENTRY_COUNT {
            return Err(ConvertError::Other("archive contains more than 100000 entries".to_owned()));
        }
        self.entries.push(Entry { path, is_dir: false, data });
        self.total = total;
        proof {
            assert(self.entries@.take(before.len() as int) =~= before);
        }
        Ok(())
    }

    /// The entries taken, once no two of them share a path (ignoring ASCII
    /// case): the check [`ensure_unique_paths`] makes.
    pub fn finish(self) -> (r: Result<Vec<Entry>, ConvertError>)
        ensures
            r is Ok <==> forall|i: int, j: int|
                0 <= i < j < self.entries().len() ==> lower_paths(self.entries())[i] != lower_paths(
                    self.entries(),
                )[j],
            r matches Ok(v) ==> v@ == self.entries(),
            r is Err ==> exists|j: int|
                #![trigger self.entries()[j]]
                0 <= j < self.entries().len() && (exists|i: int|
                    0 <= i < j && lower_paths(self.entries())[i] == lower_paths(self.entries())[j]) && (forall|
                    k: int,
                    l: int,
                | 0 <= k < l < j ==> lower_paths(self.entries())[k] != lower_paths(self.entries())[l]) && (r matches Err(
                    ConvertError::Other(m),
                ) && m@ == duplicate_message(self.entries()[j].path@)),
    {
        let slice = self.entries.as_slice();
        let checked = ensure_unique_paths(slice);
        proof {
            assert(slice@ == self.entries@);
        }
        let ghost es = self.entries();
        assert(es == slice@);
        match checked {
            Ok(()) => {
                assert(forall|i: int, j: int|
                    0 <= i < j < es.len() ==> lower_paths(es)[i] != lower_paths(es)[j]);
                Ok(self.entries)
            },
            Err(e) => Err(e),
        }
    }
}

/// How many entries the `tar` crate reads out of `bytes` as a TAR stream,
/// or `None` when it fails on the stream or on one of its entries.
pub uninterp spec fn tar_entry_count(bytes: Seq<u8>) -> Option<nat>;

/// Walks `bytes` with `tar::Archive::entries`, collecting every entry
/// header; the count is named `tar_entry_count`.
#[verifier::external_body]
fn count_tar_entries(bytes: &[u8]) -> (r: Option<usize>)
    ensures
        match r {
            Some(n) => tar_entry_count(bytes@) == Some(n as nat),
            None => tar_entry_count(bytes@) is None,
        },
{
    let mut archive = tar::Archive::new(std::io::Cursor::new(bytes));
    let entries = archive.entries().ok()?;
    let all: std::io::Result<Vec<_>> = entries.collect();
    match all {
        Ok(v) => Some(v.len()),
        Err(_) => None,
    }
}

/// Whether a decompressed GZIP payload is a TAR stream: a non-empty
/// multiple of 512 bytes whose every entry header parses, with at least one entry.
pub open spec fn spec_looks_like_tar(bytes: Seq<u8>) -> bool {
    bytes.len() >= 512 && bytes.len() % 512 == 0 && (tar_entry_count(bytes) matches Some(n) && n > 0)
}

/// Tells a gzipped tarball's payload from a bare gzipped file's.
pub fn looks_like_tar(buffer: &[u8]) -> (r: bool)
    ensures
        r == spec_looks_like_tar(buffer@),
{
    if buffer.len() < 512 || buffer.len() % 512 != 0 {
        return false;
    }
    match count_tar_entries(buffer) {
        Some(n) => n > 0,
        None => false,
    }
}

/// What `{:?}` formatting of a string gives: the string in double quotes
/// with quotes, backslashes and control characters escaped.
pub uninterp spec fn debug_quoted(s: Seq<char>) -> Seq<char>;

/// `format!("{:?}", s)`: the result is the name above applied to `s`.
#[verifier::external_body]
fn debug_str(s: &str) -> (r: String)
    ensures
        r@ == debug_quoted(s@),
{
    format!("{:?}", s)
}

/// The components of `s` between separators (`/` or `\`), empty ones
/// included.
pub open spec fn split_parts(s: Seq<char>) -> Seq<Seq<char>>
    decreases s.len(),
{
    if s.len() == 0 {
        seq![Seq::empty()]
    } else {
        let prev = split_parts(s.drop_last());
        if is_sep(s.last()) {
            prev.push(Seq::empty())
        } else {
            prev.update(prev.len() - 1, prev.last().push(s.last()))
        }
    }
}

proof fn lemma_split_parts_nonempty(s: Seq<char>)
    ensures
        split_parts(s).len() >= 1,
    decreases s.len(),
{
    if s.len() > 0 {
        lemma_split_parts_nonempty(s.drop_last());
    }
}

/// A component that survives sanitizing: not empty, `.` or `..`.
pub open spec fn keeps_part(p: Seq<char>) -> bool {
    p.len() > 0 && p != seq!['.'] && p != seq!['.', '.']
}

/// The components of `parts` that survive sanitizing, in order.
pub open spec fn kept_parts(parts: Seq<Seq<char>>) -> Seq<Seq<char>>
    decreases parts.len(),
{
    if parts.len() == 0 {
        Seq::empty()
    } else if keeps_part(parts.last()) {
        kept_parts(parts.drop_last()).push(parts.last())
    } else {
        kept_parts(parts.drop_last())
    }
}

/// A Windows drive-letter component such as `C:`.
pub open spec fn is_drive_part(p: Seq<char>) -> bool {
    p.len() == 2 && (('a' <= p[0] && p[0] <= 'z') || ('A' <= p[0] && p[0] <= 'Z')) && p[1] == ':'
}

/// The components joined with `/`.
pub open spec fn join_slash(parts: Seq<Seq<char>>) -> Seq<char>
    decreases parts.len(),
{
    if parts.len() == 0 {
        Seq::empty()
    } else if parts.len() == 1 {
        parts[0]
    } else {
        join_slash(parts.drop_last()) + seq!['/'] + parts.last()
    }
}

/// What [`sanitize_path`] makes of `raw`: `None` when a component is a
/// drive letter, otherwise the surviving components joined with `/`, or
/// `_` when none survives.
pub open spec fn spec_sanitize(raw: Seq<char>) -> Option<Seq<char>> {
    let parts = kept_parts(split_parts(raw));
    if exists|i: int| 0 <= i < parts.len() && #[trigger] is_drive_part(parts[i]) {
        None
    } else if parts.len() == 0 {
        Some(seq!['_'])
    } else {
        Some(join_slash(parts))
    }
}

/// No character of `s` is a separator.
pub open spec fn no_sep(s: Seq<char>) -> bool {
    forall|i: int| 0 <= i < s.len() ==> !is_sep(#[trigger] s[i])
}

proof fn lemma_split_parts_no_sep(s: Seq<char>)
    ensures
        forall|i: int| 0 <= i < split_parts(s).len() ==> no_sep(#[trigger] split_parts(s)[i]),
    decreases s.len(),
{
    if s.len() > 0 {
        lemma_split_parts_no_sep(s.drop_last());
        lemma_split_parts_nonempty(s.drop_last());
        let prev = split_parts(s.drop_last());
        if !is_sep(s.last()) {
            assert forall|i: int| 0 <= i < split_parts(s).len() implies no_sep(#[trigger] split_parts(s)[i]) by {
                if i == prev.len() - 1 {
                    let w = prev.last().push(s.last());
                    assert(no_sep(prev[prev.len() - 1]));
                    assert forall|j: int| 0 <= j < w.len() implies !is_sep(#[trigger] w[j]) by {
                        if j < w.len() - 1 {
                            assert(w[j] == prev[prev.len() - 1][j]);
                        }
                    }
                }
            }
        } else {
            assert forall|i: int| 0 <= i < split_parts(s).len() implies no_sep(#[trigger] split_parts(s)[i]) by {
                if i < prev.len() {
                    assert(split_parts(s)[i] == prev[i]);
                }
            }
        }
    }
}

proof fn lemma_kept_parts_keep(ps: Seq<Seq<char>>)
    ensures
        forall|i: int| 0 <= i < kept_parts(ps).len() ==> keeps_part(#[trigger] kept_parts(ps)[i]),
        forall|i: int| 0 <= i < kept_parts(ps).len() ==> ps.contains(#[trigger] kept_parts(ps)[i]),
    decreases ps.len(),
{
    if ps.len() > 0 {
        lemma_kept_parts_keep(ps.drop_last());
        let prev = kept_parts(ps.drop_last());
        assert forall|i: int| 0 <= i < kept_parts(ps).len() implies ps.contains(#[trigger] kept_parts(ps)[i]) by {
            if i < prev.len() {
                let k = ps.drop_last().index_of(prev[i]);
                assert(ps[k] == ps.drop_last()[k]);
            } else {
                assert(ps[ps.len() - 1] == ps.last());
            }
        }
    }
}

proof fn lemma_kept_parts_all_kept(ps: Seq<Seq<char>>)
    requires
        forall|i: int| 0 <= i < ps.len() ==> keeps_part(#[trigger] ps[i]),
    ensures
        kept_parts(ps) == ps,
    decreases ps.len(),
{
    if ps.len() > 0 {
        lemma_kept_parts_all_kept(ps.drop_last());
        assert(keeps_part(ps[ps.len() - 1]));
        assert(ps.drop_last().push(ps.last()) =~= ps);
    }
}

proof fn lemma_split_parts_plain(s: Seq<char>)
    requires
        no_sep(s),
    ensures
        split_parts(s) == seq![s],
    decreases s.len(),
{
    if s.len() > 0 {
        assert(no_sep(s.drop_last())) by {
            assert forall|i: int| 0 <= i < s.drop_last().len() implies !is_sep(#[trigger] s.drop_last()[i]) by {
                assert(s.drop_last()[i] == s[i]);
            }
        }
        lemma_split_parts_plain(s.drop_last());
        assert(!is_sep(s[s.len() - 1]));
        assert(s.drop_last().push(s.last()) =~= s);
    } else {
        assert(s =~= Seq::<char>::empty());
    }
}

proof fn lemma_split_parts_after_sep(a: Seq<char>, b: Seq<char>)
    requires
        no_sep(b),
    ensures
        split_parts(a + seq!['/'] + b) == split_parts(a).push(b),
    decreases b.len(),
{
    let s = a + seq!['/'] + b;
    if b.len() == 0 {
        assert(s.drop_last() =~= a);
        assert(s.last() == '/');
        assert(b =~= Seq::<char>::empty());
    } else {
        let b1 = b.drop_last();
        assert(no_sep(b1)) by {
            assert forall|i: int| 0 <= i < b1.len() implies !is_sep(#[trigger] b1[i]) by {
                assert(b1[i] == b[i]);
            }
        }
        lemma_split_parts_after_sep(a, b1);
        assert(s.drop_last() =~= a + seq!['/'] + b1);
        assert(s.last() == b[b.len() - 1]);
        assert(!is_sep(b[b.len() - 1]));
        assert(b1.push(b.last()) =~= b);
        assert(split_parts(a).push(b1).update(split_parts(a).len() as int, b1.push(b.last())) =~= split_parts(a).push(b));
    }
}

proof fn lemma_split_join(ps: Seq<Seq<char>>)
    requires
        ps.len() > 0,
        forall|i: int| 0 <= i < ps.len() ==> no_sep(#[trigger] ps[i]),
    ensures
        split_parts(join_slash(ps)) == ps,
    decreases ps.len(),
{
    if ps.len() == 1 {
        lemma_split_parts_plain(ps[0]);
        assert(seq![ps[0]] =~= ps);
    } else {
        let prev = ps.drop_last();
        assert forall|i: int| 0 <= i < prev.len() implies no_sep(#[trigger] prev[i]) by {
            assert(prev[i] == ps[i]);
        }
        lemma_split_join(prev);
        assert(no_sep(ps[ps.len() - 1]));
        lemma_split_parts_after_sep(join_slash(prev), ps.last());
        assert(prev.push(ps.last()) =~= ps);
    }
}

/// A sanitized entry path stays inside the folder it is extracted to:
/// every component is non-empty, neither `.` nor `..`, holds no separator
/// and is no drive letter. Sanitizing it again changes nothing.
pub proof fn lemma_sanitized_path_stays_inside(raw: Seq<char>)
    ensures
        spec_sanitize(raw) matches Some(p) ==> {
            &&& forall|i: int|
                0 <= i < split_parts(p).len() ==> keeps_part(#[trigger] split_parts(p)[i]) && !is_drive_part(
                    split_parts(p)[i],
                ) && no_sep(split_parts(p)[i])
            &&& spec_sanitize(p) == Some(p)
        },
{
    let parts = kept_parts(split_parts(raw));
    lemma_split_parts_no_sep(raw);
    lemma_kept_parts_keep(split_parts(raw));
    if let Some(p) = spec_sanitize(raw) {
        if parts.len() == 0 {
            let u = seq!['_'];
            assert(no_sep(u));
            lemma_split_parts_plain(u);
            assert(keeps_part(u));
            lemma_kept_parts_all_kept(seq![u]);
            assert(!is_drive_part(u));
            assert(kept_parts(split_parts(u)) == seq![u]);
            assert(!(exists|i: int| 0 <= i < seq![u].len() && #[trigger] is_drive_part(seq![u][i])));
        } else {
            assert forall|i: int| 0 <= i < parts.len() implies no_sep(#[trigger] parts[i]) by {
                let k = split_parts(raw).index_of(parts[i]);
                assert(no_sep(split_parts(raw)[k]));
            }
            lemma_split_join(parts);
            lemma_kept_parts_all_kept(parts);
            assert(p == join_slash(parts));
            assert(split_parts(p) == parts);
            assert(!(exists|i: int| 0 <= i < parts.len() && #[trigger] is_drive_part(parts[i])));
        }
    }
}

/// Every kept component of `ps` that keeps is among its kept components.
proof fn lemma_kept_parts_include(ps: Seq<Seq<char>>, j: int)
    requires
        0 <= j < ps.len(),
        keeps_part(ps[j]),
    ensures
        kept_parts(ps).contains(ps[j]),
    decreases ps.len(),
{
    if j < ps.len() - 1 {
        lemma_kept_parts_include(ps.drop_last(), j);
        assert(ps.drop_last()[j] == ps[j]);
        let prev = kept_parts(ps.drop_last());
        let k = choose|k: int| 0 <= k < prev.len() && prev[k] == ps[j];
        if keeps_part(ps.last()) {
            assert(kept_parts(ps)[k] == prev[k]);
        }
    } else {
        assert(kept_parts(ps).last() == ps[j]);
    }
}

/// No character of parts joined with `/` is a backslash, when no part
/// holds a separator.
proof fn lemma_join_slash_no_backslash(parts: Seq<Seq<char>>)
    requires
        forall|k: int| 0 <= k < parts.len() ==> no_sep(#[trigger] parts[k]),
    ensures
        forall|i: int| 0 <= i < join_slash(parts).len() ==> join_slash(parts)[i] != '\\',
        parts.len() > 0 && parts[0].len() > 0 ==> join_slash(parts).len() > 0,
    decreases parts.len(),
{
    if parts.len() > 1 {
        let init = parts.drop_last();
        assert forall|k: int| 0 <= k < init.len() implies no_sep(#[trigger] init[k]) by {
            assert(init[k] == parts[k]);
        }
        lemma_join_slash_no_backslash(init);
        let a = join_slash(init);
        let l = parts.last();
        assert(no_sep(parts[parts.len() - 1]));
        assert forall|i: int| 0 <= i < join_slash(parts).len() implies join_slash(parts)[i] != '\\' by {
            if i < a.len() {
                assert(join_slash(parts)[i] == a[i]);
            } else if i > a.len() {
                assert(join_slash(parts)[i] == l[i - a.len() - 1]);
            }
        }
    } else if parts.len() == 1 {
        assert(no_sep(parts[0]));
    }
}

/// Sanitizing refuses a path exactly when one of its kept components
/// (split at `/` and `\\`, empty ones, `.` and `..` dropped) is a drive
/// letter such as `C:`; a sanitized path is never empty and holds no
/// backslash, its components are kept ones, and sanitizing it again
/// changes nothing.
pub proof fn lemma_sanitize_refuses_exactly_drive_letters(raw: Seq<char>)
    ensures
        spec_sanitize(raw) is None <==> exists|j: int|
            0 <= j < split_parts(raw).len() && keeps_part(#[trigger] split_parts(raw)[j]) && is_drive_part(
                split_parts(raw)[j],
            ),
        spec_sanitize(raw) matches Some(p) ==> {
            &&& p.len() > 0
            &&& forall|i: int| 0 <= i < p.len() ==> p[i] != '\\'
            &&& forall|k: int| 0 <= k < split_parts(p).len() ==> keeps_part(#[trigger] split_parts(p)[k])
            &&& spec_sanitize(p) == Some(p)
        },
{
    let ps = split_parts(raw);
    let parts = kept_parts(ps);
    lemma_kept_parts_keep(ps);
    lemma_split_parts_no_sep(raw);
    lemma_sanitized_path_stays_inside(raw);
    if exists|j: int| 0 <= j < ps.len() && keeps_part(#[trigger] ps[j]) && is_drive_part(ps[j]) {
        let j = choose|j: int| 0 <= j < ps.len() && keeps_part(#[trigger] ps[j]) && is_drive_part(ps[j]);
        lemma_kept_parts_include(ps, j);
        let k = choose|k: int| 0 <= k < parts.len() && parts[k] == ps[j];
        assert(is_drive_part(parts[k]));
    }
    if exists|i: int| 0 <= i < parts.len() && #[trigger] is_drive_part(parts[i]) {
        let i = choose|i: int| 0 <= i < parts.len() && #[trigger] is_drive_part(parts[i]);
        assert(ps.contains(parts[i]));
        let j = choose|j: int| 0 <= j < ps.len() && ps[j] == parts[i];
        assert(keeps_part(parts[i]));
        assert(keeps_part(ps[j]) && is_drive_part(ps[j]));
    }
    if spec_sanitize(raw) is Some && parts.len() > 0 {
        assert forall|k: int| 0 <= k < parts.len() implies no_sep(#[trigger] parts[k]) by {
            assert(ps.contains(parts[k]));
            let j = choose|j: int| 0 <= j < ps.len() && ps[j] == parts[k];
            assert(no_sep(ps[j]));
        }
        assert(keeps_part(parts[0]));
        lemma_join_slash_no_backslash(parts);
    }
}

/// The views of a list of character vectors.
pub open spec fn char_views(v: Seq<Vec<char>>) -> Seq<Seq<char>> {
    v.map_values(|x: Vec<char>| x@)
}

/// Whether `p` survives sanitizing.
fn keeps(p: &Vec<char>) -> (r: bool)
    ensures
        r == keeps_part(p@),
{
    let dot = p.len() == 1 && p[0] == '.';
    let dotdot = p.len() == 2 && p[0] == '.' && p[1] == '.';
    proof {
        if p@ == seq!['.'] {
            assert(p@[0] == '.');
        }
        if p@ == seq!['.', '.'] {
            assert(p@[0] == '.' && p@[1] == '.');
        }
        if dot {
            assert(p@ =~= seq!['.']);
        }
        if dotdot {
            assert(p@ =~= seq!['.', '.']);
        }
    }
    p.len() > 0 && !dot && !dotdot
}

/// Strips empty, `.` and `..` components and normalizes separators to `/`,
/// so an archive entry can never escape the extraction directory; rejects
/// an entry with a drive-letter component (`C:`), which would make a
/// joined path absolute on Windows. An entry with nothing left becomes `_`.
pub fn sanitize_path(raw: &str) -> (r: Result<String, ConvertError>)
    ensures
        match spec_sanitize(raw@) {
            Some(p) => r matches Ok(s) && s@ == p,
            None => r matches Err(ConvertError::Other(m)) && m@
                == "refusing archive entry with a drive-letter path: "@ + debug_quoted(raw@),
        },
{
    let cs = chars_of(raw);
    let mut kept: Vec<Vec<char>> = Vec::new();
    let mut cur: Vec<char> = Vec::new();
    proof {
        assert(cs@.take(0) =~= Seq::<char>::empty());
    }
    for i in 0..cs.len()
        invariant
            split_parts(cs@.take(i as int)).len() >= 1,
            cur@ == split_parts(cs@.take(i as int)).last(),
            char_views(kept@) == kept_parts(split_parts(cs@.take(i as int)).drop_last()),
    {
        let ghost sp = split_parts(cs@.take(i as int));
        proof {
            assert(cs@.take(i + 1).drop_last() =~= cs@.take(i as int));
        }
        let c = cs[i];
        if c == '/' || c == '\\' {
            proof {
                assert(split_parts(cs@.take(i + 1)).drop_last() =~= sp);
                assert(sp =~= sp.drop_last().push(sp.last()));
            }
            if keeps(&cur) {
                let done = cur;
                kept.push(done);
                proof {
                    assert(char_views(kept@) =~= kept_parts(sp.drop_last()).push(sp.last()));
                }
            }
            cur = Vec::new();
        } else {
            cur.push(c);
            proof {
                assert(split_parts(cs@.take(i + 1)).drop_last() =~= sp.drop_last());
            }
        }
    }
    proof {
        assert(cs@.take(cs@.len() as int) =~= raw@);
        let sp = split_parts(raw@);
        assert(sp =~= sp.drop_last().push(sp.last()));
    }
    if keeps(&cur) {
        kept.push(cur);
    }
    proof {
        assert(char_views(kept@) =~= kept_parts(split_parts(raw@)));
    }
    let ghost parts = char_views(kept@);
    for j in 0..kept.len()
        invariant
            parts == char_views(kept@),
            parts == kept_parts(split_parts(raw@)),
            forall|k: int| 0 <= k < j ==> !is_drive_part(#[trigger] parts[k]),
    {
        let p = &kept[j];
        let alpha = p.len() == 2 && (('a' <= p[0] && p[0] <= 'z') || ('A' <= p[0] && p[0] <= 'Z'));
        if alpha && p[1] == ':' {
            proof {
                assert(parts[j as int] == p@);
                assert(is_drive_part(parts[j as int]));
            }
            let q = debug_str(raw);
            let mut m = chars_of("refusing archive entry with a drive-letter path: ");
            push_str(&mut m, q.as_str());
            return Err(ConvertError::Other(string_from_chars(&m)));
        }
        proof {
            assert(parts[j as int] == p@);
        }
    }
    if kept.len() == 0 {
        proof {
            reveal_strlit("_");
            assert("_"@ =~= seq!['_']);
        }
        return Ok("_".to_owned());
    }
    let mut out: Vec<char> = kept[0].clone();
    proof {
        assert(parts.take(1) =~= seq![parts[0]]);
        assert(join_slash(parts.take(1)) == parts[0]);
    }
    for j in 1..kept.len()
        invariant
            parts == char_views(kept@),
            parts.len() >= 1,
            out@ == join_slash(parts.take(j as int)),
    {
        proof {
            assert(parts.take(j + 1).drop_last() =~= parts.take(j as int));
        }
        out.push('/');
        push_all(&mut out, &kept[j]);
    }
    proof {
        assert(parts.take(parts.len() as int) =~= parts);
    }
    Ok(string_from_chars(&out))
}

/// The entries' paths, ASCII-lower-cased.
pub open spec fn lower_paths(entries: Seq<Entry>) -> Seq<Seq<char>> {
    entries.map_values(|e: Entry| ascii_lower(e.path@))
}

/// The message for a duplicate entry path.
pub open spec fn duplicate_message(path: Seq<char>) -> Seq<char> {
    "refusing archive with duplicate entry path "@ + debug_quoted(path)
        + " (two entries sanitize to the same name)"@
}

/// Rejects two entries whose paths collide, comparing ASCII case-folded
/// (NTFS treats path components case-insensitively); the error names the
/// first entry that repeats an earlier one.
pub fn ensure_unique_paths(entries: &[Entry]) -> (r: Result<(), ConvertError>)
    ensures
        r is Ok <==> forall|i: int, j: int|
            0 <= i < j < entries@.len() ==> lower_paths(entries@)[i] != lower_paths(entries@)[j],
        r is Err ==> exists|j: int|
            #![trigger entries@[j]]
            0 <= j < entries@.len() && (exists|i: int|
                0 <= i < j && lower_paths(entries@)[i] == lower_paths(entries@)[j]) && (forall|k: int, l: int|
                0 <= k < l < j ==> lower_paths(entries@)[k] != lower_paths(entries@)[l]) && (r matches Err(
                ConvertError::Other(m),
            ) && m@ == duplicate_message(entries@[j].path@)),
{
    let ghost lp = lower_paths(entries@);
    let mut seen = StringHashSet::new();
    for j in 0..entries.len()
        invariant
            lp == lower_paths(entries@),
            forall|s: Seq<char>| seen@.contains(s) <==> exists|k: int| 0 <= k < j && lp[k] == s,
            forall|k: int, l: int| 0 <= k < l < j ==> lp[k] != lp[l],
    {
        let chars = chars_of(entries[j].path.as_str());
        let lower = ascii_lowercase(&chars);
        let key = string_from_chars(&lower);
        proof {
            assert(lp[j as int] == key@);
        }
        if !seen.insert(key) {
            let q = debug_str(entries[j].path.as_str());
            let mut m = chars_of("refusing archive with duplicate entry path ");
            push_str(&mut m, q.as_str());
            push_str(&mut m, " (two entries sanitize to the same name)");
            return Err(ConvertError::Other(string_from_chars(&m)));
        }
        proof {
            assert forall|k: int, l: int| 0 <= k < l < j + 1 implies lp[k] != lp[l] by {
                if l == j {
                    if lp[k] == lp[l] {
                        assert(exists|x: int| 0 <= x < j && lp[x] == lp[j as int]);
                    }
                }
            }
        }
    }
    Ok(())
}

/// The output stem of a gzipped tarball (`backup.tar.gz` -> `backup`): the
/// file stem with a trailing `.tar` (in any case) removed; `None` when the
/// stem does not end in `.tar`.
pub open spec fn spec_tarball_stem(source: Seq<char>) -> Option<Seq<char>> {
    match file_stem(source) {
        None => None,
        Some(st) => if st.len() >= 4 && ascii_lower(st.skip(st.len() - 4)) == seq!['.', 't', 'a', 'r'] {
            Some(st.take(st.len() - 4))
        } else {
            None
        },
    }
}

/// The output-name stem for a gzipped-tarball source, or `None` when the
/// source's stem does not end in `.tar`. Only ASCII letters lower-case to
/// `t`, `a` and `r`, so an ASCII case fold of the last four characters
/// decides it.
pub fn gzipped_tarball_stem(source: &str) -> (r: Option<String>)
    ensures
        match r {
            None => spec_tarball_stem(source@) is None,
            Some(s) => spec_tarball_stem(source@) == Some(s@),
        },
{
    match file_stem_of(source) {
        None => None,
        Some(stem) => {
            let cs = chars_of(stem.as_str());
            let n = cs.len();
            if n < 4 {
                return None;
            }
            let tail = sub_chars(&cs, n - 4, n);
            let lower = ascii_lowercase(&tail);
            let suffix = chars_of(".tar");
            proof {
                reveal_strlit(".tar");
                assert(suffix@ =~= seq!['.', 't', 'a', 'r']);
                assert(tail@ =~= cs@.skip(n - 4));
            }
            if chars_eq(&lower, &suffix) {
                let head = sub_chars(&cs, 0, n - 4);
                proof {
                    assert(head@ =~= cs@.take(n - 4));
                }
                Some(string_from_chars(&head))
            } else {
                None
            }
        },
    }
}

/// The single entry a bare (non-tarball) `.gz` source holds: its whole
/// decompressed payload, named after the name stored in the GZIP header,
/// else the source's file stem, else `payload`; rejected when the payload
/// is over the per-entry budget or its name is refused by [`sanitize_path`].
pub fn bare_gzip_entries(buffer: Vec<u8>, original_name: Option<String>, source: &str) -> (r: Result<
    Vec<Entry>,
    ConvertError,
>)
    ensures
        buffer@.len() > MAX_ENTRY_UNCOMPRESSED_BYTES ==> (r matches Err(ConvertError::Other(m)) && m@
            == oversized_message(buffer@.len() as u64)),
        buffer@.len() <= MAX_ENTRY_UNCOMPRESSED_BYTES ==> {
            let name = match original_name {
                Some(n) => n@,
                None => match file_stem(source@) {
                    Some(st) => st,
                    None => "payload"@,
                },
            };
            match spec_sanitize(name) {
                None => r matches Err(ConvertError::Other(m)) && m@
                    == "refusing archive entry with a drive-letter path: "@ + debug_quoted(name),
                Some(p) => r matches Ok(v) && v@.len() == 1 && v@[0].path@ == p && !v@[0].is_dir
                    && v@[0].data@ == buffer@,
            }
        },
{
    let n = buffer.len();
    match reject_oversized_entry(n as u64) {
        Err(e) => return Err(e),
        Ok(()) => {},
    }
    let name = match original_name {
        Some(nm) => nm,
        None => match file_stem_of(source) {
            Some(st) => st,
            None => "payload".to_owned(),
        },
    };
    match sanitize_path(name.as_str()) {
        Err(e) => Err(e),
        Ok(path) => {
            let mut v: Vec<Entry> = Vec::new();
            v.push(Entry { path, is_dir: false, data: buffer });
            Ok(v)
        },
    }
}

/// Why a conversion cannot even start, before any archive is read.
pub enum PlanError {
    /// The source path has no extension.
    NoExtension,
    /// The source extension is not an archive format.
    UnrecognizedSource(Seq<char>),
    /// The target is not an archive format, or is the source's own format;
    /// carries the source and target extensions.
    Unsupported(Seq<char>, Seq<char>),
}

/// The formats a conversion of `source` to `target` (both lower-cased as
/// `extension_of` and `to_lowercase` do) uses, or why there is none.
pub open spec fn spec_plan_formats(source: Seq<char>, target: Seq<char>) -> Result<(Format, Format), PlanError> {
    match spec_extension_of(source) {
        None => Err(PlanError::NoExtension),
        Some(x) => match source_format_of(parse_ext(x)) {
            None => Err(PlanError::UnrecognizedSource(x)),
            Some(sf) => {
                let t = unicode_lowercase(target);
                match target_format_of(parse_ext(t)) {
                    None => Err(PlanError::Unsupported(x, t)),
                    Some(tf) => if tf == sf {
                        Err(PlanError::Unsupported(x, t))
                    } else {
                        Ok((sf, tf))
                    },
                }
            },
        },
    }
}

/// What a conversion will do once its source has been read: the two
/// formats and the path it writes.
pub struct ConvertPlan {
    /// The source archive's format.
    pub source_format: Format,
    /// The requested output format.
    pub target_format: Format,
    /// The path the output is written to.
    pub destination: String,
}

/// `e` is the error for `pe`.
pub open spec fn plan_error_matches(pe: PlanError, e: ConvertError) -> bool {
    match pe {
        PlanError::NoExtension => e matches ConvertError::InvalidSource(d) && d@
            == "source file has no extension"@,
        PlanError::UnrecognizedSource(x) => e matches ConvertError::InvalidSource(d) && d@
            == "unrecognized archive extension: ."@ + x,
        PlanError::Unsupported(x, t) => e matches ConvertError::UnsupportedConversion { from, to }
            && from@ == x && to@ == t,
    }
}

/// Checks the source's extension and the requested target, and chooses
/// the path a conversion writes: a GZIP target always gets a fresh
/// collision-checked `"<stem>.tar.gz"` next to the source (`"<stem> 2.tar.gz"`
/// and so on when taken) (GZIP holds one
/// stream, so the entries are bundled as a tarball first); a gzipped
/// tarball source (`backup.tar.gz`) has both suffixes stripped from its
/// output name (`backup.zip`); anything else is written to `destination`.
/// `existing` lists the names already in the source's directory.
pub fn plan_convert(source: &str, target_extension: &str, destination: &str, existing: &[String]) -> (r:
    Result<ConvertPlan, ConvertError>)
    requires
        existing@.len() + 2 <= usize::MAX,
    ensures
        match spec_plan_formats(source@, target_extension@) {
            Err(pe) => r matches Err(e) && plan_error_matches(pe, e),
            Ok((sf, tf)) => r matches Ok(plan) && plan.source_format == sf && plan.target_format == tf
                && if tf == Format::Gzip {
                placed_split(
                    string_views(existing@),
                    parent_prefix(source@),
                    crate::convert::naming::source_stem(source@),
                    ".tar.gz"@,
                    plan.destination@,
                )
            } else if sf == Format::Gzip && spec_tarball_stem(source@) is Some {
                placed_at(
                    string_views(existing@),
                    parent_prefix(source@),
                    spec_tarball_stem(source@)->0 + seq!['.'] + unicode_lowercase(target_extension@),
                    plan.destination@,
                )
            } else {
                plan.destination@ == destination@
            },
        },
{
    let ext = match extension_of(source) {
        None => return Err(ConvertError::InvalidSource("source file has no extension".to_owned())),
        Some(x) => x,
    };
    let sf = match parse_source_format(ext.as_str()) {
        None => {
            let mut d = chars_of("unrecognized archive extension: .");
            push_str(&mut d, ext.as_str());
            return Err(ConvertError::InvalidSource(string_from_chars(&d)));
        },
        Some(f) => f,
    };
    let target = to_lowercase(target_extension);
    let tf = match parse_target_format(target.as_str()) {
        None => return Err(ConvertError::UnsupportedConversion { from: ext, to: target }),
        Some(f) => f,
    };
    if tf == sf {
        return Err(ConvertError::UnsupportedConversion { from: ext, to: target });
    }
    let dest = if tf == Format::Gzip {
        output_path_with_suffix(source, ".tar.gz", existing)
    } else if sf == Format::Gzip {
        match gzipped_tarball_stem(source) {
            Some(stem) => {
                let prefix = parent_prefix_of(source);
                unique_output_path(prefix.as_str(), stem.as_str(), target.as_str(), existing)
            },
            None => destination.to_owned(),
        }
    } else {
        destination.to_owned()
    };
    Ok(ConvertPlan { source_format: sf, target_format: tf, destination: dest })
}

/// How many names an extraction's staging directory tries.
pub const STAGING_ATTEMPTS: u32 = 10_000;

/// Candidate `i` for the staging directory of an extraction into the
/// folder `name`: `.<name>.tmp-<i>`.
pub open spec fn staging_name(name: Seq<char>, i: nat) -> Seq<char> {
    seq!['.'] + name + ".tmp-"@ + decimal(i)
}

/// The staging directory an extraction into the folder `name` writes to
/// before renaming it into place: the first candidate [`staging_name`],
/// numbered from 0, that `existing` (the names next to the folder) does
/// not hold; `None` when all [`STAGING_ATTEMPTS`] are taken.
pub fn staging_dir_name(name: &str, existing: &[String]) -> (r: Option<String>)
    ensures
        match r {
            Some(s) => exists|i: nat|
                i < STAGING_ATTEMPTS && s@ == #[trigger] staging_name(name@, i) && !string_views(
                    existing@,
                ).contains(s@) && forall|k: nat|
                    k < i ==> string_views(existing@).contains(#[trigger] staging_name(name@, k)),
            None => forall|k: nat|
                k < STAGING_ATTEMPTS ==> string_views(existing@).contains(#[trigger] staging_name(name@, k)),
        },
{
    for i in 0..STAGING_ATTEMPTS
        invariant
            forall|k: nat| k < i ==> string_views(existing@).contains(#[trigger] staging_name(name@, k)),
    {
        let mut candidate: Vec<char> = Vec::new();
        candidate.push('.');
        push_str(&mut candidate, name);
        push_str(&mut candidate, ".tmp-");
        let digits = decimal_chars(i as u64);
        push_all(&mut candidate, &digits);
        proof {
            assert(candidate@ =~= staging_name(name@, i as nat));
        }
        if !contains_name(existing, &candidate) {
            return Some(string_from_chars(&candidate));
        }
    }
    None
}

/// Checks an archive to extract and chooses the folder it goes to: a
/// collision-safe sibling `"<stem> Extracted"`. `existing` lists the names
/// already in the source's directory.
pub fn plan_extract(source: &str, existing: &[String]) -> (r: Result<(Format, String), ConvertError>)
    requires
        existing@.len() + 2 <= usize::MAX,
    ensures
        match spec_extension_of(source@) {
            None => r matches Err(ConvertError::InvalidSource(d)) && d@ == "source file has no extension"@,
            Some(x) => match source_format_of(parse_ext(x)) {
                None => r matches Err(ConvertError::InvalidSource(d)) && d@
                    == "unrecognized archive extension: ."@ + x,
                Some(sf) => r matches Ok((f, dest)) && f == sf && placed_split(
                    string_views(existing@),
                    parent_prefix(source@),
                    crate::convert::naming::source_stem(source@) + seq![' '] + "Extracted"@,
                    Seq::empty(),
                    dest@,
                ),
            },
        },
{
    let ext = match extension_of(source) {
        None => return Err(ConvertError::InvalidSource("source file has no extension".to_owned())),
        Some(x) => x,
    };
    let sf = match parse_source_format(ext.as_str()) {
        None => {
            let mut d = chars_of("unrecognized archive extension: .");
            push_str(&mut d, ext.as_str());
            return Err(ConvertError::InvalidSource(string_from_chars(&d)));
        },
        Some(f) => f,
    };
    Ok((sf, output_dir_path(source, "Extracted", existing)))
}

/// An archive source is never offered its own format: a GZIP source
/// (`gz` or `tgz`) is offered neither spelling.
pub proof fn lemma_archive_targets_exclude_source(s: Seq<char>, e: Ext)
    requires
        parse_ext(unicode_lowercase(s)) == Some(e),
    ensures
        !spec_archive_targets(s).contains(ext_name(e)),
        source_format_of(Some(e)) == Some(Format::Gzip) ==> !spec_archive_targets(s).contains(ext_name(Ext::Gz))
            && !spec_archive_targets(s).contains(ext_name(Ext::Tgz)),
{
}

} // verus!
