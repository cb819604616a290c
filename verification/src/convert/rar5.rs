//! A minimal RAR5 container writer implementing only the "store"
//! (uncompressed) method: signature, vint encoding, CRC32-checked block
//! headers, a main archive header, one file header per entry (followed by
//! the entry's bytes) and an end-of-archive header.
use crate::convert::archive::Entry;
use vstd::prelude::*;
use vstd::utf8::encode_utf8;

verus! {

/// One step of the reflected CRC-32 register: shift right, folding in the
/// IEEE polynomial (`0xEDB88320`) when the bit shifted out is set.
pub open spec fn crc32_bit(c: u32) -> u32 {
    if c & 1 == 1 {
        (c >> 1) ^ 0xEDB8_8320u32
    } else {
        c >> 1
    }
}

/// The register after `n` steps.
pub open spec fn crc32_steps(c: u32, n: nat) -> u32
    decreases n,
{
    if n == 0 {
        c
    } else {
        crc32_steps(crc32_bit(c), (n - 1) as nat)
    }
}

/// The register after `bytes`, starting from all ones, each byte folded in
/// low bit first.
pub open spec fn crc32_register(bytes: Seq<u8>) -> u32
    decreases bytes.len(),
{
    if bytes.len() == 0 {
        0xFFFF_FFFFu32
    } else {
        crc32_steps(crc32_register(bytes.drop_last()) ^ (bytes.last() as u32), 8)
    }
}

/// The CRC-32 (IEEE 802.3, the checksum of ZIP and RAR) of `bytes`: the
/// final register, inverted.
pub open spec fn crc32(bytes: Seq<u8>) -> u32 {
    crc32_register(bytes) ^ 0xFFFF_FFFFu32
}

/// Computes `crc32fast::hash(bytes)`, the standard CRC-32 of the bytes
/// that [`crc32`] defines.
#[verifier::external_body]
fn crc32_of(bytes: &[u8]) -> (r: u32)
    ensures
        r == crc32(bytes@),
{
    crc32fast::hash(bytes)
}

/// RAR5's variable-length integer: 7 bits per byte, least significant
/// group first, the high bit set on every byte but the last.
pub open spec fn vint(v: nat) -> Seq<u8>
    decreases v,
{
    if v < 128 {
        seq![v as u8]
    } else {
        seq![(v % 128 + 128) as u8] + vint(v / 128)
    }
}

/// Reads one vint from the front of `b`: its value and how many bytes it
/// took (a truncated vint reads as what its bytes hold).
pub open spec fn decode_vint(b: Seq<u8>) -> (nat, nat)
    decreases b.len(),
{
    if b.len() == 0 {
        (0, 0)
    } else if b[0] < 128 {
        (b[0] as nat, 1)
    } else {
        let (v, n) = decode_vint(b.skip(1));
        ((b[0] - 128) as nat + 128 * v, n + 1)
    }
}

/// `128` to the power `e`.
pub open spec fn pow128(e: nat) -> nat
    decreases e,
{
    if e == 0 {
        1
    } else {
        128 * pow128((e - 1) as nat)
    }
}

/// A vint takes as few bytes as its value needs, 7 bits to a byte: `v`
/// is below `128` to the power of its length, and at least `128` to the
/// power of one less when it takes more than one byte.
pub proof fn lemma_vint_len(v: nat)
    ensures
        vint(v).len() >= 1,
        v < pow128(vint(v).len()),
        vint(v).len() > 1 ==> pow128((vint(v).len() - 1) as nat) <= v,
    decreases v,
{
    if v >= 128 {
        let q = v / 128;
        lemma_vint_len(q);
        let l = vint(q).len();
        assert(vint(v).len() == l + 1);
        assert(pow128(l + 1) == 128 * pow128(l));
        assert(v < 128 * (q + 1)) by (nonlinear_arith)
            requires
                q == v / 128,
        ;
        assert(128 * (q + 1) <= 128 * pow128(l)) by (nonlinear_arith)
            requires
                q < pow128(l),
        ;
        if l > 1 {
            assert(pow128(l) == 128 * pow128((l - 1) as nat));
            assert(128 * pow128((l - 1) as nat) <= 128 * q) by (nonlinear_arith)
                requires
                    pow128((l - 1) as nat) <= q,
            ;
            assert(128 * q <= v) by (nonlinear_arith)
                requires
                    q == v / 128,
            ;
        } else {
            assert(pow128(1) == 128);
        }
    } else {
        assert(pow128(1) == 128 * pow128(0));
    }
}

/// A vint decodes back to the value it encodes, consuming exactly its own
/// bytes whatever follows it.
pub proof fn lemma_vint_round_trip(v: nat, rest: Seq<u8>)
    ensures
        decode_vint(vint(v) + rest) == (v, vint(v).len()),
    decreases v,
{
    if v >= 128 {
        lemma_vint_round_trip(v / 128, rest);
        let b = vint(v) + rest;
        assert(b.skip(1) =~= vint(v / 128) + rest);
    } else {
        assert((vint(v) + rest)[0] == v);
    }
}

/// `x` as four little-endian bytes.
pub open spec fn le32(x: u32) -> Seq<u8> {
    seq![
        (x % 256) as u8,
        ((x / 256) % 256) as u8,
        ((x / 65536) % 256) as u8,
        (x / 16777216) as u8,
    ]
}

/// The RAR5 signature.
pub open spec fn signature() -> Seq<u8> {
    seq![0x52u8, 0x61u8, 0x72u8, 0x21u8, 0x1Au8, 0x07u8, 0x01u8, 0x00u8]
}

/// The optional data-size field of a block header.
pub open spec fn opt_vint(d: Option<nat>) -> Seq<u8> {
    match d {
        Some(s) => vint(s),
        None => Seq::empty(),
    }
}

/// One block: `CRC32 || header size || type || flags || [data size] ||
/// type-specific body`, the CRC taken over everything after it and the
/// header size counting the bytes after itself.
pub open spec fn block_bytes(header_type: nat, flags: nat, data_size: Option<nat>, body: Seq<u8>) -> Seq<u8> {
    let inner = vint(header_type) + vint(flags) + opt_vint(data_size) + body;
    let sized = vint(inner.len()) + inner;
    le32(crc32(sized)) + sized
}

/// File-header flags: Unix mtime present, plus "directory" or "data CRC
/// present".
pub open spec fn file_flags(is_dir: bool) -> nat {
    if is_dir {
        3
    } else {
        6
    }
}

/// Unix mode bits recorded for an entry: `drwxr-xr-x` or `-rw-r--r--`.
pub open spec fn file_attributes(is_dir: bool) -> nat {
    if is_dir {
        0o040755
    } else {
        0o100644
    }
}

/// The type-specific body of a file header: flags, unpacked size,
/// attributes, mtime, the data CRC for a file, compression info (store),
/// host OS (Unix), and the UTF-8 name with its length.
pub open spec fn file_body(path: Seq<char>, is_dir: bool, data: Seq<u8>, mtime: u32) -> Seq<u8> {
    vint(file_flags(is_dir)) + vint(data.len()) + vint(file_attributes(is_dir)) + le32(mtime) + (if is_dir {
        Seq::empty()
    } else {
        le32(crc32(data))
    }) + vint(0) + vint(1) + vint(encode_utf8(path).len()) + encode_utf8(path)
}

/// One entry's file header block, followed by its bytes for a file.
pub open spec fn file_block_bytes(path: Seq<char>, is_dir: bool, data: Seq<u8>, mtime: u32) -> Seq<u8> {
    if is_dir {
        block_bytes(2, 0, None, file_body(path, is_dir, data, mtime))
    } else {
        block_bytes(2, 2, Some(data.len()), file_body(path, is_dir, data, mtime)) + data
    }
}

/// The file blocks of every entry, in order.
pub open spec fn file_blocks(entries: Seq<Entry>, mtime: u32) -> Seq<u8>
    decreases entries.len(),
{
    if entries.len() == 0 {
        Seq::empty()
    } else {
        let e = entries.last();
        file_blocks(entries.drop_last(), mtime) + file_block_bytes(e.path@, e.is_dir, e.data@, mtime)
    }
}

/// A whole store-method archive holding `entries`, every entry stamped
/// with `mtime`.
pub open spec fn rar5_archive(entries: Seq<Entry>, mtime: u32) -> Seq<u8> {
    signature() + block_bytes(1, 0, None, vint(0)) + file_blocks(entries, mtime) + block_bytes(
        5,
        0,
        None,
        vint(0),
    )
}

/// Appends the bytes of `b` to `out`.
fn push_bytes(out: &mut Vec<u8>, b: &[u8])
    ensures
        final(out)@ == old(out)@ + b@,
{
    for i in 0..b.len()
        invariant
            out@ == old(out)@ + b@.take(i as int),
    {
        out.push(b[i]);
        proof {
            assert(out@ =~= old(out)@ + b@.take(i + 1));
        }
    }
    proof {
        assert(b@.take(b@.len() as int) =~= b@);
    }
}

/// Appends `value` as a vint.
fn write_vint(buf: &mut Vec<u8>, value: u64)
    ensures
        final(buf)@ == old(buf)@ + vint(value as nat),
    decreases value,
{
    if value < 128 {
        buf.push(value as u8);
    } else {
        let byte: u8 = (value % 128) as u8 + 128;
        buf.push(byte);
        write_vint(buf, value / 128);
        proof {
            assert(buf@ =~= old(buf)@ + vint(value as nat));
        }
    }
}

/// Appends `x` as four little-endian bytes.
fn write_le32(buf: &mut Vec<u8>, x: u32)
    ensures
        final(buf)@ == old(buf)@ + le32(x),
{
    buf.push((x % 256) as u8);
    buf.push(((x / 256) % 256) as u8);
    buf.push(((x / 65536) % 256) as u8);
    buf.push((x / 16777216) as u8);
    proof {
        assert(buf@ =~= old(buf)@ + le32(x));
    }
}

/// Builds one block around `type_specific`.
fn build_block(header_type: u64, header_flags: u64, data_size: Option<u64>, type_specific: &[u8]) -> (r: Vec<u8>)
    ensures
        r@ == block_bytes(
            header_type as nat,
            header_flags as nat,
            match data_size {
                Some(s) => Some(s as nat),
                None => None,
            },
            type_specific@,
        ),
{
    let mut body: Vec<u8> = Vec::new();
    write_vint(&mut body, header_type);
    write_vint(&mut body, header_flags);
    match data_size {
        Some(size) => write_vint(&mut body, size),
        None => {},
    }
    push_bytes(&mut body, type_specific);
    let ghost ds = match data_size {
        Some(s) => Some(s as nat),
        None => None,
    };
    proof {
        assert(body@ =~= vint(header_type as nat) + vint(header_flags as nat) + opt_vint(ds)
            + type_specific@);
    }
    let mut sized: Vec<u8> = Vec::new();
    let n = body.len();
    write_vint(&mut sized, n as u64);
    push_bytes(&mut sized, body.as_slice());
    let crc = crc32_of(sized.as_slice());
    let mut block: Vec<u8> = Vec::new();
    write_le32(&mut block, crc);
    push_bytes(&mut block, sized.as_slice());
    block
}

/// Builds one entry's file header block (plus its bytes, for a file).
fn file_block(entry: &Entry, mtime: u32) -> (r: Vec<u8>)
    ensures
        r@ == file_block_bytes(entry.path@, entry.is_dir, entry.data@, mtime),
{
    let file_flags: u64 = if entry.is_dir {
        3
    } else {
        6
    };
    let mut body: Vec<u8> = Vec::new();
    write_vint(&mut body, file_flags);
    let len = entry.data.len();
    write_vint(&mut body, len as u64);
    let attributes: u64 = if entry.is_dir {
        0o040755
    } else {
        0o100644
    };
    write_vint(&mut body, attributes);
    write_le32(&mut body, mtime);
    if !entry.is_dir {
        let crc = crc32_of(entry.data.as_slice());
        write_le32(&mut body, crc);
    }
    write_vint(&mut body, 0);
    write_vint(&mut body, 1);
    let name_bytes = entry.path.as_str().as_bytes();
    let name_len = name_bytes.len();
    write_vint(&mut body, name_len as u64);
    push_bytes(&mut body, name_bytes);
    proof {
        assert(body@ =~= file_body(entry.path@, entry.is_dir, entry.data@, mtime));
    }
    if entry.is_dir {
        build_block(2, 0, None, body.as_slice())
    } else {
        let mut block = build_block(2, 2, Some(len as u64), body.as_slice());
        push_bytes(&mut block, entry.data.as_slice());
        block
    }
}

/// Encodes `entries` as a valid store-method RAR5 archive, every entry
/// stamped with the Unix time `mtime`.
pub fn write(entries: &[Entry], mtime: u32) -> (r: Vec<u8>)
    ensures
        r@ == rar5_archive(entries@, mtime),
{
    let mut out: Vec<u8> = Vec::new();
    let sig: [u8; 8] = [0x52, 0x61, 0x72, 0x21, 0x1A, 0x07, 0x01, 0x00];
    push_bytes(&mut out, &sig);
    proof {
        assert(out@ =~= signature());
    }
    let mut main_body: Vec<u8> = Vec::new();
    write_vint(&mut main_body, 0);
    let main = build_block(1, 0, None, main_body.as_slice());
    push_bytes(&mut out, main.as_slice());
    let ghost head = out@;
    for i in 0..entries.len()
        invariant
            head == signature() + block_bytes(1, 0, None, vint(0)),
            out@ == head + file_blocks(entries@.take(i as int), mtime),
    {
        proof {
            assert(entries@.take(i + 1).drop_last() =~= entries@.take(i as int));
        }
        let block = file_block(&entries[i], mtime);
        push_bytes(&mut out, block.as_slice());
        proof {
            assert(out@ =~= head + file_blocks(entries@.take(i + 1), mtime));
        }
    }
    proof {
        assert(entries@.take(entries@.len() as int) =~= entries@);
    }
    let mut end_body: Vec<u8> = Vec::new();
    write_vint(&mut end_body, 0);
    let end = build_block(5, 0, None, end_body.as_slice());
    push_bytes(&mut out, end.as_slice());
    proof {
        assert(out@ =~= rar5_archive(entries@, mtime));
    }
    out
}

} // verus!
