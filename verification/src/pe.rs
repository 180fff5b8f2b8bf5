//! Opening a PE file: checking its signature and reading its MS-DOS header.

pub use crate::types::DosHeader;

use crate::helpers::{read_n_bytes_le, BytesConversion};
use crate::types::{Byte, DosHeaderView};
use vstd::prelude::*;

verus! {

/// The error that reading a file from disk can report.
#[verifier::external_type_specification]
#[verifier::external_body]
pub struct ExIoError(std::io::Error);

/// Why a file could not be opened as a PE file.
#[derive(Debug)]
pub enum EditorError {
    /// The file is not a PE file; the message says why.
    InvalidFile(String),
    /// The file could not be read.
    Io(std::io::Error),
}

/// A PE file held in memory, with its parsed MS-DOS header.
pub struct Editor {
    pub bytes: Vec<u8>,
    pub dos_header: DosHeader,
}

/// The size of the MS-DOS header in bytes.
pub open spec fn dos_header_len() -> nat {
    64
}

/// The `n` bytes at `offset` of `buf`, which hold a little-endian field, most significant first.
pub open spec fn le_field(buf: Seq<u8>, offset: int, n: int) -> Seq<u8> {
    buf.subrange(offset, offset + n).reverse()
}

/// The MS-DOS header that the first 64 bytes of `buf` hold: nineteen little-endian
/// fields laid end to end, each one reversed.
pub open spec fn spec_parse_dos_header(buf: Seq<u8>) -> DosHeaderView {
    DosHeaderView {
        e_magic: le_field(buf, 0, 2),
        e_cblp: le_field(buf, 2, 2),
        e_cp: le_field(buf, 4, 2),
        e_crlc: le_field(buf, 6, 2),
        e_cparhdr: le_field(buf, 8, 2),
        e_minalloc: le_field(buf, 10, 2),
        e_maxalloc: le_field(buf, 12, 2),
        e_ss: le_field(buf, 14, 2),
        e_sp: le_field(buf, 16, 2),
        e_csum: le_field(buf, 18, 2),
        e_ip: le_field(buf, 20, 2),
        e_cs: le_field(buf, 22, 2),
        e_lfarlc: le_field(buf, 24, 2),
        e_ovno: le_field(buf, 26, 2),
        e_res: le_field(buf, 28, 8),
        e_oemid: le_field(buf, 36, 2),
        e_oeminfo: le_field(buf, 38, 2),
        e_res2: le_field(buf, 40, 20),
        e_lfanew: le_field(buf, 60, 4),
    }
}

/// The file starts with the MS-DOS signature `MZ`.
pub open spec fn has_mz_signature(bytes: Seq<u8>) -> bool {
    bytes.len() >= 2 && bytes[0] == 0x4d && bytes[1] == 0x5a
}

/// The bytes of a header as they stand in the file: each field back in
/// little-endian order, the fields end to end.
pub open spec fn dos_header_bytes(h: DosHeaderView) -> Seq<u8> {
    h.e_magic.reverse()
        + h.e_cblp.reverse()
        + h.e_cp.reverse()
        + h.e_crlc.reverse()
        + h.e_cparhdr.reverse()
        + h.e_minalloc.reverse()
        + h.e_maxalloc.reverse()
        + h.e_ss.reverse()
        + h.e_sp.reverse()
        + h.e_csum.reverse()
        + h.e_ip.reverse()
        + h.e_cs.reverse()
        + h.e_lfarlc.reverse()
        + h.e_ovno.reverse()
        + h.e_res.reverse()
        + h.e_oemid.reverse()
        + h.e_oeminfo.reverse()
        + h.e_res2.reverse()
        + h.e_lfanew.reverse()
}

/// The header holds the first 64 bytes of the buffer, each exactly once:
/// writing its fields back in file order gives those bytes.
pub proof fn lemma_dos_header_holds_first_64_bytes(buf: Seq<u8>)
    requires
        buf.len() >= dos_header_len(),
    ensures
        dos_header_bytes(spec_parse_dos_header(buf)) == buf.subrange(0, 64),
{
    assert(buf.subrange(0, 2).reverse().reverse() =~= buf.subrange(0, 2));
    assert(buf.subrange(2, 4).reverse().reverse() =~= buf.subrange(2, 4));
    assert(buf.subrange(4, 6).reverse().reverse() =~= buf.subrange(4, 6));
    assert(buf.subrange(6, 8).reverse().reverse() =~= buf.subrange(6, 8));
    assert(buf.subrange(8, 10).reverse().reverse() =~= buf.subrange(8, 10));
    assert(buf.subrange(10, 12).reverse().reverse() =~= buf.subrange(10, 12));
    assert(buf.subrange(12, 14).reverse().reverse() =~= buf.subrange(12, 14));
    assert(buf.subrange(14, 16).reverse().reverse() =~= buf.subrange(14, 16));
    assert(buf.subrange(16, 18).reverse().reverse() =~= buf.subrange(16, 18));
    assert(buf.subrange(18, 20).reverse().reverse() =~= buf.subrange(18, 20));
    assert(buf.subrange(20, 22).reverse().reverse() =~= buf.subrange(20, 22));
    assert(buf.subrange(22, 24).reverse().reverse() =~= buf.subrange(22, 24));
    assert(buf.subrange(24, 26).reverse().reverse() =~= buf.subrange(24, 26));
    assert(buf.subrange(26, 28).reverse().reverse() =~= buf.subrange(26, 28));
    assert(buf.subrange(28, 36).reverse().reverse() =~= buf.subrange(28, 36));
    assert(buf.subrange(36, 38).reverse().reverse() =~= buf.subrange(36, 38));
    assert(buf.subrange(38, 40).reverse().reverse() =~= buf.subrange(38, 40));
    assert(buf.subrange(40, 60).reverse().reverse() =~= buf.subrange(40, 60));
    assert(buf.subrange(60, 64).reverse().reverse() =~= buf.subrange(60, 64));
    assert(dos_header_bytes(spec_parse_dos_header(buf)) =~= buf.subrange(0, 64));
}

/// The header depends on the first 64 bytes of the buffer only.
pub proof fn lemma_dos_header_ignores_rest(buf: Seq<u8>, rest: Seq<u8>)
    requires
        buf.len() >= dos_header_len(),
    ensures
        spec_parse_dos_header(buf + rest) == spec_parse_dos_header(buf),
{
    let whole = buf + rest;
    assert(whole.subrange(0, 2) =~= buf.subrange(0, 2));
    assert(whole.subrange(2, 4) =~= buf.subrange(2, 4));
    assert(whole.subrange(4, 6) =~= buf.subrange(4, 6));
    assert(whole.subrange(6, 8) =~= buf.subrange(6, 8));
    assert(whole.subrange(8, 10) =~= buf.subrange(8, 10));
    assert(whole.subrange(10, 12) =~= buf.subrange(10, 12));
    assert(whole.subrange(12, 14) =~= buf.subrange(12, 14));
    assert(whole.subrange(14, 16) =~= buf.subrange(14, 16));
    assert(whole.subrange(16, 18) =~= buf.subrange(16, 18));
    assert(whole.subrange(18, 20) =~= buf.subrange(18, 20));
    assert(whole.subrange(20, 22) =~= buf.subrange(20, 22));
    assert(whole.subrange(22, 24) =~= buf.subrange(22, 24));
    assert(whole.subrange(24, 26) =~= buf.subrange(24, 26));
    assert(whole.subrange(26, 28) =~= buf.subrange(26, 28));
    assert(whole.subrange(28, 36) =~= buf.subrange(28, 36));
    assert(whole.subrange(36, 38) =~= buf.subrange(36, 38));
    assert(whole.subrange(38, 40) =~= buf.subrange(38, 40));
    assert(whole.subrange(40, 60) =~= buf.subrange(40, 60));
    assert(whole.subrange(60, 64) =~= buf.subrange(60, 64));
    assert(spec_parse_dos_header(whole) =~= spec_parse_dos_header(buf));
}

/// A file with the `MZ` signature has the magic number `0x5A4D` in its header,
/// in the bytes that `to_bytes` gives for that number.
pub proof fn lemma_signature_gives_magic(buf: Seq<u8>)
    requires
        has_mz_signature(buf),
    ensures
        spec_parse_dos_header(buf).e_magic == crate::helpers::be_bytes(0x5a4d, 2),
{
    crate::helpers::lemma_be_bytes_index(0x5a4d, 2, 0);
    crate::helpers::lemma_be_bytes_index(0x5a4d, 2, 1);
    reveal_with_fuel(crate::helpers::byte_bound, 2);
    assert(spec_parse_dos_header(buf).e_magic =~= crate::helpers::be_bytes(0x5a4d, 2));
}

/// The `MZ` signature is exactly the first two bytes `0x4d 0x5a`: a file is
/// recognised by them alone, whatever its length and its other bytes.
pub proof fn lemma_signature_is_first_two_bytes(bytes: Seq<u8>)
    ensures
        has_mz_signature(bytes) <==> (bytes.len() >= 2 && bytes[0] == 0x4d && bytes[1] == 0x5a),
{
}

/// Every buffer that starts with `MZ` and holds a whole header is opened, whatever
/// its length and the rest of its bytes; the header's magic is then `0x5A4D` and its
/// other fields are the little-endian fields at their offsets.
pub proof fn lemma_every_mz_file_opens(bytes: Seq<u8>)
    requires
        bytes.len() >= 64,
        bytes[0] == 0x4d,
        bytes[1] == 0x5a,
    ensures
        has_mz_signature(bytes),
        spec_parse_dos_header(bytes).e_magic == seq![0x5au8, 0x4du8],
        spec_parse_dos_header(bytes).e_lfanew == seq![bytes[63], bytes[62], bytes[61], bytes[60]],
        spec_parse_dos_header(bytes).e_cp == seq![bytes[5], bytes[4]],
{
    assert(spec_parse_dos_header(bytes).e_magic =~= seq![0x5au8, 0x4du8]);
    assert(spec_parse_dos_header(bytes).e_lfanew =~= seq![bytes[63], bytes[62], bytes[61], bytes[60]]);
    assert(spec_parse_dos_header(bytes).e_cp =~= seq![bytes[5], bytes[4]]);
}

impl Editor {
    /// Opens the contents of a file as a PE file.
    ///
    /// A file shorter than two bytes, or one that does not start with `MZ`, is refused.
    /// A file that starts with `MZ` must hold the whole 64-byte MS-DOS header.
    pub fn from_bytes(bytes: Vec<u8>) -> (res: Result<Self, EditorError>)
        requires
            bytes@.len() >= 2 && bytes@[0] == 0x4d && bytes@[1] == 0x5a ==> bytes@.len() >= 64,
        ensures
            res is Ok <==> (bytes@.len() >= 2 && bytes@[0] == 0x4d && bytes@[1] == 0x5a),
            res matches Ok(editor) ==> editor.bytes@ == bytes@ && editor.dos_header@
                == spec_parse_dos_header(bytes@) && editor.dos_header.e_magic@ == seq![0x5au8, 0x4du8],
            res matches Err(e) ==> (e matches EditorError::InvalidFile(msg) && msg@ == (
            if bytes@.len() < 2 {
                "file is not long enough"@
            } else {
                "file is not a windows executable"@
            })),
    {
        if bytes.len() < 2 {
            return Err(EditorError::InvalidFile("file is not long enough".to_string()));
        }
        if bytes[0] != 0x4d || bytes[1] != 0x5a {
            return Err(EditorError::InvalidFile("file is not a windows executable".to_string()));
        }
        let dos_header = Self::parse_dos_header(bytes.as_slice());
        assert(dos_header.e_magic@ =~= seq![0x5au8, 0x4du8]);
        Ok(Self { bytes, dos_header })
    }

    /// Reads the MS-DOS header out of the first 64 bytes of `buf`.
    pub fn parse_dos_header(buf: &[Byte]) -> (header: DosHeader)
        requires
            buf@.len() >= dos_header_len(),
        ensures
            header@ == spec_parse_dos_header(buf@),
    {
        let mut pos: usize = 0;

        let e_magic = read_n_bytes_le::<2>(buf, &mut pos);
        let e_cblp = read_n_bytes_le::<2>(buf, &mut pos);
        let e_cp = read_n_bytes_le::<2>(buf, &mut pos);
        let e_crlc = read_n_bytes_le::<2>(buf, &mut pos);
        let e_cparhdr = read_n_bytes_le::<2>(buf, &mut pos);
        let e_minalloc = read_n_bytes_le::<2>(buf, &mut pos);
        let e_maxalloc = read_n_bytes_le::<2>(buf, &mut pos);
        let e_ss = read_n_bytes_le::<2>(buf, &mut pos);
        let e_sp = read_n_bytes_le::<2>(buf, &mut pos);
        let e_csum = read_n_bytes_le::<2>(buf, &mut pos);
        let e_ip = read_n_bytes_le::<2>(buf, &mut pos);
        let e_cs = read_n_bytes_le::<2>(buf, &mut pos);
        let e_lfarlc = read_n_bytes_le::<2>(buf, &mut pos);
        let e_ovno = read_n_bytes_le::<2>(buf, &mut pos);
        let e_res = read_n_bytes_le::<8>(buf, &mut pos);
        let e_oemid = read_n_bytes_le::<2>(buf, &mut pos);
        let e_oeminfo = read_n_bytes_le::<2>(buf, &mut pos);
        let e_res2 = read_n_bytes_le::<20>(buf, &mut pos);
        let e_lfanew = read_n_bytes_le::<4>(buf, &mut pos);

        let header = DosHeader {
            e_magic,
            e_cblp,
            e_cp,
            e_crlc,
            e_cparhdr,
            e_minalloc,
            e_maxalloc,
            e_ss,
            e_sp,
            e_csum,
            e_ip,
            e_cs,
            e_lfarlc,
            e_ovno,
            e_res,
            e_oemid,
            e_oeminfo,
            e_res2,
            e_lfanew,
        };
        assert(header@ =~= spec_parse_dos_header(buf@));
        header
    }
}

/// Converts `value` to its big-endian bytes.
pub fn into_bytes<T: BytesConversion>(value: T) -> (bytes: T::Bytes)
    ensures
        bytes@ == crate::helpers::be_bytes(value.as_nat(), T::width()),
{
    value.to_bytes()
}

} // verus!
