//! The byte layout of a block archive: length prefixes, identifiers and blocks, as far as
//! it has to be known before the archive is handed to the reader. The reader panics on
//! some malformed archives; what is checked here keeps those from it.

use vstd::prelude::*;

verus! {

/// The longest header section that the reader accepts, in bytes.
pub const MAX_HEADER_LEN: u64 = 1048576;

/// The longest block section (identifier and data) that the reader accepts, in bytes.
pub const MAX_BLOCK_LEN: u64 = 1073741824;

/// The longest padding that the reader accepts before the payload of a version 2 archive.
pub const MAX_PADDING_LEN: u64 = 1073741824;

/// The most bytes a multihash digest may take in an identifier.
pub const MAX_DIGEST_LEN: u64 = 64;

/// What stands at a position where an unsigned LEB128 number is expected.
#[derive(Debug, Clone, Copy, PartialEq, Eq, Structural)]
pub enum Varint {
    /// A number, and how many bytes (1 to 10) spell it.
    Value { value: u64, len: usize },
    /// Ten bytes that all announce a further byte.
    Overlong,
    /// The input ends before the number does.
    Truncated,
}

/// The number read so far, with the low seven bits of `byte` put at place `i`.
pub open spec fn varint_step(acc: u64, byte: u8, i: nat) -> u64 {
    acc | (((byte & 0x7f) as u64) << ((i * 7) as u64))
}

/// Reads on from byte `i` of the number that starts at `at`, `acc` holding the bytes
/// before it.
pub open spec fn varint_from(bytes: Seq<u8>, at: int, i: nat, acc: u64) -> Varint
    decreases 10 - i,
{
    if i >= 10 {
        Varint::Overlong
    } else if at + i >= bytes.len() {
        Varint::Truncated
    } else {
        let byte = bytes[at + i];
        let next = varint_step(acc, byte, i);
        if byte & 0x80 == 0 {
            Varint::Value { value: next, len: (i + 1) as usize }
        } else {
            varint_from(bytes, at, i + 1, next)
        }
    }
}

/// What stands at `at` where a number is expected: seven bits a byte, low bits first, the
/// high bit of a byte announcing another; bits beyond the sixty-fourth are dropped.
pub open spec fn varint_at(bytes: Seq<u8>, at: int) -> Varint {
    varint_from(bytes, at, 0, 0)
}

/// A number takes between one and ten bytes, all of them inside the input.
pub proof fn lemma_varint_len(bytes: Seq<u8>, at: int, i: nat, acc: u64)
    requires
        0 <= at,
    ensures
        varint_from(bytes, at, i, acc) matches Varint::Value { value, len } ==> i < len <= 10
            && at + len <= bytes.len(),
    decreases 10 - i,
{
    if i < 10 && at + i < bytes.len() {
        let byte = bytes[at + i];
        if byte & 0x80 != 0 {
            lemma_varint_len(bytes, at, i + 1, varint_step(acc, byte, i));
        }
    }
}

/// A number is read alike from any two inputs that agree up to the end of `a`, where
/// `a` ends after the number.
pub proof fn lemma_varint_agrees(a: Seq<u8>, b: Seq<u8>, at: int, i: nat, acc: u64)
    requires
        0 <= at,
        a.len() <= b.len(),
        forall|j: int| 0 <= j < a.len() ==> a[j] == b[j],
        !(varint_from(a, at, i, acc) is Truncated),
    ensures
        varint_from(b, at, i, acc) == varint_from(a, at, i, acc),
    decreases 10 - i,
{
    if i < 10 && at + i < a.len() {
        let byte = a[at + i];
        if byte & 0x80 != 0 {
            lemma_varint_agrees(a, b, at, i + 1, varint_step(acc, byte, i));
        }
    }
}

/// Reads the number that starts at `at`. Behind the end of the input there is none.
pub fn read_varint(bytes: &[u8], at: usize) -> (r: Varint)
    ensures
        r == varint_at(bytes@, at as int),
{
    if at > bytes.len() {
        return Varint::Truncated;
    }
    let mut acc: u64 = 0;
    let mut i: usize = 0;
    while i < 10
        invariant
            i <= 10,
            at <= bytes.len(),
            varint_at(bytes@, at as int) == varint_from(bytes@, at as int, i as nat, acc),
        decreases 10 - i,
    {
        if i >= bytes.len() - at {
            return Varint::Truncated;
        }
        let byte = bytes[at + i];
        let shift: u64 = (i as u64) * 7;
        acc = acc | (((byte & 0x7f) as u64) << shift);
        if byte & 0x80 == 0 {
            return Varint::Value { value: acc, len: i + 1 };
        }
        i = i + 1;
    }
    Varint::Overlong
}

/// What stands at a position where the content identifier of a block is expected.
#[derive(Debug, Clone, Copy, PartialEq, Eq, Structural)]
pub enum CidFrame {
    /// An identifier of this many bytes.
    Length(usize),
    /// Bytes that the reader turns down with an error.
    Refused,
    /// Bytes on which the reader panics: a version above 1 or a digest longer than
    /// [`MAX_DIGEST_LEN`].
    Fatal,
}

/// The frame of a version 1 identifier whose version and codec take `head` bytes: the
/// code and the size of the multihash, then as many digest bytes as the size says.
pub open spec fn multihash_frame(bytes: Seq<u8>, at: int, head: int) -> CidFrame {
    match varint_at(bytes, at) {
        Varint::Value { value: code, len: code_len } => match varint_at(bytes, at + code_len) {
            Varint::Value { value: size, len: size_len } => if size > MAX_DIGEST_LEN {
                CidFrame::Fatal
            } else if at + code_len + size_len + size <= bytes.len() {
                CidFrame::Length((head + code_len + size_len + size) as usize)
            } else {
                CidFrame::Refused
            },
            _ => CidFrame::Refused,
        },
        _ => CidFrame::Refused,
    }
}

/// The frame of the identifier at `at`: either the bare SHA-256 multihash of a version 0
/// identifier (the bytes `0x12 0x20` and a digest of 32 bytes), or a version number, a
/// codec and a multihash.
pub open spec fn cid_frame(bytes: Seq<u8>, at: int) -> CidFrame {
    match varint_at(bytes, at) {
        Varint::Value { value: version, len: version_len } => match varint_at(
            bytes,
            at + version_len,
        ) {
            Varint::Value { value: codec, len: codec_len } => {
                let head = version_len + codec_len;
                if version == 0x12 && codec == 0x20 {
                    if at + head + 32 <= bytes.len() {
                        CidFrame::Length((head + 32) as usize)
                    } else {
                        CidFrame::Refused
                    }
                } else if version > 1 {
                    CidFrame::Fatal
                } else if version == 0 {
                    CidFrame::Refused
                } else {
                    multihash_frame(bytes, at + head, head)
                }
            },
            _ => CidFrame::Refused,
        },
        _ => CidFrame::Refused,
    }
}

/// An identifier lies inside the input and takes at most 104 bytes.
pub proof fn lemma_cid_frame_len(bytes: Seq<u8>, at: int)
    requires
        0 <= at,
    ensures
        cid_frame(bytes, at) matches CidFrame::Length(n) ==> 0 < n <= 104 && at + n
            <= bytes.len(),
{
    lemma_varint_len(bytes, at, 0, 0);
    if let Varint::Value { value: version, len: version_len } = varint_at(bytes, at) {
        lemma_varint_len(bytes, at + version_len, 0, 0);
        if let Varint::Value { value: codec, len: codec_len } = varint_at(
            bytes,
            at + version_len,
        ) {
            let inner = at + version_len + codec_len;
            lemma_varint_len(bytes, inner, 0, 0);
            if let Varint::Value { value: code, len: code_len } = varint_at(bytes, inner) {
                lemma_varint_len(bytes, inner + code_len, 0, 0);
            }
        }
    }
}

/// Whether the reader gets through the blocks from `at` on without a panic. `stop`
/// is the length of the block region where the archive states one, `read` how much of it
/// lies before `at`. The walk ends, safely, where the region is used up, where the input
/// ends between two blocks and where the reader turns a block down; it is unsafe where
/// an identifier is [`CidFrame::Fatal`] or longer than the section that should hold it,
/// and where a section is longer than what is left of the input, for which the reader
/// would set memory aside that the input cannot fill.
pub open spec fn blocks_safe(bytes: Seq<u8>, at: int, stop: Option<int>, read: int) -> bool
    decreases bytes.len() - at,
{
    if at < 0 || at > bytes.len() {
        true
    } else if stop is Some && read >= stop->0 {
        true
    } else {
        match varint_at(bytes, at) {
            Varint::Value { value: section, len: prefix } => if section == 0 || section
                > MAX_BLOCK_LEN {
                true
            } else {
                match cid_frame(bytes, at + prefix) {
                    CidFrame::Fatal => false,
                    CidFrame::Refused => true,
                    CidFrame::Length(cid_len) => if cid_len > section || at + prefix + section
                        > bytes.len() {
                        false
                    } else {
                        blocks_safe(
                            bytes,
                            at + prefix + section,
                            stop,
                            read + prefix + section,
                        )
                    },
                }
            },
            _ => true,
        }
    }
}

/// Where the header section that starts at `at` ends: after its length prefix and as
/// many bytes as the prefix says. `None` where the prefix is no number, says more than
/// [`MAX_HEADER_LEN`] or more than the input holds.
pub open spec fn header_end(bytes: Seq<u8>, at: int) -> Option<int> {
    match varint_at(bytes, at) {
        Varint::Value { value: section, len: prefix } => if section > MAX_HEADER_LEN || at
            + prefix + section > bytes.len() {
            None
        } else {
            Some(at + prefix + section)
        },
        _ => None,
    }
}

/// Reads the frame of the multihash at `at`, for an identifier whose version and codec
/// take `head` bytes.
fn read_multihash_frame(bytes: &[u8], at: usize, head: usize) -> (r: CidFrame)
    requires
        head <= 20,
    ensures
        r == multihash_frame(bytes@, at as int, head as int),
{
    if at > bytes.len() {
        return CidFrame::Refused;
    }
    proof {
        lemma_varint_len(bytes@, at as int, 0, 0);
    }
    match read_varint(bytes, at) {
        Varint::Value { value: code, len: code_len } => {
            proof {
                lemma_varint_len(bytes@, at + code_len, 0, 0);
            }
            match read_varint(bytes, at + code_len) {
                Varint::Value { value: size, len: size_len } => {
                    if size > MAX_DIGEST_LEN {
                        CidFrame::Fatal
                    } else if size as usize <= bytes.len() - (at + code_len + size_len) {
                        CidFrame::Length(head + code_len + size_len + size as usize)
                    } else {
                        CidFrame::Refused
                    }
                },
                _ => CidFrame::Refused,
            }
        },
        _ => CidFrame::Refused,
    }
}

/// Reads the frame of the identifier at `at`.
pub fn read_cid_frame(bytes: &[u8], at: usize) -> (r: CidFrame)
    ensures
        r == cid_frame(bytes@, at as int),
{
    if at > bytes.len() {
        return CidFrame::Refused;
    }
    proof {
        lemma_varint_len(bytes@, at as int, 0, 0);
    }
    match read_varint(bytes, at) {
        Varint::Value { value: version, len: version_len } => {
            proof {
                lemma_varint_len(bytes@, at + version_len, 0, 0);
            }
            match read_varint(bytes, at + version_len) {
                Varint::Value { value: codec, len: codec_len } => {
                    let head = version_len + codec_len;
                    if version == 0x12 && codec == 0x20 {
                        if 32 <= bytes.len() - (at + head) {
                            CidFrame::Length(head + 32)
                        } else {
                            CidFrame::Refused
                        }
                    } else if version > 1 {
                        CidFrame::Fatal
                    } else if version == 0 {
                        CidFrame::Refused
                    } else {
                        read_multihash_frame(bytes, at + head, head)
                    }
                },
                _ => CidFrame::Refused,
            }
        },
        _ => CidFrame::Refused,
    }
}

/// Walks the blocks from `at` on and says whether the reader gets through them.
pub fn check_blocks(bytes: &[u8], at: usize, stop: Option<u64>) -> (safe: bool)
    ensures
        safe == blocks_safe(
            bytes@,
            at as int,
            match stop {
                Some(n) => Some(n as int),
                None => None,
            },
            0,
        ),
{
    let ghost limit: Option<int> = match stop {
        Some(n) => Some(n as int),
        None => None,
    };
    if at > bytes.len() {
        return true;
    }
    let mut pos: usize = at;
    let mut read: usize = 0;
    loop
        invariant
            at <= pos <= bytes.len(),
            read == pos - at,
            limit == (match stop {
                Some(n) => Some(n as int),
                None => None,
            }),
            blocks_safe(bytes@, at as int, limit, 0) == blocks_safe(
                bytes@,
                pos as int,
                limit,
                read as int,
            ),
        decreases bytes.len() - pos,
    {
        if let Some(n) = stop {
            if read as u64 >= n {
                return true;
            }
        }
        proof {
            lemma_varint_len(bytes@, pos as int, 0, 0);
        }
        let (section, prefix) = match read_varint(bytes, pos) {
            Varint::Value { value, len } => (value, len),
            _ => {
                return true;
            },
        };
        if section == 0 || section > MAX_BLOCK_LEN {
            return true;
        }
        proof {
            lemma_cid_frame_len(bytes@, pos + prefix);
        }
        match read_cid_frame(bytes, pos + prefix) {
            CidFrame::Fatal => {
                return false;
            },
            CidFrame::Refused => {
                return true;
            },
            CidFrame::Length(cid_len) => {
                if cid_len as u64 > section || section > (bytes.len() - (pos + prefix)) as u64 {
                    return false;
                }
                read = read + prefix + section as usize;
                pos = pos + prefix + section as usize;
            },
        }
    }
}

/// Finds the end of the header section that starts at `at`.
pub fn find_header_end(bytes: &[u8], at: usize) -> (r: Option<usize>)
    ensures
        r matches Some(end) ==> header_end(bytes@, at as int) == Some(end as int) && at < end
            <= bytes.len(),
        r is None ==> header_end(bytes@, at as int) is None,
{
    if at > bytes.len() {
        return None;
    }
    proof {
        lemma_varint_len(bytes@, at as int, 0, 0);
    }
    match read_varint(bytes, at) {
        Varint::Value { value: section, len: prefix } => {
            if section > MAX_HEADER_LEN || section > (bytes.len() - (at + prefix)) as u64 {
                None
            } else {
                Some(at + prefix + section as usize)
            }
        },
        _ => None,
    }
}

/// The bytes of the fixed part of a version 2 header.
pub const V2_HEADER_LEN: usize = 40;

/// Where the reader takes the payload of a version 2 archive to start at the earliest:
/// after a pragma of 11 bytes and the fixed part of the header.
pub const V2_PAYLOAD_MIN_OFFSET: u64 = 51;

/// The unsigned number that the eight bytes from `at` on spell, low byte first.
pub open spec fn le_u64(bytes: Seq<u8>, at: int) -> int {
    bytes[at] + 0x100 * bytes[at + 1] + 0x1_0000 * bytes[at + 2] + 0x100_0000 * bytes[at + 3]
        + 0x1_0000_0000 * bytes[at + 4] + 0x100_0000_0000 * bytes[at + 5] + 0x1_0000_0000_0000
        * bytes[at + 6] + 0x100_0000_0000_0000 * bytes[at + 7]
}

/// Whether the reader gets through a version 2 archive whose pragma ends at `at`. The
/// fixed part of the header gives, low byte first, the payload's offset at byte 16 and
/// its length at byte 24. The reader panics where the offset is under
/// [`V2_PAYLOAD_MIN_OFFSET`] or the length is under that of the payload's own header
/// section; offsets and lengths that do not fit 32 bits are not taken up either, nor is
/// a padding that the input does not hold in full.
pub open spec fn v2_safe(bytes: Seq<u8>, at: int) -> bool {
    if at < 0 || at + V2_HEADER_LEN > bytes.len() {
        true
    } else {
        let offset = le_u64(bytes, at + 16);
        let size = le_u64(bytes, at + 24);
        if offset < V2_PAYLOAD_MIN_OFFSET || offset > u32::MAX || size > u32::MAX {
            false
        } else {
            let padding = offset - V2_PAYLOAD_MIN_OFFSET;
            let inner = at + V2_HEADER_LEN + padding;
            if padding > MAX_PADDING_LEN {
                true
            } else if inner > bytes.len() {
                false
            } else {
                match header_end(bytes, inner) {
                    Some(end) => if size < end - inner {
                        false
                    } else {
                        blocks_safe(bytes, end, Some(size - (end - inner)), 0)
                    },
                    None => true,
                }
            }
        }
    }
}

/// Reads the eight bytes from `at` on as an unsigned number, low byte first, where the
/// input holds eight bytes there.
pub fn read_le_u64(bytes: &[u8], at: usize) -> (r: Option<u64>)
    ensures
        at + 8 <= bytes@.len() ==> r == Some(le_u64(bytes@, at as int) as u64),
        at + 8 <= bytes@.len() ==> le_u64(bytes@, at as int) <= u64::MAX,
        at + 8 > bytes@.len() ==> r is None,
{
    if at > bytes.len() || bytes.len() - at < 8 {
        return None;
    }
    Some(
        (bytes[at] as u64) + 0x100 * (bytes[at + 1] as u64) + 0x1_0000 * (bytes[at + 2] as u64)
            + 0x100_0000 * (bytes[at + 3] as u64) + 0x1_0000_0000 * (bytes[at + 4] as u64)
            + 0x100_0000_0000 * (bytes[at + 5] as u64) + 0x1_0000_0000_0000 * (bytes[at
            + 6] as u64) + 0x100_0000_0000_0000 * (bytes[at + 7] as u64),
    )
}

/// Says whether the reader gets through a version 2 archive whose pragma ends at `at`.
pub fn check_v2(bytes: &[u8], at: usize) -> (safe: bool)
    ensures
        safe == v2_safe(bytes@, at as int),
{
    if at > bytes.len() || bytes.len() - at < V2_HEADER_LEN {
        return true;
    }
    let (offset, size) = match (read_le_u64(bytes, at + 16), read_le_u64(bytes, at + 24)) {
        (Some(offset), Some(size)) => (offset, size),
        _ => {
            return true;
        },
    };
    if offset < V2_PAYLOAD_MIN_OFFSET || offset > 0xffff_ffff || size > 0xffff_ffff {
        return false;
    }
    let padding = offset - V2_PAYLOAD_MIN_OFFSET;
    if padding > MAX_PADDING_LEN {
        return true;
    }
    if padding > (bytes.len() - (at + V2_HEADER_LEN)) as u64 {
        return false;
    }
    let inner = at + V2_HEADER_LEN + padding as usize;
    match find_header_end(bytes, inner) {
        Some(end) => {
            let header_len = (end - inner) as u64;
            if size < header_len {
                false
            } else {
                check_blocks(bytes, end, Some(size - header_len))
            }
        },
        None => true,
    }
}

} // verus!
