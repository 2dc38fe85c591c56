use vstd::prelude::*;

use crate::bytes::seqs_model;
use crate::classfile::{extract_strings, pool_model, spec_extract, ClassFile, CpEntry, CpEntryModel};

verus! {

/// Why a class file failed to decode: a wrong magic number, bytes missing at
/// the end, or a constant-pool tag the format does not define.
#[derive(Clone, Copy, Debug, PartialEq, Eq, Structural)]
pub enum FormatError {
    BadMagic,
    Truncated,
    UnknownTag(u8),
}

/// The big-endian 16-bit value at `b[p..p+2]`.
pub open spec fn be16(b: Seq<u8>, p: int) -> int {
    b[p] * 256 + b[p + 1]
}

/// The big-endian 32-bit value at `b[p..p+4]`.
pub open spec fn be32(b: Seq<u8>, p: int) -> int {
    b[p] * 0x1000000 + b[p + 1] * 0x10000 + b[p + 2] * 256 + b[p + 3]
}

pub fn read_u16(b: &Vec<u8>, p: usize) -> (r: u16)
    requires
        p + 2 <= b@.len(),
    ensures
        r == be16(b@, p as int),
{
    let blen = b.len();
    assert(p + 1 < blen);
    (b[p] as u16) * 256 + (b[p + 1] as u16)
}

pub fn read_u32(b: &Vec<u8>, p: usize) -> (r: u32)
    requires
        p + 4 <= b@.len(),
    ensures
        r == be32(b@, p as int),
{
    let blen = b.len();
    assert(p + 3 < blen);
    (b[p] as u32) * 0x1000000 + (b[p + 1] as u32) * 0x10000 + (b[p + 2] as u32) * 256 + (b[p
        + 3] as u32)
}

/// Payload size, in bytes after the tag byte, of the constant-pool tags whose
/// payload has a fixed width. `Utf8` (tag 1) is length-prefixed and has no
/// fixed width; a tag outside the format yields `None`.
pub open spec fn spec_fixed_payload(tag: u8) -> Option<int> {
    if tag == 7 || tag == 16 || tag == 19 || tag == 20 {
        Some(2)
    } else if tag == 15 {
        Some(3)
    } else if tag == 3 || tag == 4 || tag == 8 || tag == 9 || tag == 10 || tag == 11 || tag == 12
        || tag == 17 || tag == 18 {
        Some(4)
    } else if tag == 5 || tag == 6 {
        Some(8)
    } else {
        None
    }
}

pub fn fixed_payload(tag: u8) -> (r: Option<usize>)
    ensures
        match r {
            Some(n) => spec_fixed_payload(tag) == Some(n as int),
            None => spec_fixed_payload(tag) is None,
        },
{
    match tag {
        7 | 16 | 19 | 20 => Some(2),
        15 => Some(3),
        3 | 4 | 8 | 9 | 10 | 11 | 12 | 17 | 18 => Some(4),
        5 | 6 => Some(8),
        _ => None,
    }
}

/// One constant-pool slot read at position `p`: the slot's model and the
/// position just past it, or the error that stops the whole decode.
pub open spec fn parse_entry(b: Seq<u8>, p: int) -> Result<(CpEntryModel, int), FormatError> {
    if p < 0 || p >= b.len() {
        Err(FormatError::Truncated)
    } else {
        let tag = b[p];
        if tag == 1 {
            if p + 3 > b.len() {
                Err(FormatError::Truncated)
            } else {
                let n = be16(b, p + 1);
                if p + 3 + n > b.len() {
                    Err(FormatError::Truncated)
                } else {
                    Ok((CpEntryModel::Utf8(b.subrange(p + 3, p + 3 + n)), p + 3 + n))
                }
            }
        } else if tag == 8 {
            if p + 3 > b.len() {
                Err(FormatError::Truncated)
            } else {
                Ok((CpEntryModel::StringRef(be16(b, p + 1) as u16), p + 3))
            }
        } else {
            match spec_fixed_payload(tag) {
                Some(n) => if p + 1 + n > b.len() {
                    Err(FormatError::Truncated)
                } else {
                    Ok((CpEntryModel::Opaque, p + 1 + n))
                },
                None => Err(FormatError::UnknownTag(tag)),
            }
        }
    }
}

/// `k` consecutive slots read from position `p`: their models and the position
/// just past the last, or the first error.
pub open spec fn parse_entries(b: Seq<u8>, p: int, k: nat) -> Result<
    (Seq<CpEntryModel>, int),
    FormatError,
>
    decreases k,
{
    if k == 0 {
        Ok((seq![], p))
    } else {
        match parse_entry(b, p) {
            Ok((e, q)) => match parse_entries(b, q, (k - 1) as nat) {
                Ok((s, end)) => Ok((seq![e] + s, end)),
                Err(er) => Err(er),
            },
            Err(er) => Err(er),
        }
    }
}

/// The decode of a whole class file's header: the magic number must be
/// 0xCAFEBABE, then minor and major version are skipped, then the 16-bit pool
/// count `n` announces `n - 1` slots, read in sequence. The magic is judged
/// before any slot is read, so a wrong magic is `BadMagic` even when the rest
/// of the bytes are garbage.
pub open spec fn spec_decode(b: Seq<u8>) -> Result<Seq<CpEntryModel>, FormatError> {
    if b.len() < 4 {
        Err(FormatError::Truncated)
    } else if be32(b, 0) != 0xCAFEBABE {
        Err(FormatError::BadMagic)
    } else if b.len() < 10 {
        Err(FormatError::Truncated)
    } else {
        let n = be16(b, 8);
        let k: nat = if n == 0 {
            0nat
        } else {
            (n - 1) as nat
        };
        match parse_entries(b, 10, k) {
            Ok((s, _)) => Ok(s),
            Err(er) => Err(er),
        }
    }
}

/// A byte stream whose first four bytes are not 0xCAFEBABE never decodes,
/// whatever follows them: the decode fails with `BadMagic` before any pool
/// slot is read.
pub proof fn lemma_bad_magic(b: Seq<u8>)
    requires
        b.len() >= 4,
        be32(b, 0) != 0xCAFEBABE,
    ensures
        spec_decode(b) == Err::<Seq<CpEntryModel>, _>(FormatError::BadMagic),
{
}

/// Read one pool slot at `p`.
fn parse_entry_at(b: &Vec<u8>, p: usize) -> (r: Result<(CpEntry, usize), FormatError>)
    ensures
        match r {
            Ok((e, q)) => parse_entry(b@, p as int) == Ok::<_, FormatError>((e.model(), q as int))
                && p < q <= b@.len(),
            Err(er) => parse_entry(b@, p as int) == Err::<(CpEntryModel, int), _>(er),
        },
{
    if p >= b.len() {
        return Err(FormatError::Truncated);
    }
    let tag = b[p];
    if tag == 1 {
        if b.len() - p < 3 {
            return Err(FormatError::Truncated);
        }
        let n = read_u16(b, p + 1) as usize;
        if b.len() - (p + 3) < n {
            return Err(FormatError::Truncated);
        }
        let text = crate::bytes::vec_subrange(b, p + 3, p + 3 + n);
        Ok((CpEntry::Utf8(text), p + 3 + n))
    } else if tag == 8 {
        if b.len() - p < 3 {
            return Err(FormatError::Truncated);
        }
        let idx = read_u16(b, p + 1);
        Ok((CpEntry::StringRef(idx), p + 3))
    } else {
        match fixed_payload(tag) {
            Some(n) => {
                if b.len() - (p + 1) < n {
                    return Err(FormatError::Truncated);
                }
                Ok((CpEntry::Opaque, p + 1 + n))
            },
            None => Err(FormatError::UnknownTag(tag)),
        }
    }
}

/// Decode a class file from its bytes. The result is exactly what
/// `spec_decode` says of the bytes: a pool on success, and on failure the
/// error `spec_decode` names.
pub fn decode_class(bytes: &Vec<u8>) -> (r: Result<ClassFile, FormatError>)
    ensures
        match r {
            Ok(c) => c.magic == 0xCAFEBABE && spec_decode(bytes@) == Ok::<_, FormatError>(c.pool()),
            Err(er) => spec_decode(bytes@) == Err::<Seq<CpEntryModel>, _>(er),
        },
{
    if bytes.len() < 4 {
        return Err(FormatError::Truncated);
    }
    let magic = read_u32(bytes, 0);
    if magic != 0xCAFEBABE {
        return Err(FormatError::BadMagic);
    }
    if bytes.len() < 10 {
        return Err(FormatError::Truncated);
    }
    let n = read_u16(bytes, 8);
    let total: usize = if n == 0 {
        0
    } else {
        (n - 1) as usize
    };
    let mut pool: Vec<CpEntry> = Vec::new();
    let mut pos: usize = 10;
    let mut i: usize = 0;
    while i < total
        invariant
            i <= total,
            10 <= pos <= bytes@.len(),
            be32(bytes@, 0) == 0xCAFEBABE,
            n == be16(bytes@, 8),
            total as int == if n == 0 {
                0int
            } else {
                n - 1
            },
            parse_entries(bytes@, 10, total as nat) == (match parse_entries(
                bytes@,
                pos as int,
                (total - i) as nat,
            ) {
                Ok((s, end)) => Ok::<_, FormatError>((pool_model(pool@) + s, end)),
                Err(er) => Err(er),
            }),
        decreases total - i,
    {
        let ghost m = (total - i) as nat;
        match parse_entry_at(bytes, pos) {
            Ok((e, q)) => {
                let ghost prev = pool@;
                pool.push(e);
                proof {
                    assert(pool_model(pool@) =~= pool_model(prev).push(e.model()));
                    match parse_entries(bytes@, q as int, (m - 1) as nat) {
                        Ok((s, end)) => {
                            assert(pool_model(prev).push(e.model()) + s =~= pool_model(prev) + (
                            seq![e.model()] + s));
                        },
                        Err(_) => {},
                    }
                }
                pos = q;
                i = i + 1;
            },
            Err(er) => {
                proof {
                    assert(parse_entries(bytes@, pos as int, (total - i) as nat) == Err::<
                        (Seq<CpEntryModel>, int),
                        _,
                    >(er));
                }
                return Err(er);
            },
        }
    }
    assert(parse_entries(bytes@, pos as int, 0nat) == Ok::<_, FormatError>((
        Seq::<CpEntryModel>::empty(),
        pos as int,
    )));
    assert(pool_model(pool@) + Seq::<CpEntryModel>::empty() =~= pool_model(pool@));
    let c = ClassFile { magic, constant_pool: pool };
    Ok(c)
}

/// The whole treatment of one `.class` input: decode the file and extract its
/// strings, one per `StringRef` slot in pool order.
pub fn class_strings(bytes: &Vec<u8>) -> (r: Result<Vec<Vec<u8>>, FormatError>)
    ensures
        match r {
            Ok(v) => spec_decode(bytes@) is Ok && seqs_model(v@) == spec_extract(
                spec_decode(bytes@)->Ok_0,
            ),
            Err(e) => spec_decode(bytes@) == Err::<Seq<CpEntryModel>, _>(e),
        },
{
    match decode_class(bytes) {
        Ok(c) => Ok(extract_strings(&c)),
        Err(e) => Err(e),
    }
}

} // verus!
