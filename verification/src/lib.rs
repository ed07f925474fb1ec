//! A minimal broker core for a length-prefixed, binary RPC wire protocol:
//! frame and header decoding, version negotiation, a cluster-metadata log
//! reader that folds log records into a topic index, and the response
//! builders for the three supported request kinds.
use vstd::prelude::*;

pub mod api_key;
pub mod error;
pub mod handler;
pub mod metadata;
pub mod records;
pub mod requests;
pub mod responses;
pub mod wire;

use crate::error::DecodeError;

verus! {

/// A read cursor over an in-memory byte buffer: `pos` marks how many bytes
/// have been consumed so far.
pub struct ByteCursor {
    pub data: Vec<u8>,
    pub pos: usize,
}

impl ByteCursor {
    pub open spec fn wf(&self) -> bool {
        self.pos <= self.data@.len()
    }

    pub fn new(data: Vec<u8>) -> (r: ByteCursor)
        ensures
            r.data@ == data@,
            r.pos == 0,
            r.wf(),
    {
        ByteCursor { data, pos: 0 }
    }
}

/// Whether an unsigned base-128 varint can be decoded from `s` starting at
/// byte `pos + i` (group `i`), reading no byte at or past `end`. Decoding
/// stops after five groups regardless of the continuation bit.
pub open spec fn uvarint_ok(s: Seq<u8>, pos: int, end: int, i: int) -> bool
    decreases 5 - i,
{
    if i >= 5 {
        true
    } else if pos + i >= end {
        false
    } else if s[pos + i] < 0x80 {
        true
    } else {
        uvarint_ok(s, pos, end, i + 1)
    }
}

/// Number of bytes a varint starting at `pos` occupies (counted from group 0,
/// so the value is absolute, not relative to `i`).
pub open spec fn uvarint_len(s: Seq<u8>, pos: int, end: int, i: int) -> int
    decreases 5 - i,
{
    if i >= 5 {
        5
    } else if pos + i >= end {
        i
    } else if s[pos + i] < 0x80 {
        i + 1
    } else {
        uvarint_len(s, pos, end, i + 1)
    }
}

/// Value of the varint starting at `pos`: each group contributes its low
/// seven bits, little-endian group order, truncated to 32 bits.
pub open spec fn uvarint_val(s: Seq<u8>, pos: int, end: int, i: int, acc: u32) -> u32
    decreases 5 - i,
{
    if i >= 5 {
        acc
    } else if pos + i >= end {
        acc
    } else {
        let b = s[pos + i];
        let acc2 = acc | ((b & 0x7f) as u32) << ((7 * i) as u32);
        if b < 0x80 {
            acc2
        } else {
            uvarint_val(s, pos, end, i + 1, acc2)
        }
    }
}

/// The zigzag mapping back from an unsigned value to a signed one:
/// `(v >> 1) XOR -(v & 1)`, i.e. even values map to `v / 2` and odd values
/// to `-(v / 2) - 1`.
pub open spec fn zigzag_decode(v: u32) -> int {
    if v % 2 == 0 {
        (v / 2) as int
    } else {
        -1 - ((v / 2) as int)
    }
}

fn read_uvarint_step(data: &Vec<u8>, pos: usize, end: usize, i: usize, acc: u32) -> (r: Result<
    (u32, usize),
    DecodeError,
>)
    requires
        pos + i <= end,
        end <= data@.len(),
        i <= 5,
    ensures
        match r {
            Ok((v, n)) => uvarint_ok(data@, pos as int, end as int, i as int) && v == uvarint_val(
                data@,
                pos as int,
                end as int,
                i as int,
                acc,
            ) && n == pos + uvarint_len(data@, pos as int, end as int, i as int) && pos < n <= end,
            Err(e) => !uvarint_ok(data@, pos as int, end as int, i as int) && e
                == DecodeError::TruncatedInput,
        },
    decreases 5 - i,
{
    if i >= 5 {
        Ok((acc, pos + 5))
    } else if end - pos <= i {
        Err(DecodeError::TruncatedInput)
    } else {
        let b = data[pos + i];
        let acc2 = acc | (((b & 0x7f) as u32) << ((7 * i) as u32));
        if b < 0x80 {
            Ok((acc2, pos + i + 1))
        } else {
            read_uvarint_step(data, pos, end, i + 1, acc2)
        }
    }
}

/// Decode an unsigned varint from `data` at `pos`, never reading at or past
/// `end`; returns the value and the position just past the varint.
pub fn read_uvarint(data: &Vec<u8>, pos: usize, end: usize) -> (r: Result<(u32, usize), DecodeError>)
    requires
        pos <= end,
        end <= data@.len(),
    ensures
        match r {
            Ok((v, n)) => uvarint_ok(data@, pos as int, end as int, 0) && v == uvarint_val(
                data@,
                pos as int,
                end as int,
                0,
                0,
            ) && n == pos + uvarint_len(data@, pos as int, end as int, 0) && pos < n <= end,
            Err(e) => !uvarint_ok(data@, pos as int, end as int, 0) && e
                == DecodeError::TruncatedInput,
        },
{
    read_uvarint_step(data, pos, end, 0, 0)
}

/// Decode a zigzag-encoded signed varint from `data` at `pos`.
pub fn read_zigzag(data: &Vec<u8>, pos: usize, end: usize) -> (r: Result<(i32, usize), DecodeError>)
    requires
        pos <= end,
        end <= data@.len(),
    ensures
        match r {
            Ok((v, n)) => uvarint_ok(data@, pos as int, end as int, 0) && v as int == zigzag_decode(
                uvarint_val(data@, pos as int, end as int, 0, 0),
            ) && n == pos + uvarint_len(data@, pos as int, end as int, 0) && pos < n <= end,
            Err(e) => !uvarint_ok(data@, pos as int, end as int, 0) && e
                == DecodeError::TruncatedInput,
        },
{
    match read_uvarint(data, pos, end) {
        Ok((v, n)) => {
            let half: u32 = v / 2;
            if v % 2 == 0 {
                Ok(((half as i32), n))
            } else {
                Ok((-1i32 - (half as i32), n))
            }
        },
        Err(e) => Err(e),
    }
}

/// Decode an unsigned base-128 varint from the cursor: one to five bytes,
/// low seven bits of each byte in little-endian group order, with the top
/// bit as continuation flag; stops after five groups regardless.
pub fn decode_unsigned_int(buf: &mut ByteCursor) -> (r: Result<u32, DecodeError>)
    requires
        old(buf).wf(),
    ensures
        final(buf).wf(),
        final(buf).data@ == old(buf).data@,
        match r {
            Ok(v) => {
                let s = old(buf).data@;
                let p = old(buf).pos as int;
                let e = s.len() as int;
                uvarint_ok(s, p, e, 0) && v == uvarint_val(s, p, e, 0, 0) && final(buf).pos == p
                    + uvarint_len(s, p, e, 0)
            },
            Err(err) => !uvarint_ok(
                old(buf).data@,
                old(buf).pos as int,
                old(buf).data@.len() as int,
                0,
            ) && err == DecodeError::TruncatedInput && final(buf).pos == old(buf).pos,
        },
{
    let end = buf.data.len();
    match read_uvarint(&buf.data, buf.pos, end) {
        Ok((v, n)) => {
            buf.pos = n;
            Ok(v)
        },
        Err(e) => Err(e),
    }
}

/// Decode a zigzag-encoded signed integer from the cursor: the unsigned
/// varint value mapped back to a signed one.
pub fn decode_int(buf: &mut ByteCursor) -> (r: Result<i32, DecodeError>)
    requires
        old(buf).wf(),
    ensures
        final(buf).wf(),
        final(buf).data@ == old(buf).data@,
        match r {
            Ok(v) => {
                let s = old(buf).data@;
                let p = old(buf).pos as int;
                let e = s.len() as int;
                uvarint_ok(s, p, e, 0) && v as int == zigzag_decode(uvarint_val(s, p, e, 0, 0))
                    && final(buf).pos == p + uvarint_len(s, p, e, 0)
            },
            Err(err) => !uvarint_ok(
                old(buf).data@,
                old(buf).pos as int,
                old(buf).data@.len() as int,
                0,
            ) && err == DecodeError::TruncatedInput && final(buf).pos == old(buf).pos,
        },
{
    let end = buf.data.len();
    match read_zigzag(&buf.data, buf.pos, end) {
        Ok((v, n)) => {
            buf.pos = n;
            Ok(v)
        },
        Err(e) => Err(e),
    }
}

} // verus!
