//! Fixed-width big-endian integer primitives and the compact (varint-length)
//! encodings used on the wire, as spec-level byte sequences with exec
//! readers and writers proved against them.
use vstd::prelude::*;

verus! {

/// The unsigned 16-bit value of the two big-endian bytes at `i`.
pub open spec fn be_u16(s: Seq<u8>, i: int) -> int {
    s[i] * 0x100 + s[i + 1]
}

/// The signed 16-bit value of the two big-endian bytes at `i` (two's complement).
pub open spec fn be_i16(s: Seq<u8>, i: int) -> int {
    if be_u16(s, i) >= 0x8000 {
        be_u16(s, i) - 0x10000
    } else {
        be_u16(s, i)
    }
}

/// The unsigned 32-bit value of the four big-endian bytes at `i`.
pub open spec fn be_u32(s: Seq<u8>, i: int) -> int {
    s[i] * 0x1000000 + s[i + 1] * 0x10000 + s[i + 2] * 0x100 + s[i + 3]
}

/// The signed 32-bit value of the four big-endian bytes at `i` (two's complement).
pub open spec fn be_i32(s: Seq<u8>, i: int) -> int {
    if be_u32(s, i) >= 0x80000000 {
        be_u32(s, i) - 0x100000000
    } else {
        be_u32(s, i)
    }
}

pub fn read_u16_be(data: &Vec<u8>, pos: usize) -> (r: u16)
    requires
        pos + 2 <= data@.len(),
    ensures
        r as int == be_u16(data@, pos as int),
{
    let _len = data.len();  // binds the buffer length into usize range for the index sums
    (data[pos] as u16) * 0x100 + (data[pos + 1] as u16)
}

pub fn read_i16_be(data: &Vec<u8>, pos: usize) -> (r: i16)
    requires
        pos + 2 <= data@.len(),
    ensures
        r as int == be_i16(data@, pos as int),
{
    let x = read_u16_be(data, pos);
    if x >= 0x8000 {
        ((x as i32) - 0x10000) as i16
    } else {
        x as i16
    }
}

pub fn read_u32_be(data: &Vec<u8>, pos: usize) -> (r: u32)
    requires
        pos + 4 <= data@.len(),
    ensures
        r as int == be_u32(data@, pos as int),
{
    let _len = data.len();  // binds the buffer length into usize range for the index sums
    (data[pos] as u32) * 0x1000000 + (data[pos + 1] as u32) * 0x10000 + (data[pos + 2] as u32)
        * 0x100 + (data[pos + 3] as u32)
}

pub fn read_i32_be(data: &Vec<u8>, pos: usize) -> (r: i32)
    requires
        pos + 4 <= data@.len(),
    ensures
        r as int == be_i32(data@, pos as int),
{
    let x = read_u32_be(data, pos);
    if x >= 0x80000000 {
        ((x as i64) - 0x100000000) as i32
    } else {
        x as i32
    }
}

/// Two big-endian bytes of an unsigned 16-bit value.
pub open spec fn enc_u16_be(v: int) -> Seq<u8> {
    seq![((v / 0x100) % 0x100) as u8, (v % 0x100) as u8]
}

/// Two big-endian bytes of a signed 16-bit value (two's complement).
pub open spec fn enc_i16_be(v: int) -> Seq<u8> {
    enc_u16_be(if v < 0 { v + 0x10000 } else { v })
}

/// Four big-endian bytes of an unsigned 32-bit value.
pub open spec fn enc_u32_be(v: int) -> Seq<u8> {
    seq![
        ((v / 0x1000000) % 0x100) as u8,
        ((v / 0x10000) % 0x100) as u8,
        ((v / 0x100) % 0x100) as u8,
        (v % 0x100) as u8,
    ]
}

/// Four big-endian bytes of a signed 32-bit value (two's complement).
pub open spec fn enc_i32_be(v: int) -> Seq<u8> {
    enc_u32_be(if v < 0 { v + 0x100000000 } else { v })
}

pub fn put_u16_be(out: &mut Vec<u8>, v: u16)
    ensures
        final(out)@ == old(out)@ + enc_u16_be(v as int),
{
    out.push((v / 0x100) as u8);
    out.push((v % 0x100) as u8);
    proof {
        assert(out@ =~= old(out)@ + enc_u16_be(v as int));
    }
}

pub fn put_i16_be(out: &mut Vec<u8>, v: i16)
    ensures
        final(out)@ == old(out)@ + enc_i16_be(v as int),
{
    let w: u16 = if v >= 0 {
        v as u16
    } else {
        ((v as i32) + 0x10000) as u16
    };
    put_u16_be(out, w);
}

pub fn put_u32_be(out: &mut Vec<u8>, v: u32)
    ensures
        final(out)@ == old(out)@ + enc_u32_be(v as int),
{
    out.push((v / 0x1000000) as u8);
    out.push(((v / 0x10000) % 0x100) as u8);
    out.push(((v / 0x100) % 0x100) as u8);
    out.push((v % 0x100) as u8);
    proof {
        assert(out@ =~= old(out)@ + enc_u32_be(v as int));
    }
}

pub fn put_i32_be(out: &mut Vec<u8>, v: i32)
    ensures
        final(out)@ == old(out)@ + enc_i32_be(v as int),
{
    let w: u32 = if v >= 0 {
        v as u32
    } else {
        ((v as i64) + 0x100000000) as u32
    };
    put_u32_be(out, w);
}

/// The unsigned base-128 varint encoding of a non-negative value: low seven
/// bits first, top bit of each byte set while more groups follow.
pub open spec fn enc_uvarint(v: int) -> Seq<u8>
    decreases v,
{
    if v < 0x80 {
        seq![v as u8]
    } else {
        seq![((v % 0x80) + 0x80) as u8] + enc_uvarint(v / 0x80)
    }
}

pub fn put_uvarint(out: &mut Vec<u8>, v: u32)
    ensures
        final(out)@ == old(out)@ + enc_uvarint(v as int),
{
    let ghost base = old(out)@;
    let mut x = v;
    while x >= 0x80
        invariant
            base + enc_uvarint(v as int) == out@ + enc_uvarint(x as int),
        decreases x,
    {
        let ghost x0 = x as int;
        out.push(((x % 0x80) + 0x80) as u8);
        x = x / 0x80;
        proof {
            assert(enc_uvarint(x0) == seq![((x0 % 0x80) + 0x80) as u8] + enc_uvarint(x0 / 0x80));
            assert(out@ + enc_uvarint(x as int) =~= base + enc_uvarint(v as int));
        }
    }
    out.push(x as u8);
    proof {
        assert(enc_uvarint(x as int) == seq![x as u8]);
        assert(out@ =~= base + enc_uvarint(v as int));
    }
}

/// Append the bytes of `b` to `out`.
pub fn append_bytes(out: &mut Vec<u8>, b: &Vec<u8>)
    ensures
        final(out)@ == old(out)@ + b@,
{
    let mut i: usize = 0;
    while i < b.len()
        invariant
            i <= b@.len(),
            out@ == old(out)@ + b@.subrange(0, i as int),
        decreases b@.len() - i,
    {
        out.push(b[i]);
        i = i + 1;
        proof {
            assert(out@ =~= old(out)@ + b@.subrange(0, i as int));
        }
    }
    proof {
        assert(b@.subrange(0, b@.len() as int) =~= b@);
    }
}

/// The compact encoding of a byte string: varint of `len + 1`, then the bytes.
pub open spec fn enc_compact_bytes(b: Seq<u8>) -> Seq<u8> {
    enc_uvarint(b.len() as int + 1) + b
}

pub fn put_compact_bytes(out: &mut Vec<u8>, b: &Vec<u8>)
    requires
        b@.len() < 0xffffffff,
    ensures
        final(out)@ == old(out)@ + enc_compact_bytes(b@),
{
    put_uvarint(out, (b.len() as u32) + 1);
    append_bytes(out, b);
    proof {
        assert(out@ =~= old(out)@ + enc_compact_bytes(b@));
    }
}

/// Copy a range of `data` into a fresh vector.
pub fn copy_range(data: &Vec<u8>, start: usize, end: usize) -> (r: Vec<u8>)
    requires
        start <= end,
        end <= data@.len(),
    ensures
        r@ == data@.subrange(start as int, end as int),
{
    let mut r: Vec<u8> = Vec::new();
    let mut i: usize = start;
    while i < end
        invariant
            start <= i <= end,
            end <= data@.len(),
            r@ == data@.subrange(start as int, i as int),
        decreases end - i,
    {
        r.push(data[i]);
        i = i + 1;
        proof {
            assert(r@ =~= data@.subrange(start as int, i as int));
        }
    }
    r
}

/// Copy a whole vector.
pub fn copy_bytes(data: &Vec<u8>) -> (r: Vec<u8>)
    ensures
        r@ == data@,
{
    let r = copy_range(data, 0, data.len());
    proof {
        assert(data@.subrange(0, data@.len() as int) =~= data@);
    }
    r
}

/// Whether two byte vectors hold the same bytes.
pub fn bytes_eq(a: &Vec<u8>, b: &Vec<u8>) -> (r: bool)
    ensures
        r == (a@ == b@),
{
    if a.len() != b.len() {
        proof {
            assert(a@.len() != b@.len());
        }
        return false;
    }
    let mut i: usize = 0;
    while i < a.len()
        invariant
            a@.len() == b@.len(),
            i <= a@.len(),
            forall|j: int| 0 <= j < i ==> a@[j] == b@[j],
        decreases a@.len() - i,
    {
        if a[i] != b[i] {
            return false;
        }
        i = i + 1;
    }
    proof {
        assert(a@ =~= b@);
    }
    true
}

} // verus!
