//! Little-endian integer encodings and the Bitcoin variable-length integer,
//! as byte sequences appended to a growing buffer.

use vstd::prelude::*;

verus! {

/// The two bytes of `v` in little-endian order.
pub open spec fn u16_le_bytes(v: u16) -> Seq<u8> {
    seq![(v & 0xff) as u8, ((v >> 8) & 0xff) as u8]
}

/// The four bytes of `v` in little-endian order.
pub open spec fn u32_le_bytes(v: u32) -> Seq<u8> {
    seq![
        (v & 0xff) as u8,
        ((v >> 8) & 0xff) as u8,
        ((v >> 16) & 0xff) as u8,
        ((v >> 24) & 0xff) as u8,
    ]
}

/// The eight bytes of `v` in little-endian order.
pub open spec fn u64_le_bytes(v: u64) -> Seq<u8> {
    seq![
        (v & 0xff) as u8,
        ((v >> 8) & 0xff) as u8,
        ((v >> 16) & 0xff) as u8,
        ((v >> 24) & 0xff) as u8,
        ((v >> 32) & 0xff) as u8,
        ((v >> 40) & 0xff) as u8,
        ((v >> 48) & 0xff) as u8,
        ((v >> 56) & 0xff) as u8,
    ]
}

/// The Bitcoin `VarInt` encoding of `v`: one byte below 0xfd, otherwise a
/// marker byte followed by the value in 2, 4 or 8 little-endian bytes.
pub open spec fn varint_bytes(v: u64) -> Seq<u8> {
    if v < 0xfd {
        seq![v as u8]
    } else if v <= 0xffff {
        seq![0xfdu8] + u16_le_bytes(v as u16)
    } else if v <= 0xffffffff {
        seq![0xfeu8] + u32_le_bytes(v as u32)
    } else {
        seq![0xffu8] + u64_le_bytes(v)
    }
}

pub fn push_u16_le(buf: &mut Vec<u8>, v: u16)
    ensures
        final(buf)@ == old(buf)@ + u16_le_bytes(v),
{
    buf.push((v & 0xff) as u8);
    buf.push(((v >> 8) & 0xff) as u8);
    proof {
        assert(buf@ =~= old(buf)@ + u16_le_bytes(v));
    }
}

pub fn push_u32_le(buf: &mut Vec<u8>, v: u32)
    ensures
        final(buf)@ == old(buf)@ + u32_le_bytes(v),
{
    buf.push((v & 0xff) as u8);
    buf.push(((v >> 8) & 0xff) as u8);
    buf.push(((v >> 16) & 0xff) as u8);
    buf.push(((v >> 24) & 0xff) as u8);
    proof {
        assert(buf@ =~= old(buf)@ + u32_le_bytes(v));
    }
}

pub fn push_u64_le(buf: &mut Vec<u8>, v: u64)
    ensures
        final(buf)@ == old(buf)@ + u64_le_bytes(v),
{
    buf.push((v & 0xff) as u8);
    buf.push(((v >> 8) & 0xff) as u8);
    buf.push(((v >> 16) & 0xff) as u8);
    buf.push(((v >> 24) & 0xff) as u8);
    buf.push(((v >> 32) & 0xff) as u8);
    buf.push(((v >> 40) & 0xff) as u8);
    buf.push(((v >> 48) & 0xff) as u8);
    buf.push(((v >> 56) & 0xff) as u8);
    proof {
        assert(buf@ =~= old(buf)@ + u64_le_bytes(v));
    }
}

pub fn push_varint(buf: &mut Vec<u8>, v: u64)
    ensures
        final(buf)@ == old(buf)@ + varint_bytes(v),
{
    if v < 0xfd {
        buf.push(v as u8);
        proof {
            assert(buf@ =~= old(buf)@ + varint_bytes(v));
        }
    } else if v <= 0xffff {
        buf.push(0xfd);
        push_u16_le(buf, v as u16);
        proof {
            assert(buf@ =~= old(buf)@ + varint_bytes(v));
        }
    } else if v <= 0xffffffff {
        buf.push(0xfe);
        push_u32_le(buf, v as u32);
        proof {
            assert(buf@ =~= old(buf)@ + varint_bytes(v));
        }
    } else {
        buf.push(0xff);
        push_u64_le(buf, v);
        proof {
            assert(buf@ =~= old(buf)@ + varint_bytes(v));
        }
    }
}

pub fn push_bytes(buf: &mut Vec<u8>, data: &[u8])
    ensures
        final(buf)@ == old(buf)@ + data@,
{
    let mut i: usize = 0;
    while i < data.len()
        invariant
            i <= data@.len(),
            buf@ == old(buf)@ + data@.subrange(0, i as int),
        decreases data@.len() - i,
    {
        buf.push(data[i]);
        i = i + 1;
        proof {
            assert(buf@ =~= old(buf)@ + data@.subrange(0, i as int));
        }
    }
    proof {
        assert(data@.subrange(0, data@.len() as int) =~= data@);
    }
}

/// Thirty-two zero bytes.
pub open spec fn zero32() -> Seq<u8> {
    Seq::new(32, |i: int| 0u8)
}

pub fn make_zero32() -> (r: Vec<u8>)
    ensures
        r@ == zero32(),
{
    let mut v: Vec<u8> = Vec::new();
    let mut i: usize = 0;
    while i < 32
        invariant
            i <= 32,
            v@ == zero32().subrange(0, i as int),
        decreases 32 - i,
    {
        v.push(0);
        i = i + 1;
        proof {
            assert(v@ =~= zero32().subrange(0, i as int));
        }
    }
    proof {
        assert(zero32().subrange(0, 32) =~= zero32());
    }
    v
}

pub fn clone_bytes(v: &Vec<u8>) -> (r: Vec<u8>)
    ensures
        r@ == v@,
{
    let r = v.clone();
    proof {
        assert(r@ =~= v@);
    }
    r
}

pub fn bytes_eq(a: &[u8], b: &[u8]) -> (r: bool)
    ensures
        r == (a@ == b@),
{
    if a.len() != b.len() {
        proof {
            assert(a@ != b@);
        }
        return false;
    }
    let n = a.len();
    let mut i: usize = 0;
    while i < n
        invariant
            n == a@.len() == b@.len(),
            i <= n,
            forall|j: int| 0 <= j < i ==> a@[j] == b@[j],
        decreases n - i,
    {
        if a[i] != b[i] {
            return false;
        }
        i = i + 1;
    }
    proof {
        assert(a@ =~= b@);
    }
    true
}

/// The opcode of the `OP_PUSHDATA` form appropriate to a payload of `len`
/// bytes, or `None` when the payload fits a direct push (or exceeds what
/// `OP_PUSHDATA4` can express).
pub open spec fn spec_pushdata_opcode(len: u64) -> Option<u8> {
    if len <= 75 {
        None
    } else if len <= 0xff {
        Some(0x4cu8)
    } else if len <= 0xffff {
        Some(0x4du8)
    } else if len <= 0xffffffff {
        Some(0x4eu8)
    } else {
        None
    }
}

pub fn get_pushdata_opcode(len: u64) -> (r: Option<u8>)
    ensures
        r == spec_pushdata_opcode(len),
{
    if len <= 75 {
        None
    } else if len <= 0xff {
        Some(0x4c)
    } else if len <= 0xffff {
        Some(0x4d)
    } else if len <= 0xffffffff {
        Some(0x4e)
    } else {
        None
    }
}

} // verus!
