use vstd::prelude::*;
use crate::addr::Address;

verus! {

/// The unsigned 64-bit value stored little-endian at byte offset `o` of `s`.
pub open spec fn le64_at(s: Seq<u8>, o: int) -> u64
    recommends
        0 <= o,
        o + 8 <= s.len(),
{
    ((s[o] as int) + (s[o + 1] as int) * 0x100 + (s[o + 2] as int) * 0x10000 + (s[o + 3] as int)
        * 0x1000000 + (s[o + 4] as int) * 0x100000000 + (s[o + 5] as int) * 0x10000000000 + (s[o
        + 6] as int) * 0x1000000000000 + (s[o + 7] as int) * 0x100000000000000) as u64
}

/// The signed 64-bit value stored little-endian at byte offset `o` of `s`.
pub open spec fn le64_signed_at(s: Seq<u8>, o: int) -> i64 {
    le64_at(s, o) as i64
}

/// The unsigned 128-bit value stored little-endian at byte offset `o` of `s`.
pub open spec fn le128_at(s: Seq<u8>, o: int) -> u128
    recommends
        0 <= o,
        o + 16 <= s.len(),
{
    ((le64_at(s, o) as int) + (le64_at(s, o + 8) as int) * 0x10000000000000000) as u128
}

/// The signed 128-bit value stored little-endian at byte offset `o` of `s`.
pub open spec fn le128_signed_at(s: Seq<u8>, o: int) -> i128 {
    le128_at(s, o) as i128
}

/// The 32-byte address stored at byte offset `o` of `s`.
pub open spec fn address_at(s: Seq<u8>, o: int) -> Address
    recommends
        0 <= o,
        o + 32 <= s.len(),
{
    Address {
        w0: le64_at(s, o),
        w1: le64_at(s, o + 8),
        w2: le64_at(s, o + 16),
        w3: le64_at(s, o + 24),
    }
}

pub fn read_u64_le(b: &Vec<u8>, o: usize) -> (r: u64)
    requires
        o + 8 <= b@.len(),
    ensures
        r == le64_at(b@, o as int),
{
    let n: usize = b.len();
    assert(o + 8 <= n);
    (b[o] as u64) + (b[o + 1] as u64) * 0x100 + (b[o + 2] as u64) * 0x10000 + (b[o + 3] as u64)
        * 0x1000000 + (b[o + 4] as u64) * 0x100000000 + (b[o + 5] as u64) * 0x10000000000 + (b[o
        + 6] as u64) * 0x1000000000000 + (b[o + 7] as u64) * 0x100000000000000
}

pub fn read_i64_le(b: &Vec<u8>, o: usize) -> (r: i64)
    requires
        o + 8 <= b@.len(),
    ensures
        r == le64_signed_at(b@, o as int),
{
    read_u64_le(b, o) as i64
}

pub fn read_u128_le(b: &Vec<u8>, o: usize) -> (r: u128)
    requires
        o + 16 <= b@.len(),
    ensures
        r == le128_at(b@, o as int),
{
    let n: usize = b.len();
    assert(o + 16 <= n);
    (read_u64_le(b, o) as u128) + (read_u64_le(b, o + 8) as u128) * 0x10000000000000000
}

pub fn read_i128_le(b: &Vec<u8>, o: usize) -> (r: i128)
    requires
        o + 16 <= b@.len(),
    ensures
        r == le128_signed_at(b@, o as int),
{
    read_u128_le(b, o) as i128
}

pub fn read_address(b: &Vec<u8>, o: usize) -> (r: Address)
    requires
        o + 32 <= b@.len(),
    ensures
        r == address_at(b@, o as int),
{
    let n: usize = b.len();
    assert(o + 32 <= n);
    Address {
        w0: read_u64_le(b, o),
        w1: read_u64_le(b, o + 8),
        w2: read_u64_le(b, o + 16),
        w3: read_u64_le(b, o + 24),
    }
}

} // verus!
