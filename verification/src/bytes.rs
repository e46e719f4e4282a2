//! Little-endian integers in byte runs, and byte runs compared.

use vstd::prelude::*;

verus! {

/// Little-endian 16-bit value at `at`.
pub open spec fn le16(s: Seq<u8>, at: int) -> int {
    s[at] as int + 256 * (s[at + 1] as int)
}

/// Little-endian 32-bit value at `at`.
pub open spec fn le32(s: Seq<u8>, at: int) -> int {
    le16(s, at) + 65536 * le16(s, at + 2)
}

/// Little-endian 64-bit value at `at`.
pub open spec fn le64(s: Seq<u8>, at: int) -> int {
    le32(s, at) + 0x1_0000_0000 * le32(s, at + 4)
}

/// Little-endian 32-bit value at `at`, read as two's complement.
pub open spec fn le32_signed(s: Seq<u8>, at: int) -> int {
    if le32(s, at) >= 0x8000_0000 {
        le32(s, at) - 0x1_0000_0000
    } else {
        le32(s, at)
    }
}

pub fn read_le16(data: &[u8], at: usize) -> (v: u16)
    requires
        at + 2 <= data@.len(),
    ensures
        v == le16(data@, at as int),
{
    let lo: u16 = data[at] as u16;
    let hi: u16 = data[at + 1] as u16;
    lo + 256 * hi
}

pub fn read_le32(data: &[u8], at: usize) -> (v: u32)
    requires
        at + 4 <= data@.len(),
    ensures
        v == le32(data@, at as int),
{
    let len: usize = data.len();
    assert(at + 4 <= len);
    let lo: u32 = read_le16(data, at) as u32;
    let hi: u32 = read_le16(data, at + 2) as u32;
    lo + 65536 * hi
}

pub fn read_le64(data: &[u8], at: usize) -> (v: u64)
    requires
        at + 8 <= data@.len(),
    ensures
        v == le64(data@, at as int),
{
    let len: usize = data.len();
    assert(at + 8 <= len);
    let lo: u64 = read_le32(data, at) as u64;
    let hi: u64 = read_le32(data, at + 4) as u64;
    lo + 0x1_0000_0000 * hi
}

pub fn read_le32_signed(data: &[u8], at: usize) -> (v: i32)
    requires
        at + 4 <= data@.len(),
    ensures
        v == le32_signed(data@, at as int),
{
    let raw: u32 = read_le32(data, at);
    if raw >= 0x8000_0000 {
        ((raw - 0x8000_0000) as i32) - 0x4000_0000 - 0x4000_0000
    } else {
        raw as i32
    }
}

/// Whether two byte runs are the same, length and content.
pub fn same_bytes(a: &[u8], b: &[u8]) -> (same: bool)
    ensures
        same == (a@ == b@),
{
    if a.len() != b.len() {
        return false;
    }
    let n: usize = a.len();
    let mut i: usize = 0;
    while i < n
        invariant
            n == a@.len(),
            n == b@.len(),
            i <= n,
            forall|k: int| 0 <= k < i ==> a@[k] == b@[k],
        decreases n - i,
    {
        if a[i] != b[i] {
            return false;
        }
        i = i + 1;
    }
    assert(a@ =~= b@);
    true
}

} // verus!
