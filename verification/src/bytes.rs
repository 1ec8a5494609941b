//! Numbers in bytes, the lowest byte first.

use vstd::prelude::*;

verus! {

/// The number in four bytes from `at` on.
pub open spec fn u32_at(s: Seq<u8>, at: int) -> int {
    s[at] + 0x100 * s[at + 1] + 0x1_0000 * s[at + 2] + 0x100_0000 * s[at + 3]
}

/// The number in eight bytes from `at` on.
pub open spec fn u64_at(s: Seq<u8>, at: int) -> int {
    u32_at(s, at) + 0x1_0000_0000 * u32_at(s, at + 4)
}

/// A number is written lowest byte first: each byte of it can be read back by
/// dividing.
pub proof fn law_the_lowest_byte_comes_first(s: Seq<u8>, at: int)
    ensures
        0 <= u32_at(s, at) < 0x1_0000_0000,
        u32_at(s, at) % 0x100 == s[at],
        u32_at(s, at) / 0x100 % 0x100 == s[at + 1],
        u32_at(s, at) / 0x1_0000 % 0x100 == s[at + 2],
        u32_at(s, at) / 0x100_0000 == s[at + 3],
        u64_at(s, at) % 0x1_0000_0000 == u32_at(s, at),
        u64_at(s, at) / 0x1_0000_0000 == u32_at(s, at + 4),
{
}

/// The number in four bytes from `at` on.
pub fn read_u32(s: &[u8], at: usize) -> (r: u32)
    requires
        at + 4 <= s@.len(),
    ensures
        r == u32_at(s@, at as int),
{
    let n: usize = s.len();
    assert(at + 4 <= n);
    s[at] as u32 + 0x100 * s[at + 1] as u32 + 0x1_0000 * s[at + 2] as u32 + 0x100_0000 * s[at
        + 3] as u32
}

} // verus!
