//! Vulkan version numbers.

use vstd::prelude::*;

verus! {

/// A version as Vulkan packs it; a later version has the larger number.
#[derive(Debug, Clone, Copy, PartialEq, Eq, Structural)]
pub struct Version(pub u32);

/// Packs a version number.
pub open spec fn packed(variant: u32, major: u32, minor: u32, patch: u32) -> u32 {
    (variant << 29) | (major << 22) | (minor << 12) | patch
}

impl Version {
    /// Packs a version number.
    pub fn new(variant: u32, major: u32, minor: u32, patch: u32) -> (r: Self)
        ensures
            r == Version(packed(variant, major, minor, patch)),
    {
        Version((variant << 29) | (major << 22) | (minor << 12) | patch)
    }

    /// Whether this version is `other` or a later one.
    pub fn at_least(&self, other: Version) -> (r: bool)
        ensures
            r == (self.0 >= other.0),
    {
        self.0 >= other.0
    }

    /// The major version.
    pub fn major(&self) -> (r: u32)
        ensures
            r == (self.0 >> 22) & 0x7F,
    {
        (self.0 >> 22) & 0x7F
    }

    /// The minor version.
    pub fn minor(&self) -> (r: u32)
        ensures
            r == (self.0 >> 12) & 0x3FF,
    {
        (self.0 >> 12) & 0x3FF
    }
}

impl Default for Version {
    fn default() -> (r: Self)
        ensures
            r == Version(0),
    {
        Version(0)
    }
}

/// Versions are ordered by major, then minor, then patch number, and the
/// numbers can be read back.
pub proof fn law_versions_are_ordered(
    major: u32,
    minor: u32,
    patch: u32,
    major2: u32,
    minor2: u32,
    patch2: u32,
)
    requires
        major < 0x80,
        minor < 0x400,
        patch < 0x1000,
        major2 < 0x80,
        minor2 < 0x400,
        patch2 < 0x1000,
    ensures
        packed(0, major, minor, patch) < packed(0, major2, minor2, patch2) <==> major < major2 || (
        major == major2 && (minor < minor2 || (minor == minor2 && patch < patch2))),
        (packed(0, major, minor, patch) >> 22) & 0x7F == major,
        (packed(0, major, minor, patch) >> 12) & 0x3FF == minor,
{
    let a = packed(0, major, minor, patch);
    let b = packed(0, major2, minor2, patch2);
    assert(a == major * 0x40_0000 + minor * 0x1000 + patch) by (bit_vector)
        requires
            a == (0u32 << 29) | (major << 22) | (minor << 12) | patch,
            major < 0x80,
            minor < 0x400,
            patch < 0x1000,
    ;
    assert(b == major2 * 0x40_0000 + minor2 * 0x1000 + patch2) by (bit_vector)
        requires
            b == (0u32 << 29) | (major2 << 22) | (minor2 << 12) | patch2,
            major2 < 0x80,
            minor2 < 0x400,
            patch2 < 0x1000,
    ;
    assert((a >> 22) & 0x7F == major && (a >> 12) & 0x3FF == minor) by (bit_vector)
        requires
            a == (0u32 << 29) | (major << 22) | (minor << 12) | patch,
            major < 0x80,
            minor < 0x400,
            patch < 0x1000,
    ;
}

/// A version of another variant is told by its uppermost bits, and the patch
/// number can be read back too.
pub proof fn law_variants_are_kept_apart(variant: u32, major: u32, minor: u32, patch: u32)
    requires
        variant < 8,
        major < 0x80,
        minor < 0x400,
        patch < 0x1000,
    ensures
        packed(variant, major, minor, patch) == variant * 0x2000_0000 + major * 0x40_0000 + minor
            * 0x1000 + patch,
{
    assert((variant << 29) | (major << 22) | (minor << 12) | patch == variant * 0x2000_0000 + major
        * 0x40_0000 + minor * 0x1000 + patch) by (bit_vector)
        requires
            variant < 8,
            major < 0x80,
            minor < 0x400,
            patch < 0x1000,
    ;
}

} // verus!
