//! Which release of Windows a build number belongs to.

use vstd::prelude::*;

verus! {

/// The first build of Windows 10, version 1809.
pub const WIN10_1809: u32 = 17763;

/// The first build of Windows 11.
pub const WIN11: u32 = 22000;

/// The first build of Windows 11, version 22H2.
pub const WIN11_22H2: u32 = 22621;

/// Whether `build` is a build of Windows 10 from version 1809 on.
#[inline]
pub fn is_win10_1809(build: u32) -> (r: bool)
    ensures
        r == (WIN10_1809 <= build < WIN11),
{
    build >= WIN10_1809 && build < WIN11
}

/// Whether `build` is a build of Windows 11.
#[inline]
pub fn is_win11(build: u32) -> (r: bool)
    ensures
        r == (build >= WIN11),
{
    build >= WIN11
}

/// Whether `build` is a build of Windows 11 from version 22H2 on.
#[inline]
pub fn is_win11_22h2(build: u32) -> (r: bool)
    ensures
        r == (build >= WIN11_22H2),
{
    build >= WIN11_22H2
}

/// Whether `build` is a build that the playground runs on: Windows 10 from
/// version 1809 on, or Windows 11.
#[inline]
pub fn is_supported_os(build: u32) -> (r: bool)
    ensures
        r == (build >= WIN10_1809),
{
    is_win10_1809(build) || is_win11(build)
}

} // verus!
