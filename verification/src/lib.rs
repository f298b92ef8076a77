//! A slit-scan camera field: the television shows the live camera, but each
//! displayed frame replaces only one line of it. The line walks across the
//! screen and wraps, so what is on the glass is one line of now beside a
//! minute of the recent past.

use vstd::prelude::*;

pub mod app;
pub mod args;
pub mod camera;
pub mod field;
pub mod pipe;
pub mod ratio;
pub mod sweep;
pub mod text;

verus! {

/// Four bytes for each pixel of a frame.
pub open spec fn spec_frame_bytes(size: (u32, u32)) -> nat {
    size.0 as nat * size.1 as nat * 4
}

/// Bytes in one tightly packed RGBA8 frame.
pub fn frame_bytes(size: (u32, u32)) -> (bytes: usize)
    requires
        spec_frame_bytes(size) <= usize::MAX,
    ensures
        bytes == spec_frame_bytes(size),
{
    let area: u64 = size.0 as u64 * size.1 as u64;
    (area * 4) as usize
}

/// A frame is its rows, one after another, and a row its pixels, four bytes
/// each: a frame without rows has no bytes, and each row adds four for every
/// pixel across.
pub proof fn law_every_pixel_has_four_bytes(width: u32, height: u32)
    ensures
        spec_frame_bytes((width, height)) == width * height * 4,
        spec_frame_bytes((width, 0)) == 0,
        height < u32::MAX ==> spec_frame_bytes((width, (height + 1) as u32)) == spec_frame_bytes(
            (width, height),
        ) + 4 * width,
{
    let (w, h) = (width as int, height as int);
    assert(w * (h + 1) * 4 == w * h * 4 + 4 * w && w * 0 * 4 == 0) by (nonlinear_arith);
}

} // verus!
