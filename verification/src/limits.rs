//! Driver capability limits, read once at startup, and the overflow guard
//! for pixel readback buffers.

use vstd::prelude::*;
use crate::error::RenderError;

verus! {

/// The smaller of two values.
pub open spec fn min2(a: int, b: int) -> int {
    if a <= b {
        a
    } else {
        b
    }
}

/// Immutable driver capability values, queried once when the context is
/// created.
#[derive(Clone, Copy, Debug, PartialEq, Eq)]
pub struct GlConstants {
    /// Largest texture the backend may create: the minimum over the
    /// driver's texture-size, renderbuffer-size and framebuffer limits,
    /// per axis.
    pub max_texture_size: (u32, u32),
}

impl GlConstants {
    /// Both components of the maximum texture size are positive: a
    /// zero-sized limit would make every texture and framebuffer
    /// unrepresentable.
    pub open spec fn wf(self) -> bool {
        self.max_texture_size.0 > 0 && self.max_texture_size.1 > 0
    }

    /// Combines the driver's four size queries into the effective maximum
    /// texture size.
    ///
    /// Each query must come back positive; a zero or negative answer is
    /// nonsensical — it would deny the driver any texture at all, or
    /// violates the query's documented non-negative range — and is reported
    /// as `InternalInconsistency`, on which the embedding layer aborts.
    pub fn load(
        texture_size: i32,
        renderbuffer_size: i32,
        framebuffer_width: i32,
        framebuffer_height: i32,
    ) -> (r: Result<GlConstants, RenderError>)
        ensures
            (r is Ok) <==> (texture_size > 0 && renderbuffer_size > 0 && framebuffer_width > 0
                && framebuffer_height > 0),
            r is Ok ==> (r->Ok_0).max_texture_size.0 == min2(
                min2(texture_size as int, renderbuffer_size as int),
                framebuffer_width as int,
            ),
            r is Ok ==> (r->Ok_0).max_texture_size.1 == min2(
                min2(texture_size as int, renderbuffer_size as int),
                framebuffer_height as int,
            ),
            r is Ok ==> (r->Ok_0).wf(),
            r is Err ==> r->Err_0 == RenderError::InternalInconsistency,
    {
        if texture_size <= 0 || renderbuffer_size <= 0 || framebuffer_width <= 0
            || framebuffer_height <= 0 {
            Err(RenderError::InternalInconsistency)
        } else {
            let size = if texture_size <= renderbuffer_size {
                texture_size
            } else {
                renderbuffer_size
            };
            let width = if size <= framebuffer_width {
                size
            } else {
                framebuffer_width
            };
            let height = if size <= framebuffer_height {
                size
            } else {
                framebuffer_height
            };
            Ok(GlConstants { max_texture_size: (width as u32, height as u32) })
        }
    }
}

/// Bytes needed to read back a `width` by `height` pixel area at four bytes
/// per pixel.
///
/// The product is computed with overflow-checked arithmetic: dimensions
/// whose byte count cannot be represented in the addressable size are
/// reported as `InternalInconsistency` — the embedding layer aborts rather
/// than under-allocate a readback buffer.
pub fn pixel_byte_count(width: u32, height: u32) -> (r: Result<usize, RenderError>)
    ensures
        (r is Ok) <==> width * height * 4 <= usize::MAX,
        r is Ok ==> r->Ok_0 == width * height * 4,
        r is Err ==> r->Err_0 == RenderError::InternalInconsistency,
{
    let pixels = (width as usize).checked_mul(height as usize);
    match pixels {
        Some(p) => match p.checked_mul(4) {
            Some(bytes) => Ok(bytes),
            None => Err(RenderError::InternalInconsistency),
        },
        None => Err(RenderError::InternalInconsistency),
    }
}

} // verus!
