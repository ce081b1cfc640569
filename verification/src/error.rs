//! Error taxonomy of the rendering core.

use vstd::prelude::*;

verus! {

/// How the driver reports "no error pending".
pub const GL_NO_ERROR: u32 = 0;

/// The driver's error code for an operation rejected in the current state,
/// such as binding an invalid program handle.
pub const GL_INVALID_OPERATION: u32 = 0x0502;

/// Errors surfaced by the rendering core.
///
/// `BindFailure`, `DrawFailure` and `PresentFailure` are recoverable by the
/// caller in the sense described on each variant. `InternalInconsistency`
/// reports a driver response that violates the driver's own documented
/// contract; no caller-level recovery is meaningful and the embedding layer
/// is expected to abort on it rather than continue with a cache that may no
/// longer mirror the driver.
#[derive(Clone, Copy, Debug, PartialEq, Eq, Structural)]
pub enum RenderError {
    /// The driver rejected a program bind; the caller may retry with a
    /// rebuilt program or abort the current frame.
    BindFailure,
    /// A single draw call failed; composition stops, the frame stays open.
    DrawFailure,
    /// Presenting the frame (buffer swap) failed; fatal for that frame.
    PresentFailure,
    /// The driver answered outside its documented contract (for example a
    /// negative size query, or an unexpected second error code); fatal.
    InternalInconsistency,
}

/// Classifies the driver's error report after a program bind.
///
/// The embedding layer binds the program, reads one error code, and — only
/// when that code is `GL_INVALID_OPERATION` — reads a second one; when no
/// second read was made it passes `GL_NO_ERROR` for `second_error`.
pub fn program_bind_outcome(first_error: u32, second_error: u32) -> (r: Result<(), RenderError>)
    ensures
        first_error == GL_NO_ERROR ==> r == Ok::<(), RenderError>(()),
        first_error == GL_INVALID_OPERATION && second_error == GL_NO_ERROR ==> r == Err::<(),
        RenderError>(RenderError::BindFailure),
        first_error == GL_INVALID_OPERATION && second_error != GL_NO_ERROR ==> r == Err::<(),
        RenderError>(RenderError::InternalInconsistency),
        first_error != GL_NO_ERROR && first_error != GL_INVALID_OPERATION ==> r == Err::<(),
        RenderError>(RenderError::InternalInconsistency),
{
    if first_error == GL_NO_ERROR {
        Ok(())
    } else if first_error == GL_INVALID_OPERATION {
        if second_error == GL_NO_ERROR {
            Err(RenderError::BindFailure)
        } else {
            Err(RenderError::InternalInconsistency)
        }
    } else {
        Err(RenderError::InternalInconsistency)
    }
}

} // verus!
