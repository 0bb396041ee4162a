//! The failure taxonomy of the library.
//!
//! Every fallible operation reports one of these variants; none is silently
//! swallowed, and none of them leaves a wrong numeric result behind.

use vstd::prelude::*;

verus! {

/// A typed failure of the multiply pipeline.
///
/// - `InvalidInput`: an empty operand, a buffer whose length does not match
///   its declared shape, or a mismatch between the two operands' inner
///   dimensions. Raised before any compilation or device work is attempted.
/// - `TemplateError`: the supplied IR template carries none of the dimension
///   placeholders, so it cannot be instantiated for a shape.
/// - `CompilationError`: the codegen backend rejected the instantiated IR
///   (parse failure, pass-pipeline failure, missing entry point, or machine
///   creation failure); the diagnostic text is carried along.
/// - `DeviceError`: a device driver call reported a non-success status.
#[derive(Debug, PartialEq, Eq)]
pub enum MatmulError {
    InvalidInput(String),
    TemplateError(String),
    CompilationError(String),
    DeviceError(String),
}

impl MatmulError {
    /// The diagnostic text carried by the error, whichever variant it is.
    pub fn message(&self) -> (msg: &String)
        ensures
            msg@ == self.message_spec(),
    {
        match self {
            MatmulError::InvalidInput(m) => m,
            MatmulError::TemplateError(m) => m,
            MatmulError::CompilationError(m) => m,
            MatmulError::DeviceError(m) => m,
        }
    }

    /// The characters of the carried diagnostic text.
    pub open spec fn message_spec(&self) -> Seq<char> {
        match self {
            MatmulError::InvalidInput(m) => m@,
            MatmulError::TemplateError(m) => m@,
            MatmulError::CompilationError(m) => m@,
            MatmulError::DeviceError(m) => m@,
        }
    }
}

} // verus!
