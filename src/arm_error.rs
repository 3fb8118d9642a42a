use vstd::prelude::*;

verus! {

/// The ways in which reading a flash algorithm can fail.
#[derive(Clone, Debug, PartialEq, Eq)]
pub enum ArmError {
    /// A section that the stub catalogue needs is not in the image.
    StubSectionNotFound(String),
    /// The fixed header of the flash device record could not be read: no single segment
    /// holds all of its bytes.
    ReadBinaryInfoFail {
        /// The address the header was read at.
        address: u32,
        /// The number of bytes asked for.
        size: u32,
    },
}

} // verus!
