use vstd::prelude::*;

verus! {

/// Why a surface operation or a device step failed.
#[derive(Clone, Copy, Debug, PartialEq, Eq, Structural)]
pub enum AdapterError {
    /// The video device is missing or already held by another owner.
    DeviceUnavailable,
    /// The device rejected a transfer or a fill.
    DeviceError,
    /// A coordinate or a region lies outside the surface.
    OutOfBounds,
    /// A colour sequence does not have one colour per cell of its region.
    InputMismatch,
}

} // verus!
