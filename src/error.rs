use vstd::prelude::*;

verus! {

/// Errors reported by the driver and its transports.
#[derive(Debug, PartialEq, Eq)]
pub enum Error<CommE, PinE> {
    /// Sensor communication error
    Comm(CommE),
    /// Chip-select pin error
    Pin(PinE),
    /// Sensor reading out of range
    OutOfRange,
    /// Configuration reads invalid
    Configuration,
    /// Unrecognized chip ID
    UnknownChipId,
}

/// The result failed at the bus: a communication or a chip-select error.
pub open spec fn is_bus_error<T, CommE, PinE>(r: Result<T, Error<CommE, PinE>>) -> bool {
    r matches Err(e) && (e is Comm || e is Pin)
}

} // verus!
