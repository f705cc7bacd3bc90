use vstd::prelude::*;

verus! {

/// Error raised during communication with the TLC5940 chip or while
/// mutating the driver's channel state.
#[derive(Debug, Clone, Copy, PartialEq, Eq)]
pub enum Error {
    /// An attempt was made to use an unconnected capability (e.g. blanking
    /// while the blanking pin is not wired up).
    NotConnected,
    /// A channel index outside 0..16 was requested; state is left unmodified.
    OutOfRange,
    /// The serial-writer capability reported a failure during a transfer.
    Spi,
    /// A GPIO-level pin operation failed, aborting the in-progress transfer.
    Pin,
}

} // verus!
