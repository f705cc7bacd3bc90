use vstd::prelude::*;

use crate::error::Error;

verus! {

/// The levels of a timed trace, in order, without their ticks.
pub open spec fn levels_of(t: Seq<(nat, bool)>) -> Seq<bool> {
    t.map_values(|p: (nat, bool)| p.1)
}

/// The payloads of a timed frame log, in order, without their ticks.
pub open spec fn payloads_of(f: Seq<(nat, Seq<u8>)>) -> Seq<Seq<u8>> {
    f.map_values(|p: (nat, Seq<u8>)| p.1)
}

/// Capability for a logical digital output line that can be driven high or
/// low. The driver and the connectors consume it; platform code implements
/// it for its concrete pins.
///
/// Each pin carries two abstractions. `trace()` is the sequence of drives
/// performed so far, each a pair of a ghost tick and the level driven: the
/// tick is supplied by the caller and places the drive on the caller's
/// timeline, so that the relative order of operations on *different* lines
/// of one transfer can be stated. `fault()` is the error every drive
/// attempt returns, or `None` for a pin whose drives succeed; a fault is a
/// fixed property of the pin — an unconnected pin never starts working and
/// a working pin never silently becomes one that fails.
pub trait OutputPin: Sized {
    /// The drives performed so far: (tick, level), oldest first.
    spec fn trace(&self) -> Seq<(nat, bool)>;

    /// The error every drive attempt on this pin returns, or `None` when
    /// drives succeed.
    spec fn fault(&self) -> Option<Error>;

    /// Drive the line high at the caller's tick.
    fn set_high(&mut self, tick: Ghost<nat>) -> (r: Result<(), Error>)
        ensures
            final(self).fault() == old(self).fault(),
            old(self).fault() is None ==> r is Ok && final(self).trace()
                == old(self).trace().push((tick@, true)),
            old(self).fault() matches Some(e) ==> r == Err::<(), Error>(e)
                && final(self).trace() == old(self).trace(),
    ;

    /// Drive the line low at the caller's tick.
    fn set_low(&mut self, tick: Ghost<nat>) -> (r: Result<(), Error>)
        ensures
            final(self).fault() == old(self).fault(),
            old(self).fault() is None ==> r is Ok && final(self).trace()
                == old(self).trace().push((tick@, false)),
            old(self).fault() matches Some(e) ==> r == Err::<(), Error>(e)
                && final(self).trace() == old(self).trace(),
    ;
}

/// Capability for a logical digital input line whose level can be sensed.
pub trait InputPin: Sized {
    /// The level currently on the line.
    spec fn level(&self) -> bool;

    /// The error every read attempt on this pin returns, or `None` when
    /// reads succeed.
    spec fn read_fault(&self) -> Option<Error>;

    /// Sense whether the line is high.
    fn is_high(&self) -> (r: Result<bool, Error>)
        ensures
            self.read_fault() is None ==> r == Ok::<bool, Error>(self.level()),
            self.read_fault() matches Some(e) ==> r == Err::<bool, Error>(e),
    ;

    /// Sense whether the line is low.
    fn is_low(&self) -> (r: Result<bool, Error>)
        ensures
            self.read_fault() is None ==> r == Ok::<bool, Error>(!self.level()),
            self.read_fault() matches Some(e) ==> r == Err::<bool, Error>(e),
    ;
}

/// Capability for a hardware-clocked serial channel that transfers a byte
/// sequence in one atomic write, framing it with its own chip-select
/// handling.
///
/// `frames()` is the sequence of frames successfully written so far, each a
/// pair of the caller's ghost tick and the bytes written; `fault()` is the
/// error every write attempt returns, or `None` for a channel whose writes
/// succeed.
pub trait SerialWrite: Sized {
    /// The frames successfully written so far: (tick, bytes), oldest first.
    spec fn frames(&self) -> Seq<(nat, Seq<u8>)>;

    /// The error every write attempt returns, or `None` when writes
    /// succeed.
    spec fn fault(&self) -> Option<Error>;

    /// Transfer `data` over the channel in one write at the caller's tick.
    fn write(&mut self, data: &[u8], tick: Ghost<nat>) -> (r: Result<(), Error>)
        ensures
            final(self).fault() == old(self).fault(),
            old(self).fault() is None ==> r is Ok && final(self).frames()
                == old(self).frames().push((tick@, data@)),
            old(self).fault() matches Some(e) ==> r == Err::<(), Error>(e)
                && final(self).frames() == old(self).frames(),
    ;
}

} // verus!
