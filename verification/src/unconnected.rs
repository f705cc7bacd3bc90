use vstd::prelude::*;

use crate::error::Error;
use crate::hal::{InputPin, OutputPin};

verus! {

/// A stand-in for an unconnected pin. It can be substituted for any of the
/// optional input or output pins; every attempt to read or drive it returns
/// `Error::NotConnected`, and it never records a driven level.
pub struct Unconnected;

impl InputPin for Unconnected {
    open spec fn level(&self) -> bool {
        false
    }

    open spec fn read_fault(&self) -> Option<Error> {
        Some(Error::NotConnected)
    }

    fn is_high(&self) -> Result<bool, Error> {
        Err(Error::NotConnected)
    }

    fn is_low(&self) -> Result<bool, Error> {
        Err(Error::NotConnected)
    }
}

impl OutputPin for Unconnected {
    open spec fn trace(&self) -> Seq<(nat, bool)> {
        Seq::empty()
    }

    open spec fn fault(&self) -> Option<Error> {
        Some(Error::NotConnected)
    }

    fn set_low(&mut self, _tick: Ghost<nat>) -> Result<(), Error> {
        Err(Error::NotConnected)
    }

    fn set_high(&mut self, _tick: Ghost<nat>) -> Result<(), Error> {
        Err(Error::NotConnected)
    }
}

} // verus!
