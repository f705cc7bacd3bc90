use vstd::prelude::*;

use crate::error::Error;
use crate::hal::{levels_of, payloads_of, OutputPin, SerialWrite};

verus! {

/// An output pin double that never fails and records every level it is
/// driven to, together with the caller's tick. It lets a caller observe the
/// exact wire activity a transfer produced, level by level.
pub struct RecordingPin {
    /// The drives performed so far: level and tick, oldest first.
    pub log: Vec<(bool, Ghost<nat>)>,
}

impl RecordingPin {
    /// A fresh pin with an empty log.
    pub fn new() -> (r: RecordingPin)
        ensures
            r.trace() == Seq::<(nat, bool)>::empty(),
            r.fault() is None,
    {
        RecordingPin { log: Vec::new() }
    }

    /// Read back the recorded levels, in the order they were driven.
    pub fn recorded(&self) -> (r: Vec<bool>)
        ensures
            r@ == levels_of(self.trace()),
    {
        let mut r: Vec<bool> = Vec::new();
        let mut i: usize = 0;
        while i < self.log.len()
            invariant
                i <= self.log@.len(),
                r@.len() == i,
                forall|j: int| 0 <= j < i ==> r@[j] == self.log@[j].0,
            decreases self.log@.len() - i,
        {
            r.push(self.log[i].0);
            i = i + 1;
        }
        proof {
            assert(r@ =~= levels_of(self.trace()));
        }
        r
    }
}

impl OutputPin for RecordingPin {
    open spec fn trace(&self) -> Seq<(nat, bool)> {
        self.log@.map_values(|e: (bool, Ghost<nat>)| (e.1@, e.0))
    }

    open spec fn fault(&self) -> Option<Error> {
        None
    }

    fn set_high(&mut self, tick: Ghost<nat>) -> Result<(), Error> {
        self.log.push((true, tick));
        proof {
            assert(self.trace() =~= old(self).trace().push((tick@, true)));
        }
        Ok(())
    }

    fn set_low(&mut self, tick: Ghost<nat>) -> Result<(), Error> {
        self.log.push((false, tick));
        proof {
            assert(self.trace() =~= old(self).trace().push((tick@, false)));
        }
        Ok(())
    }
}

/// A serial-writer double that never fails and records every frame it is
/// handed, together with the caller's tick.
pub struct RecordingSerial {
    /// The frames written so far: bytes and tick, oldest first.
    pub log: Vec<(Vec<u8>, Ghost<nat>)>,
}

impl RecordingSerial {
    /// A fresh writer with an empty log.
    pub fn new() -> (r: RecordingSerial)
        ensures
            r.frames() == Seq::<(nat, Seq<u8>)>::empty(),
            r.fault() is None,
    {
        RecordingSerial { log: Vec::new() }
    }

    /// Read back the recorded frames, in the order they were written.
    pub fn recorded(&self) -> (r: Vec<Vec<u8>>)
        ensures
            r@.map_values(|f: Vec<u8>| f@) == payloads_of(self.frames()),
    {
        let mut r: Vec<Vec<u8>> = Vec::new();
        let mut i: usize = 0;
        while i < self.log.len()
            invariant
                i <= self.log@.len(),
                r@.len() == i,
                forall|j: int| 0 <= j < i ==> r@[j]@ == self.log@[j].0@,
            decreases self.log@.len() - i,
        {
            let frame: Vec<u8> = vstd::slice::slice_to_vec(self.log[i].0.as_slice());
            r.push(frame);
            i = i + 1;
        }
        proof {
            assert(r@.map_values(|f: Vec<u8>| f@) =~= payloads_of(self.frames()));
        }
        r
    }
}

impl SerialWrite for RecordingSerial {
    open spec fn frames(&self) -> Seq<(nat, Seq<u8>)> {
        self.log@.map_values(|e: (Vec<u8>, Ghost<nat>)| (e.1@, e.0@))
    }

    open spec fn fault(&self) -> Option<Error> {
        None
    }

    fn write(&mut self, data: &[u8], tick: Ghost<nat>) -> Result<(), Error> {
        let frame: Vec<u8> = vstd::slice::slice_to_vec(data);
        self.log.push((frame, tick));
        proof {
            assert(self.frames() =~= old(self).frames().push((tick@, data@)));
        }
        Ok(())
    }
}

/// A serial-writer double that is wired to nothing working: every write
/// attempt fails with `Error::Spi` and no frame is ever recorded.
pub struct BrokenSerial;

impl BrokenSerial {
    /// A fresh broken writer.
    pub fn new() -> (r: BrokenSerial)
        ensures
            r.frames() == Seq::<(nat, Seq<u8>)>::empty(),
            r.fault() == Some(Error::Spi),
    {
        BrokenSerial
    }
}

impl SerialWrite for BrokenSerial {
    open spec fn frames(&self) -> Seq<(nat, Seq<u8>)> {
        Seq::empty()
    }

    open spec fn fault(&self) -> Option<Error> {
        Some(Error::Spi)
    }

    fn write(&mut self, _data: &[u8], _tick: Ghost<nat>) -> Result<(), Error> {
        Err(Error::Spi)
    }
}

} // verus!
