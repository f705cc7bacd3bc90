use vstd::prelude::*;

use crate::error::Error;
use crate::hal::{OutputPin, SerialWrite};

verus! {

/// The 8 bits of `b`, most significant first.
pub open spec fn byte_bits(b: u8) -> Seq<bool> {
    Seq::new(8, |i: int| (b >> ((7 - i) as u8)) & 1 == 1)
}

/// All bits of `data` in wire order: byte order preserved, each byte most
/// significant bit first.
pub open spec fn bytes_bits(data: Seq<u8>) -> Seq<bool> {
    Seq::new(data.len() * 8, |k: int| byte_bits(data[k / 8])[k % 8])
}

/// The data-line events of a bit-banged send whose first bit is driven at
/// tick `base`: bit `k` of the payload is driven at tick `base + 3k`, three
/// ticks apart because a clock rise and fall stand between consecutive
/// bits.
pub open spec fn data_events(data: Seq<u8>, base: nat) -> Seq<(nat, bool)> {
    Seq::new(data.len() * 8, |k: int| (((base + 3 * k) as nat), bytes_bits(data)[k]))
}

/// The clock-line events of a bit-banged send of `n` bits whose first
/// rising edge is at tick `base`: pulse `k` rises at `base + 3k` — one tick
/// after bit `k` is driven — and falls one tick later.
pub open spec fn clock_events(n: nat, base: nat) -> Seq<(nat, bool)> {
    Seq::new(2 * n, |j: int| (((base + 3 * (j / 2) + (j % 2)) as nat), j % 2 == 0))
}

/// The interface used to send a packed payload to the chip.
///
/// `sent()` is the sequence of payloads delivered so far; `chips()` is the
/// number of daisy-chained chips the connector drives; `fault()` is the
/// error a send would fail with in the connector's present state, or `None`
/// when sends succeed; `wire_ok(post, data)` says what a successful send of
/// `data` does to the physical lines — including the relative order of
/// operations on different lines, via the ticks of the connector's
/// timeline — and `wire_err(post, data)` says exactly where a failed send
/// stopped.
pub trait Connector: Sized {
    /// The payloads successfully delivered so far, oldest first.
    spec fn sent(&self) -> Seq<Seq<u8>>;

    /// The number of daisy-chained chips behind this connector.
    spec fn chips(&self) -> nat;

    /// The error a send would fail with, or `None` when sends succeed.
    spec fn fault(&self) -> Option<Error>;

    /// The connector-specific wire effect of a successful send of `data`,
    /// relating the state before (`self`) to the state after (`post`).
    spec fn wire_ok(&self, post: &Self, data: Seq<u8>) -> bool;

    /// The connector-specific wire state after a failed send of `data`:
    /// the failing operation is the last one performed, and nothing —
    /// chip-select included — is restored afterwards.
    spec fn wire_err(&self, post: &Self, data: Seq<u8>) -> bool;

    /// The number of daisy-chained chips, as a runtime value.
    fn device_count(&self) -> (n: usize)
        ensures
            n as nat == self.chips(),
    ;

    /// Send a payload of raw bytes to the chip.
    ///
    /// On success every bit has been clocked out most-significant-bit
    /// first, byte order preserved, with the latch signal framing the whole
    /// payload, and the payload is appended to `sent()`. On failure the
    /// remaining transfer is aborted at once: nothing is appended to
    /// `sent()` and the lines are left exactly as `wire_err` states.
    fn write_raw(&mut self, data: &[u8]) -> (r: Result<(), Error>)
        requires
            data@.len() >= 1,
        ensures
            final(self).fault() == old(self).fault(),
            final(self).chips() == old(self).chips(),
            old(self).fault() is None ==> r is Ok,
            old(self).fault() matches Some(e) ==> r == Err::<(), Error>(e),
            r is Ok ==> final(self).sent() == old(self).sent().push(data@)
                && old(self).wire_ok(final(self), data@),
            r is Err ==> final(self).sent() == old(self).sent()
                && old(self).wire_err(final(self), data@),
    ;
}

/// Direct GPIO bit-banging connector: drives data, chip-select and clock
/// pins itself, byte by byte, bit by bit. It drives a single chip.
pub struct PinConnector<DATA, CS, SCK> where DATA: OutputPin, CS: OutputPin, SCK: OutputPin {
    /// The serial data line.
    pub data: DATA,
    /// The chip-select / latch line, held low over a transfer.
    pub cs: CS,
    /// The serial clock line, pulsed high then low once per bit.
    pub sck: SCK,
    /// The payloads successfully delivered so far.
    pub history: Ghost<Seq<Seq<u8>>>,
    /// The next tick of this connector's timeline: every pin operation
    /// consumes one tick, so the ticks in the pins' traces give the order
    /// in which the lines were driven.
    pub clock: Ghost<nat>,
}

impl<DATA, CS, SCK> PinConnector<DATA, CS, SCK> where
    DATA: OutputPin,
    CS: OutputPin,
    SCK: OutputPin,
{
    /// A connector over the given data, chip-select and clock pins.
    pub fn new(data: DATA, cs: CS, sck: SCK) -> (r: Self)
        ensures
            r.data == data,
            r.cs == cs,
            r.sck == sck,
            r.sent() == Seq::<Seq<u8>>::empty(),
    {
        PinConnector { data, cs, sck, history: Ghost(Seq::empty()), clock: Ghost(0) }
    }
}

/// Law: the ticks of a successful bit-banged send order the lines as the
/// chip samples them. With chip select falling at tick `t0`: every data bit
/// is driven after the select fell and strictly before its own clock rising
/// edge; each rising edge precedes its falling edge; each falling edge
/// precedes the next data bit; and the select rises, at `t0 + 1 + 3n`, only
/// after the last falling edge.
pub proof fn lemma_bit_banged_ordering(data: Seq<u8>, t0: nat)
    requires
        data.len() >= 1,
    ensures
        ({
            let n = data.len() * 8;
            let bits = data_events(data, (t0 + 1) as nat);
            let clocks = clock_events(n, (t0 + 2) as nat);
            &&& forall|k: int| 0 <= k < n ==> t0 < (#[trigger] bits[k]).0
            &&& forall|k: int| 0 <= k < n ==> (#[trigger] bits[k]).0 < clocks[2 * k].0
            &&& forall|k: int| 0 <= k < n ==> (#[trigger] clocks[2 * k]).0 < clocks[2 * k + 1].0
            &&& forall|k: int| 0 <= k < n - 1 ==> (#[trigger] clocks[2 * k + 1]).0 < bits[k + 1].0
            &&& clocks[2 * (n - 1) + 1].0 < t0 + 1 + 3 * n
        }),
{
    let n = data.len() * 8;
    let clocks = clock_events(n, (t0 + 2) as nat);
    assert forall|k: int| 0 <= k < n implies (#[trigger] clocks[2 * k]).0 < clocks[2 * k + 1].0 by {
        assert((2 * k) / 2 == k && (2 * k) % 2 == 0);
        assert((2 * k + 1) / 2 == k && (2 * k + 1) % 2 == 1);
    }
    assert forall|k: int| 0 <= k < n implies (#[trigger] data_events(data, (t0 + 1) as nat)[k]).0
        < clocks[2 * k].0 by {
        assert((2 * k) / 2 == k && (2 * k) % 2 == 0);
    }
    assert forall|k: int| 0 <= k < n - 1 implies (#[trigger] clocks[2 * k + 1]).0 < data_events(
        data,
        (t0 + 1) as nat,
    )[k + 1].0 by {
        assert((2 * k + 1) / 2 == k && (2 * k + 1) % 2 == 1);
    }
    assert((2 * (n - 1) + 1) / 2 == n - 1 && (2 * (n - 1) + 1) % 2 == 1);
}

proof fn lemma_data_events_index(data: Seq<u8>, base: nat, bi: int, i: int)
    requires
        0 <= bi < data.len(),
        0 <= i < 8,
    ensures
        data_events(data, base)[8 * bi + i]
            == ((((base + 3 * (8 * bi + i)) as nat), byte_bits(data[bi])[i])),
{
    let k = 8 * bi + i;
    assert(k / 8 == bi && k % 8 == i);
}

impl<DATA, CS, SCK> Connector for PinConnector<DATA, CS, SCK> where
    DATA: OutputPin,
    CS: OutputPin,
    SCK: OutputPin,
{
    open spec fn sent(&self) -> Seq<Seq<u8>> {
        self.history@
    }

    open spec fn chips(&self) -> nat {
        1
    }

    open spec fn fault(&self) -> Option<Error> {
        if self.cs.fault() is Some || self.data.fault() is Some || self.sck.fault() is Some {
            Some(Error::Pin)
        } else {
            None
        }
    }

    open spec fn wire_ok(&self, post: &Self, data: Seq<u8>) -> bool {
        let t0 = self.clock@;
        let n = data.len() * 8;
        &&& post.data.trace() == self.data.trace() + data_events(data, (t0 + 1) as nat)
        &&& post.sck.trace() == self.sck.trace() + clock_events(n, (t0 + 2) as nat)
        &&& post.cs.trace() == self.cs.trace()
            + seq![(t0, false), (((t0 + 1 + 3 * n) as nat), true)]
        &&& post.clock@ == t0 + 2 + 3 * n
    }

    open spec fn wire_err(&self, post: &Self, data: Seq<u8>) -> bool {
        let t0 = self.clock@;
        if self.cs.fault() is Some {
            // the very first operation, select low, failed: nothing was
            // driven
            &&& post.cs.trace() == self.cs.trace()
            &&& post.data.trace() == self.data.trace()
            &&& post.sck.trace() == self.sck.trace()
            &&& post.clock@ == t0
        } else if self.data.fault() is Some {
            // select went low, then the first data write failed
            &&& post.cs.trace() == self.cs.trace().push((t0, false))
            &&& post.data.trace() == self.data.trace()
            &&& post.sck.trace() == self.sck.trace()
            &&& post.clock@ == t0 + 1
        } else {
            // select went low and the first bit was driven, then the first
            // clock rise failed
            &&& post.cs.trace() == self.cs.trace().push((t0, false))
            &&& post.data.trace() == self.data.trace().push(
                (((t0 + 1) as nat), bytes_bits(data)[0]),
            )
            &&& post.sck.trace() == self.sck.trace()
            &&& post.clock@ == t0 + 2
        }
    }

    fn device_count(&self) -> usize {
        1
    }

    fn write_raw(&mut self, data: &[u8]) -> (r: Result<(), Error>) {
        let ghost t0: nat = self.clock@;
        let ghost n: nat = data@.len() * 8;
        let ghost base_d: nat = (t0 + 1) as nat;
        let ghost base_c: nat = (t0 + 2) as nat;
        match self.cs.set_low(Ghost(t0)) {
            Ok(()) => {}
            Err(_) => {
                return Err(Error::Pin);
            }
        }
        self.clock = Ghost((self.clock@ + 1) as nat);
        let mut bi: usize = 0;
        while bi < data.len()
            invariant
                bi <= data@.len(),
                t0 == old(self).clock@,
                n == data@.len() * 8,
                base_d == t0 + 1,
                base_c == t0 + 2,
                bi > 0 ==> old(self).data.fault() is None && old(self).sck.fault() is None,
                old(self).cs.fault() is None,
                self.cs.fault() == old(self).cs.fault(),
                self.data.fault() == old(self).data.fault(),
                self.sck.fault() == old(self).sck.fault(),
                self.cs.trace() == old(self).cs.trace().push((t0, false)),
                self.data.trace() == old(self).data.trace()
                    + data_events(data@, base_d).take(8 * bi as int),
                self.sck.trace() == old(self).sck.trace()
                    + clock_events(n, base_c).take(2 * (8 * bi as int)),
                self.clock@ == t0 + 1 + 3 * (8 * bi as int),
                self.history@ == old(self).history@,
            decreases data@.len() - bi,
        {
            let byte: u8 = data[bi];
            let mut i: u8 = 0;
            while i < 8
                invariant
                    bi < data@.len(),
                    i <= 8,
                    byte == data@[bi as int],
                    t0 == old(self).clock@,
                    n == data@.len() * 8,
                    base_d == t0 + 1,
                    base_c == t0 + 2,
                    bi > 0 || i > 0 ==> old(self).data.fault() is None,
                    bi > 0 || i > 0 ==> old(self).sck.fault() is None,
                    old(self).cs.fault() is None,
                    self.cs.fault() == old(self).cs.fault(),
                    self.data.fault() == old(self).data.fault(),
                    self.sck.fault() == old(self).sck.fault(),
                    self.cs.trace() == old(self).cs.trace().push((t0, false)),
                    self.data.trace() == old(self).data.trace()
                        + data_events(data@, base_d).take(8 * bi as int + i as int),
                    self.sck.trace() == old(self).sck.trace()
                        + clock_events(n, base_c).take(2 * (8 * bi as int + i as int)),
                    self.clock@ == t0 + 1 + 3 * (8 * bi as int + i as int),
                    self.history@ == old(self).history@,
                decreases 8 - i,
            {
                let ghost k: int = 8 * bi as int + i as int;
                let shift: u8 = 7 - i;
                let high: bool = (byte >> shift) & 1 == 1;
                proof {
                    lemma_data_events_index(data@, base_d, bi as int, i as int);
                    assert(k / 8 == bi as int && k % 8 == i as int);
                    assert(bytes_bits(data@)[k] == byte_bits(byte)[i as int]);
                    assert(byte_bits(byte)[i as int] == high);
                }
                let ghost td: nat = self.clock@;
                if high {
                    match self.data.set_high(Ghost(td)) {
                        Ok(()) => {}
                        Err(_) => {
                            return Err(Error::Pin);
                        }
                    }
                } else {
                    match self.data.set_low(Ghost(td)) {
                        Ok(()) => {}
                        Err(_) => {
                            return Err(Error::Pin);
                        }
                    }
                }
                self.clock = Ghost((self.clock@ + 1) as nat);
                proof {
                    assert(data_events(data@, base_d).take(k).push(
                        (((base_d + 3 * k) as nat), high),
                    ) =~= data_events(data@, base_d).take(k + 1));
                }
                let ghost ts: nat = self.clock@;
                match self.sck.set_high(Ghost(ts)) {
                    Ok(()) => {}
                    Err(_) => {
                        return Err(Error::Pin);
                    }
                }
                self.clock = Ghost((self.clock@ + 1) as nat);
                match self.sck.set_low(Ghost(self.clock@)) {
                    Ok(()) => {}
                    Err(_) => {
                        return Err(Error::Pin);
                    }
                }
                self.clock = Ghost((self.clock@ + 1) as nat);
                proof {
                    assert((2 * k) / 2 == k && (2 * k) % 2 == 0);
                    assert((2 * k + 1) / 2 == k && (2 * k + 1) % 2 == 1);
                    assert(clock_events(n, base_c).take(2 * k).push(
                        (((base_c + 3 * k) as nat), true),
                    ).push((((base_c + 3 * k + 1) as nat), false)) =~= clock_events(
                        n,
                        base_c,
                    ).take(2 * k + 2));
                }
                i = i + 1;
            }
            bi = bi + 1;
        }
        proof {
            assert(data_events(data@, base_d).take(n as int) =~= data_events(data@, base_d));
            assert(clock_events(n, base_c).take(2 * n as int) =~= clock_events(n, base_c));
        }
        match self.cs.set_high(Ghost(self.clock@)) {
            Ok(()) => {}
            Err(_) => {
                return Err(Error::Pin);
            }
        }
        self.clock = Ghost((self.clock@ + 1) as nat);
        self.history = Ghost(self.history@.push(data@));
        proof {
            assert(old(self).cs.trace().push((t0, false)).push((((t0 + 1 + 3 * n) as nat), true))
                =~= old(self).cs.trace() + seq![(t0, false), (((t0 + 1 + 3 * n) as nat), true)]);
        }
        Ok(())
    }
}

/// Hardware-select serial connector: delegates the whole payload to the
/// serial writer in one call, whose own chip-select handling frames the
/// transfer.
pub struct SpiConnector<SPI> where SPI: SerialWrite {
    /// Number of chips connected in series behind this connector.
    pub devices: usize,
    /// The serial writer capability.
    pub spi: SPI,
    /// The next tick of this connector's timeline.
    pub clock: Ghost<nat>,
}

impl<SPI> SpiConnector<SPI> where SPI: SerialWrite {
    /// A connector over a serial writer driving `displays` chips in series.
    pub fn new(displays: usize, spi: SPI) -> (r: Self)
        ensures
            r.devices == displays,
            r.spi == spi,
    {
        SpiConnector { devices: displays, spi, clock: Ghost(0) }
    }
}

impl<SPI> Connector for SpiConnector<SPI> where SPI: SerialWrite {
    open spec fn sent(&self) -> Seq<Seq<u8>> {
        crate::hal::payloads_of(self.spi.frames())
    }

    open spec fn chips(&self) -> nat {
        self.devices as nat
    }

    open spec fn fault(&self) -> Option<Error> {
        if self.spi.fault() is Some {
            Some(Error::Spi)
        } else {
            None
        }
    }

    open spec fn wire_ok(&self, post: &Self, data: Seq<u8>) -> bool {
        &&& post.devices == self.devices
        &&& post.spi.frames() == self.spi.frames().push((self.clock@, data))
        &&& post.clock@ == self.clock@ + 1
    }

    open spec fn wire_err(&self, post: &Self, data: Seq<u8>) -> bool {
        &&& post.devices == self.devices
        &&& post.spi.frames() == self.spi.frames()
        &&& post.clock@ == self.clock@
    }

    fn device_count(&self) -> usize {
        self.devices
    }

    fn write_raw(&mut self, data: &[u8]) -> (r: Result<(), Error>) {
        let ghost t: nat = self.clock@;
        match self.spi.write(data, Ghost(t)) {
            Ok(()) => {
                self.clock = Ghost((self.clock@ + 1) as nat);
                proof {
                    assert(crate::hal::payloads_of(old(self).spi.frames().push((t, data@)))
                        =~= crate::hal::payloads_of(old(self).spi.frames()).push(data@));
                }
                Ok(())
            }
            Err(_) => Err(Error::Spi),
        }
    }
}

/// Software-select serial connector: wraps the hardware-select connector
/// but drives the chip-select line manually around the transfer, for serial
/// peripherals whose automatic select timing is unsuitable.
pub struct SpiConnectorSW<SPI, CS> where SPI: SerialWrite, CS: OutputPin {
    /// The wrapped hardware-select connector.
    pub spi_c: SpiConnector<SPI>,
    /// The manually driven chip-select line.
    pub cs: CS,
}

impl<SPI, CS> SpiConnectorSW<SPI, CS> where SPI: SerialWrite, CS: OutputPin {
    /// A connector over a serial writer and a manual chip-select pin.
    pub fn new(displays: usize, spi: SPI, cs: CS) -> (r: Self)
        ensures
            r.spi_c.devices == displays,
            r.spi_c.spi == spi,
            r.cs == cs,
    {
        SpiConnectorSW { spi_c: SpiConnector::new(displays, spi), cs }
    }
}

impl<SPI, CS> Connector for SpiConnectorSW<SPI, CS> where SPI: SerialWrite, CS: OutputPin {
    open spec fn sent(&self) -> Seq<Seq<u8>> {
        self.spi_c.sent()
    }

    open spec fn chips(&self) -> nat {
        self.spi_c.devices as nat
    }

    open spec fn fault(&self) -> Option<Error> {
        if self.cs.fault() is Some {
            Some(Error::Pin)
        } else {
            self.spi_c.fault()
        }
    }

    open spec fn wire_ok(&self, post: &Self, data: Seq<u8>) -> bool {
        let t0 = self.spi_c.clock@;
        // the serial write, at t0 + 1, lies strictly between the two
        // select edges at t0 and t0 + 2
        &&& post.cs.trace() == self.cs.trace() + seq![(t0, false), (((t0 + 2) as nat), true)]
        &&& post.spi_c.devices == self.spi_c.devices
        &&& post.spi_c.spi.frames() == self.spi_c.spi.frames().push((((t0 + 1) as nat), data))
        &&& post.spi_c.clock@ == t0 + 3
    }

    open spec fn wire_err(&self, post: &Self, data: Seq<u8>) -> bool {
        let t0 = self.spi_c.clock@;
        if self.cs.fault() is Some {
            // select low failed: the serial write was never attempted
            &&& post.cs.trace() == self.cs.trace()
            &&& post.spi_c.devices == self.spi_c.devices
            &&& post.spi_c.spi.frames() == self.spi_c.spi.frames()
            &&& post.spi_c.clock@ == t0
        } else {
            // the serial write failed: the select line was driven low and
            // is left low, not restored
            &&& post.cs.trace() == self.cs.trace().push((t0, false))
            &&& post.spi_c.devices == self.spi_c.devices
            &&& post.spi_c.spi.frames() == self.spi_c.spi.frames()
            &&& post.spi_c.clock@ == t0 + 1
        }
    }

    fn device_count(&self) -> usize {
        self.spi_c.devices
    }

    fn write_raw(&mut self, data: &[u8]) -> (r: Result<(), Error>) {
        let ghost t0: nat = self.spi_c.clock@;
        match self.cs.set_low(Ghost(t0)) {
            Ok(()) => {}
            Err(_) => {
                return Err(Error::Pin);
            }
        }
        self.spi_c.clock = Ghost((t0 + 1) as nat);
        match self.spi_c.write_raw(data) {
            Ok(()) => {}
            Err(_) => {
                return Err(Error::Spi);
            }
        }
        let ghost t2: nat = self.spi_c.clock@;
        match self.cs.set_high(Ghost(t2)) {
            Ok(()) => {}
            Err(_) => {
                return Err(Error::Pin);
            }
        }
        self.spi_c.clock = Ghost((t0 + 3) as nat);
        proof {
            assert(old(self).cs.trace().push((t0, false)).push((((t0 + 2) as nat), true))
                =~= old(self).cs.trace() + seq![(t0, false), (((t0 + 2) as nat), true)]);
        }
        Ok(())
    }
}

} // verus!
