use vstd::prelude::*;

pub mod connectors;
use connectors::{Connector, PinConnector, SpiConnector, SpiConnectorSW};

pub mod error;
pub use error::Error;

pub mod hal;
use hal::{OutputPin, SerialWrite};

pub mod packing;
use packing::{lemma_repeat_frame_len, pack_dot_correction, pack_grayscale, repeat_frame,
    repeat_payload, spec_pack_dot_correction, spec_pack_grayscale};

pub mod recorders;

pub mod unconnected;
pub use unconnected::Unconnected;

verus! {

/// The chip-side input mode a transfer addresses. Exactly one mode is
/// active at a time; it selects which channel array a transfer packs and
/// which chip-side latch command applies. The mode is implicit in which
/// push operation is called.
pub enum OperatingMode {
    /// Grayscale PWM mode
    GrayscalePWM,
    /// Dot correction data input mode
    DotCorrection,
    /// EEPROM programming mode
    Eeprom,
}

/// The grayscale array after one per-channel store: the value is truncated
/// to its low 12 bits and written at `output`.
pub open spec fn spec_set_level(gs: Seq<u16>, output: int, level: u16) -> Seq<u16> {
    gs.update(output, level & 0xfff)
}

/// The grayscale array after the first `n` of 16 sequential per-channel
/// stores in ascending index order.
pub open spec fn spec_set_levels_prefix(gs: Seq<u16>, levels: Seq<u16>, n: int) -> Seq<u16>
    decreases n,
{
    if n <= 0 {
        gs
    } else {
        spec_set_level(spec_set_levels_prefix(gs, levels, n - 1), n - 1, levels[n - 1])
    }
}

proof fn lemma_set_levels_prefix_entries(gs: Seq<u16>, levels: Seq<u16>, n: int)
    requires
        gs.len() == 16,
        levels.len() == 16,
        0 <= n <= 16,
    ensures
        spec_set_levels_prefix(gs, levels, n).len() == 16,
        forall|j: int| 0 <= j < 16 ==> #[trigger] spec_set_levels_prefix(gs, levels, n)[j]
            == if j < n { levels[j] & 0xfff } else { gs[j] },
    decreases n,
{
    if n > 0 {
        lemma_set_levels_prefix_entries(gs, levels, n - 1);
    }
}

/// Law: storing all 16 levels at once produces the same final array as 16
/// sequential per-channel stores in ascending index order, from any
/// starting array.
pub proof fn lemma_set_levels_matches_sequential(gs: Seq<u16>, levels: Seq<u16>)
    requires
        gs.len() == 16,
        levels.len() == 16,
    ensures
        spec_set_levels_prefix(gs, levels, 16) == Seq::new(16, |i: int| levels[i] & 0xfff),
{
    lemma_set_levels_prefix_entries(gs, levels, 16);
    assert(spec_set_levels_prefix(gs, levels, 16) =~= Seq::new(
        16,
        |i: int| levels[i] & 0xfff,
    ));
}

fn zeroed_levels() -> (v: Vec<u16>)
    ensures
        v@ == Seq::new(16, |i: int| 0u16),
{
    let mut v: Vec<u16> = Vec::new();
    let mut k: usize = 0;
    while k < 16
        invariant
            k <= 16,
            v@.len() == k,
            forall|i: int| 0 <= i < k ==> v@[i] == 0u16,
        decreases 16 - k,
    {
        v.push(0);
        k = k + 1;
    }
    proof {
        assert(v@ =~= Seq::new(16, |i: int| 0u16));
    }
    v
}

fn zeroed_corrections() -> (v: Vec<u8>)
    ensures
        v@ == Seq::new(16, |i: int| 0u8),
{
    let mut v: Vec<u8> = Vec::new();
    let mut k: usize = 0;
    while k < 16
        invariant
            k <= 16,
            v@.len() == k,
            forall|i: int| 0 <= i < k ==> v@[i] == 0u8,
        decreases 16 - k,
    {
        v.push(0);
        k = k + 1;
    }
    proof {
        assert(v@ =~= Seq::new(16, |i: int| 0u8));
    }
    v
}

/// Driver for the TLC5940 16-channel constant-current LED chip. It owns the
/// in-memory channel state (grayscale and dot-correction arrays), the
/// blanking and fault-sense pins, and one connector; it packs the channel
/// state into the chip's wire payload and sends it over the connector. The
/// connection interface is selected via the constructor functions.
pub struct TLC5940<CONNECTOR, BLANK, XERR> where BLANK: OutputPin, XERR: OutputPin {
    /// The transport the packed payloads are sent over.
    pub connector: CONNECTOR,
    /// Output enable/blanking pin. When driven high all outputs are
    /// disabled.
    pub blank_pin: BLANK,
    /// Fault-sense line: the chip drives it low if the thermal error flag
    /// or LED open detection triggers. Needs a pullup, active low.
    pub xerr_pin: XERR,
    /// Dot-correction values, one per channel. The chip accepts 6-bit
    /// values; the upper 2 bits of each entry are ignored at pack time.
    pub dot_correction: Vec<u8>,
    /// Brightness values, one per channel. The chip uses 12-bit PWM; a
    /// stored entry always fits in 12 bits.
    pub grayscale_values: Vec<u16>,
}

impl<CONNECTOR, BLANK, XERR> TLC5940<CONNECTOR, BLANK, XERR> where
    CONNECTOR: Connector,
    BLANK: OutputPin,
    XERR: OutputPin,
{
    /// Both channel arrays have exactly 16 slots, every stored value fits
    /// the chip's field width, and the transport drives at least one chip.
    pub open spec fn wf(&self) -> bool {
        &&& self.grayscale_values@.len() == 16
        &&& self.dot_correction@.len() == 16
        &&& forall|i: int| 0 <= i < 16 ==> self.grayscale_values@[i] <= 0xfff
        &&& forall|i: int| 0 <= i < 16 ==> self.dot_correction@[i] <= 0x3f
        &&& self.connector.chips() >= 1
    }

    /// The channel state and the pins of `post` are those of `pre`; only
    /// the connector may differ.
    pub open spec fn same_but_connector(pre: &Self, post: &Self) -> bool {
        &&& post.blank_pin == pre.blank_pin
        &&& post.xerr_pin == pre.xerr_pin
        &&& post.grayscale_values == pre.grayscale_values
        &&& post.dot_correction == pre.dot_correction
    }

    /// Blanks the outputs: drives the blanking pin high for `is_blank`
    /// true (outputs disabled), low for false. A blanking pin that was
    /// never wired (the `Unconnected` stand-in) makes this fail with
    /// `Error::NotConnected`; the error propagates unchanged and nothing
    /// else is touched.
    pub fn blank(&mut self, is_blank: bool) -> (r: Result<(), Error>)
        ensures
            final(self).blank_pin.fault() == old(self).blank_pin.fault(),
            old(self).blank_pin.fault() is None ==> r is Ok
                && final(self).blank_pin.trace() == old(self).blank_pin.trace().push(
                    (old(self).blank_pin.trace().len(), is_blank),
                ),
            old(self).blank_pin.fault() matches Some(e) ==> r == Err::<(), Error>(e)
                && final(self).blank_pin.trace() == old(self).blank_pin.trace(),
            final(self).connector == old(self).connector,
            final(self).xerr_pin == old(self).xerr_pin,
            final(self).grayscale_values == old(self).grayscale_values,
            final(self).dot_correction == old(self).dot_correction,
    {
        let ghost tick: nat = self.blank_pin.trace().len();
        if is_blank {
            self.blank_pin.set_high(Ghost(tick))
        } else {
            self.blank_pin.set_low(Ghost(tick))
        }
    }

    /// Store an intensity value for one channel. An index outside 0..16 is
    /// rejected with `Error::OutOfRange` and mutates nothing; otherwise the
    /// value is truncated to its low 12 bits and stored — truncation, not
    /// rejection, is the policy for out-of-range magnitude.
    pub fn set_level(&mut self, output: u8, level: u16) -> (r: Result<(), Error>)
        requires
            old(self).wf(),
        ensures
            final(self).wf(),
            output >= 16 ==> r == Err::<(), Error>(Error::OutOfRange)
                && *final(self) == *old(self),
            output < 16 ==> r == Ok::<(), Error>(())
                && final(self).grayscale_values@
                    == spec_set_level(old(self).grayscale_values@, output as int, level)
                && final(self).connector == old(self).connector
                && final(self).blank_pin == old(self).blank_pin
                && final(self).xerr_pin == old(self).xerr_pin
                && final(self).dot_correction == old(self).dot_correction,
    {
        if output >= 16 {
            return Err(Error::OutOfRange);
        }
        let masked: u16 = level & 0x0fff;
        proof {
            assert(level & 0xfff <= 0xfff) by (bit_vector);
        }
        self.grayscale_values.set(output as usize, masked);
        Ok(())
    }

    /// Store all 16 levels at once, applying the per-channel store to the
    /// indices in ascending order; the first failure would abort the
    /// remaining updates (none can occur, as indices 0..16 are always in
    /// range).
    pub fn set_levels(&mut self, levels: [u16; 16]) -> (r: Result<(), Error>)
        requires
            old(self).wf(),
        ensures
            final(self).wf(),
            r is Ok,
            final(self).grayscale_values@ == Seq::new(16, |i: int| levels@[i] & 0xfff),
            final(self).connector == old(self).connector,
            final(self).blank_pin == old(self).blank_pin,
            final(self).xerr_pin == old(self).xerr_pin,
            final(self).dot_correction == old(self).dot_correction,
    {
        let mut idx: usize = 0;
        while idx < 16
            invariant
                idx <= 16,
                self.wf(),
                self.connector == old(self).connector,
                self.blank_pin == old(self).blank_pin,
                self.xerr_pin == old(self).xerr_pin,
                self.dot_correction == old(self).dot_correction,
                forall|j: int| 0 <= j < idx ==> self.grayscale_values@[j]
                    == (levels@[j] & 0xfff),
                forall|j: int| idx <= j < 16 ==> self.grayscale_values@[j]
                    == old(self).grayscale_values@[j],
            decreases 16 - idx,
        {
            match self.set_level(idx as u8, levels[idx]) {
                Ok(()) => {}
                Err(e) => {
                    return Err(e);
                }
            }
            idx = idx + 1;
        }
        proof {
            assert(self.grayscale_values@ =~= Seq::new(16, |i: int| levels@[i] & 0xfff));
        }
        Ok(())
    }

    /// The full grayscale chain payload this driver pushes: one 24-byte
    /// block per daisy-chained chip. The driver holds a single 16-channel
    /// set, so every chip in the chain receives the same block — a
    /// deliberate choice where the chain is longer than the stored state.
    pub open spec fn grayscale_payload(&self) -> Seq<u8> {
        repeat_frame(spec_pack_grayscale(self.grayscale_values@), self.connector.chips())
    }

    /// The full dot-correction chain payload this driver pushes: one
    /// 12-byte block per daisy-chained chip, every chip receiving the same
    /// block.
    pub open spec fn dot_correction_payload(&self) -> Seq<u8> {
        repeat_frame(spec_pack_dot_correction(self.dot_correction@), self.connector.chips())
    }

    /// Transfer the stored intensity levels to the chip chain: pack the 16
    /// grayscale values into their 24-byte wire block, replicate it once
    /// per daisy-chained chip (24×N bytes in all), and send it over the
    /// connector. Packing is pure — a failed send leaves the in-memory
    /// channel state untouched, though the chips' displayed state is then
    /// indeterminate until the next successful push.
    pub fn update(&mut self) -> (r: Result<(), Error>)
        requires
            old(self).wf(),
        ensures
            final(self).wf(),
            Self::same_but_connector(old(self), final(self)),
            final(self).connector.fault() == old(self).connector.fault(),
            final(self).connector.chips() == old(self).connector.chips(),
            old(self).grayscale_payload().len() == 24 * old(self).connector.chips(),
            old(self).connector.fault() is None ==> r is Ok,
            old(self).connector.fault() matches Some(e) ==> r == Err::<(), Error>(e),
            r is Ok ==> final(self).connector.sent() == old(self).connector.sent().push(
                old(self).grayscale_payload(),
            ) && old(self).connector.wire_ok(
                &final(self).connector,
                old(self).grayscale_payload(),
            ),
            r is Err ==> final(self).connector.sent() == old(self).connector.sent()
                && old(self).connector.wire_err(
                &final(self).connector,
                old(self).grayscale_payload(),
            ),
    {
        let block: Vec<u8> = pack_grayscale(&self.grayscale_values);
        let chips: usize = self.connector.device_count();
        let payload: Vec<u8> = repeat_payload(&block, chips);
        proof {
            lemma_repeat_frame_len(block@, chips as nat);
        }
        self.connector.write_raw(payload.as_slice())
    }

    /// Transfer the stored dot-correction values to the chip chain: pack
    /// the 16 values into their 12-byte wire block, replicate it once per
    /// daisy-chained chip (12×N bytes in all), and send it over the
    /// connector.
    pub fn set_dot_correction(&mut self) -> (r: Result<(), Error>)
        requires
            old(self).wf(),
        ensures
            final(self).wf(),
            Self::same_but_connector(old(self), final(self)),
            final(self).connector.fault() == old(self).connector.fault(),
            final(self).connector.chips() == old(self).connector.chips(),
            old(self).dot_correction_payload().len() == 12 * old(self).connector.chips(),
            old(self).connector.fault() is None ==> r is Ok,
            old(self).connector.fault() matches Some(e) ==> r == Err::<(), Error>(e),
            r is Ok ==> final(self).connector.sent() == old(self).connector.sent().push(
                old(self).dot_correction_payload(),
            ) && old(self).connector.wire_ok(
                &final(self).connector,
                old(self).dot_correction_payload(),
            ),
            r is Err ==> final(self).connector.sent() == old(self).connector.sent()
                && old(self).connector.wire_err(
                &final(self).connector,
                old(self).dot_correction_payload(),
            ),
    {
        let block: Vec<u8> = pack_dot_correction(&self.dot_correction);
        let chips: usize = self.connector.device_count();
        let payload: Vec<u8> = repeat_payload(&block, chips);
        proof {
            lemma_repeat_frame_len(block@, chips as nat);
        }
        self.connector.write_raw(payload.as_slice())
    }

    // internal constructor, users should call ::from_pins, ::from_spi or
    // ::from_spi_cs
    fn new(connector: CONNECTOR, blank_pin: BLANK, xerr_pin: XERR) -> (r: Result<Self, Error>)
        requires
            connector.chips() >= 1,
        ensures
            r matches Ok(d) && d.wf() && d.connector == connector && d.blank_pin == blank_pin
                && d.xerr_pin == xerr_pin
                && d.grayscale_values@ == Seq::new(16, |i: int| 0u16)
                && d.dot_correction@ == Seq::new(16, |i: int| 0u8),
    {
        let tlc5940 = TLC5940 {
            connector,
            blank_pin,
            xerr_pin,
            dot_correction: zeroed_corrections(),
            grayscale_values: zeroed_levels(),
        };
        Ok(tlc5940)
    }
}

impl<DATA, CS, SCK, BLANK, XERR> TLC5940<PinConnector<DATA, CS, SCK>, BLANK, XERR> where
    DATA: OutputPin,
    CS: OutputPin,
    SCK: OutputPin,
    BLANK: OutputPin,
    XERR: OutputPin,
{
    /// Construct a driver over the bit-banged connector from data,
    /// chip-select and clock pins, plus the blanking and fault-sense pins.
    /// All channel values start at zero.
    pub fn from_pins(data: DATA, cs: CS, sck: SCK, blank_pin: BLANK, xerr_pin: XERR) -> (r:
        Result<Self, Error>)
        ensures
            r matches Ok(d) && d.wf() && d.connector.data == data && d.connector.cs == cs
                && d.connector.sck == sck && d.connector.sent() == Seq::<Seq<u8>>::empty()
                && d.blank_pin == blank_pin && d.xerr_pin == xerr_pin
                && d.grayscale_values@ == Seq::new(16, |i: int| 0u16)
                && d.dot_correction@ == Seq::new(16, |i: int| 0u8),
    {
        TLC5940::new(PinConnector::new(data, cs, sck), blank_pin, xerr_pin)
    }
}

impl<SPI, BLANK, XERR> TLC5940<SpiConnector<SPI>, BLANK, XERR> where
    SPI: SerialWrite,
    BLANK: OutputPin,
    XERR: OutputPin,
{
    /// Construct a driver over the hardware-select serial connector: the
    /// serial peripheral's own chip-select handling frames each transfer.
    /// `displays` is the number of chips connected in series, at least one.
    /// All channel values start at zero.
    pub fn from_spi(displays: usize, spi: SPI, blank_pin: BLANK, xerr_pin: XERR) -> (r: Result<
        Self,
        Error,
    >)
        requires
            displays >= 1,
        ensures
            r matches Ok(d) && d.wf() && d.connector.devices == displays && d.connector.spi == spi
                && d.blank_pin == blank_pin && d.xerr_pin == xerr_pin
                && d.grayscale_values@ == Seq::new(16, |i: int| 0u16)
                && d.dot_correction@ == Seq::new(16, |i: int| 0u8),
    {
        TLC5940::new(SpiConnector::new(displays, spi), blank_pin, xerr_pin)
    }
}

impl<SPI, CS, BLANK, XERR> TLC5940<SpiConnectorSW<SPI, CS>, BLANK, XERR> where
    SPI: SerialWrite,
    CS: OutputPin,
    BLANK: OutputPin,
    XERR: OutputPin,
{
    /// Construct a driver over the software-select serial connector: the
    /// given chip-select pin is driven manually around each transfer, for
    /// serial peripherals whose automatic select timing is unsuitable.
    /// `displays` is the number of chips connected in series, at least one.
    /// All channel values start at zero.
    pub fn from_spi_cs(displays: usize, spi: SPI, cs: CS, blank_pin: BLANK, xerr_pin: XERR) -> (r:
        Result<Self, Error>)
        requires
            displays >= 1,
        ensures
            r matches Ok(d) && d.wf() && d.connector.spi_c.devices == displays
                && d.connector.spi_c.spi == spi && d.connector.cs == cs
                && d.blank_pin == blank_pin && d.xerr_pin == xerr_pin
                && d.grayscale_values@ == Seq::new(16, |i: int| 0u16)
                && d.dot_correction@ == Seq::new(16, |i: int| 0u8),
    {
        TLC5940::new(SpiConnectorSW::new(displays, spi, cs), blank_pin, xerr_pin)
    }
}

} // verus!
