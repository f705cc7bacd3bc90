use tlc5940::connectors::{Connector, PinConnector, SpiConnector, SpiConnectorSW};
use tlc5940::error::Error;
use tlc5940::recorders::{BrokenSerial, RecordingPin, RecordingSerial};
use tlc5940::unconnected::Unconnected;

#[test]
fn bit_banged_single_byte_wire_pattern() {
    let mut c = PinConnector::new(RecordingPin::new(), RecordingPin::new(), RecordingPin::new());
    assert_eq!(c.write_raw(&[0b10110010]), Ok(()));
    // data line sampled on each rising clock edge: most significant bit
    // first
    assert_eq!(
        c.data.recorded(),
        vec![true, false, true, true, false, false, true, false]
    );
    // exactly 8 clock pulses, each high then low
    let sck = c.sck.recorded();
    assert_eq!(sck.len(), 16);
    for pulse in 0..8 {
        assert_eq!(sck[2 * pulse], true);
        assert_eq!(sck[2 * pulse + 1], false);
    }
    // bracketed by chip-select low then high
    assert_eq!(c.cs.recorded(), vec![false, true]);
}

#[test]
fn bit_banged_multi_byte_preserves_byte_order() {
    let mut c = PinConnector::new(RecordingPin::new(), RecordingPin::new(), RecordingPin::new());
    assert_eq!(c.write_raw(&[0x80, 0x01]), Ok(()));
    let mut expected = vec![false; 16];
    expected[0] = true; // bit 7 of the first byte
    expected[15] = true; // bit 0 of the second byte
    assert_eq!(c.data.recorded(), expected);
    assert_eq!(c.sck.recorded().len(), 32);
    assert_eq!(c.cs.recorded(), vec![false, true]);
}

#[test]
fn bit_banged_aborts_on_data_pin_failure() {
    let mut c = PinConnector::new(Unconnected, RecordingPin::new(), RecordingPin::new());
    assert_eq!(c.write_raw(&[0xff]), Err(Error::Pin));
    // the select line went low and is not restored; no clock pulse was
    // produced
    assert_eq!(c.cs.recorded(), vec![false]);
    assert_eq!(c.sck.recorded(), Vec::<bool>::new());
}

#[test]
fn bit_banged_fails_at_once_on_select_pin_failure() {
    let mut c = PinConnector::new(RecordingPin::new(), Unconnected, RecordingPin::new());
    assert_eq!(c.write_raw(&[0xff]), Err(Error::Pin));
    assert_eq!(c.data.recorded(), Vec::<bool>::new());
    assert_eq!(c.sck.recorded(), Vec::<bool>::new());
}

#[test]
fn hardware_select_delegates_whole_payload() {
    let mut c = SpiConnector::new(1, RecordingSerial::new());
    assert_eq!(c.write_raw(&[1, 2, 3]), Ok(()));
    assert_eq!(c.write_raw(&[4]), Ok(()));
    assert_eq!(c.spi.recorded(), vec![vec![1, 2, 3], vec![4]]);
}

#[test]
fn hardware_select_maps_serial_failure_to_spi_error() {
    let mut c = SpiConnector::new(1, BrokenSerial::new());
    assert_eq!(c.write_raw(&[1, 2, 3]), Err(Error::Spi));
}

#[test]
fn software_select_frames_transfer_with_manual_select() {
    let mut c = SpiConnectorSW::new(1, RecordingSerial::new(), RecordingPin::new());
    assert_eq!(c.write_raw(&[9, 8, 7]), Ok(()));
    assert_eq!(c.cs.recorded(), vec![false, true]);
    assert_eq!(c.spi_c.spi.recorded(), vec![vec![9, 8, 7]]);
}

#[test]
fn software_select_skips_write_when_select_fails() {
    let mut c = SpiConnectorSW::new(1, RecordingSerial::new(), Unconnected);
    assert_eq!(c.write_raw(&[9, 8, 7]), Err(Error::Pin));
    assert_eq!(c.spi_c.spi.recorded(), Vec::<Vec<u8>>::new());
}

#[test]
fn software_select_leaves_select_low_on_write_failure() {
    let mut c = SpiConnectorSW::new(1, BrokenSerial::new(), RecordingPin::new());
    assert_eq!(c.write_raw(&[9]), Err(Error::Spi));
    // the select line is not restored high when the serial write fails
    assert_eq!(c.cs.recorded(), vec![false]);
}
