use tlc5940::error::Error;
use tlc5940::recorders::{BrokenSerial, RecordingPin, RecordingSerial};
use tlc5940::unconnected::Unconnected;
use tlc5940::TLC5940;

fn pin_driver() -> TLC5940<
    tlc5940::connectors::PinConnector<RecordingPin, RecordingPin, RecordingPin>,
    Unconnected,
    Unconnected,
> {
    TLC5940::from_pins(
        RecordingPin::new(),
        RecordingPin::new(),
        RecordingPin::new(),
        Unconnected,
        Unconnected,
    )
    .unwrap()
}

#[test]
fn it_works() {
    assert_eq!(2 + 2, 4);
}

#[test]
fn construction_zeroes_channel_state() {
    let d = pin_driver();
    assert_eq!(d.grayscale_values, vec![0u16; 16]);
    assert_eq!(d.dot_correction, vec![0u8; 16]);
}

#[test]
fn set_level_masks_to_12_bits() {
    let mut d = pin_driver();
    let samples: [u16; 6] = [0, 1, 0x0fff, 0x1000, 0xabcd, 0xffff];
    for i in 0..16u8 {
        for &v in samples.iter() {
            assert_eq!(d.set_level(i, v), Ok(()));
            assert_eq!(d.grayscale_values[i as usize], v & 0x0fff);
        }
    }
}

#[test]
fn set_level_rejects_out_of_range_index() {
    let mut d = pin_driver();
    assert_eq!(d.set_level(2, 7), Ok(()));
    let grayscale_before = d.grayscale_values.clone();
    let correction_before = d.dot_correction.clone();
    for i in [16u8, 17, 100, 255] {
        assert_eq!(d.set_level(i, 1), Err(Error::OutOfRange));
        assert_eq!(d.grayscale_values, grayscale_before);
        assert_eq!(d.dot_correction, correction_before);
    }
}

#[test]
fn set_levels_matches_sequential_set_level() {
    let levels: [u16; 16] = [
        0, 1, 2, 3, 500, 1000, 2000, 4095, 17, 99, 1234, 2345, 3456, 4000, 4094, 42,
    ];
    let mut bulk = pin_driver();
    assert_eq!(bulk.set_levels(levels), Ok(()));
    let mut sequential = pin_driver();
    for i in 0..16u8 {
        assert_eq!(sequential.set_level(i, levels[i as usize]), Ok(()));
    }
    assert_eq!(bulk.grayscale_values, sequential.grayscale_values);
}

#[test]
fn set_levels_masks_each_value() {
    let levels: [u16; 16] = [
        0x1000, 0x1001, 0xffff, 3, 4, 5, 6, 7, 8, 9, 10, 11, 12, 13, 14, 0xabcd,
    ];
    let mut d = pin_driver();
    assert_eq!(d.set_levels(levels), Ok(()));
    for i in 0..16 {
        assert_eq!(d.grayscale_values[i], levels[i] & 0x0fff);
    }
}

#[test]
fn blank_on_unconnected_pin_returns_not_connected() {
    let mut d = pin_driver();
    d.set_level(5, 123).unwrap();
    let grayscale_before = d.grayscale_values.clone();
    let correction_before = d.dot_correction.clone();
    assert_eq!(d.blank(true), Err(Error::NotConnected));
    assert_eq!(d.blank(false), Err(Error::NotConnected));
    assert_eq!(d.grayscale_values, grayscale_before);
    assert_eq!(d.dot_correction, correction_before);
    assert_eq!(d.connector.data.recorded(), Vec::<bool>::new());
    assert_eq!(d.connector.cs.recorded(), Vec::<bool>::new());
    assert_eq!(d.connector.sck.recorded(), Vec::<bool>::new());
}

#[test]
fn blank_drives_wired_pin() {
    let mut d = TLC5940::from_pins(
        RecordingPin::new(),
        RecordingPin::new(),
        RecordingPin::new(),
        RecordingPin::new(),
        Unconnected,
    )
    .unwrap();
    assert_eq!(d.blank(true), Ok(()));
    assert_eq!(d.blank(false), Ok(()));
    assert_eq!(d.blank_pin.recorded(), vec![true, false]);
}

#[test]
fn update_over_bit_banged_transport() {
    let mut d = pin_driver();
    assert_eq!(d.set_level(0, 4096), Ok(()));
    assert_eq!(d.grayscale_values[0], 0);
    let grayscale_before = d.grayscale_values.clone();
    assert_eq!(d.set_level(16, 100), Err(Error::OutOfRange));
    assert_eq!(d.grayscale_values, grayscale_before);
    assert_eq!(d.update(), Ok(()));
    // 24 bytes = 192 data bits were clocked out, all zero since every
    // channel (channel 0 included, 4096 & 0x0fff = 0) holds zero
    let data = d.connector.data.recorded();
    assert_eq!(data.len(), 192);
    assert!(data.iter().all(|&b| !b));
    let sck = d.connector.sck.recorded();
    assert_eq!(sck.len(), 384);
    assert_eq!(d.connector.cs.recorded(), vec![false, true]);
}

#[test]
fn update_over_serial_transport_sends_24_bytes() {
    let mut d = TLC5940::from_spi(1, RecordingSerial::new(), Unconnected, Unconnected).unwrap();
    d.set_level(15, 0xabc).unwrap();
    d.set_level(14, 0xdef).unwrap();
    assert_eq!(d.update(), Ok(()));
    let frames = d.connector.spi.recorded();
    assert_eq!(frames.len(), 1);
    assert_eq!(frames[0].len(), 24);
    assert_eq!(frames[0][0], 0xab);
    assert_eq!(frames[0][1], 0xcd);
    assert_eq!(frames[0][2], 0xef);
    assert!(frames[0][3..].iter().all(|&b| b == 0));
}

#[test]
fn update_failure_leaves_channel_state_untouched() {
    let mut d = TLC5940::from_spi(1, BrokenSerial::new(), Unconnected, Unconnected).unwrap();
    d.set_level(3, 333).unwrap();
    let grayscale_before = d.grayscale_values.clone();
    assert_eq!(d.update(), Err(Error::Spi));
    assert_eq!(d.grayscale_values, grayscale_before);
}

#[test]
fn update_over_unconnected_pins_fails_with_pin_error() {
    let mut d = TLC5940::from_pins(
        Unconnected,
        RecordingPin::new(),
        RecordingPin::new(),
        Unconnected,
        Unconnected,
    )
    .unwrap();
    assert_eq!(d.update(), Err(Error::Pin));
    // the transfer aborted after the select line went low; it is not
    // restored on failure
    assert_eq!(d.connector.cs.recorded(), vec![false]);
}

#[test]
fn set_dot_correction_sends_12_bytes() {
    let mut d = TLC5940::from_spi(1, RecordingSerial::new(), Unconnected, Unconnected).unwrap();
    assert_eq!(d.set_dot_correction(), Ok(()));
    let frames = d.connector.spi.recorded();
    assert_eq!(frames.len(), 1);
    assert_eq!(frames[0], vec![0u8; 12]);
}

#[test]
fn driver_over_software_select_transport() {
    // two daisy-chained chips: the payload is two 24-byte blocks
    let mut d = TLC5940::from_spi_cs(
        2,
        RecordingSerial::new(),
        RecordingPin::new(),
        Unconnected,
        Unconnected,
    )
    .unwrap();
    assert_eq!(d.update(), Ok(()));
    assert_eq!(d.connector.cs.recorded(), vec![false, true]);
    let frames = d.connector.spi_c.spi.recorded();
    assert_eq!(frames.len(), 1);
    assert_eq!(frames[0], vec![0u8; 48]);
}

#[test]
fn update_scales_payload_with_chain_length() {
    // three chips in series: each receives the same 24-byte block, so the
    // frame is 72 bytes and the block repeats at offsets 0, 24 and 48
    let mut d = TLC5940::from_spi(3, RecordingSerial::new(), Unconnected, Unconnected).unwrap();
    d.set_level(15, 0xabc).unwrap();
    assert_eq!(d.update(), Ok(()));
    let frames = d.connector.spi.recorded();
    assert_eq!(frames.len(), 1);
    assert_eq!(frames[0].len(), 72);
    for chip in 0..3 {
        assert_eq!(frames[0][24 * chip], 0xab);
        assert_eq!(frames[0][24 * chip + 1], 0xc0);
        assert!(frames[0][24 * chip + 2..24 * (chip + 1)].iter().all(|&b| b == 0));
    }
}

#[test]
fn set_dot_correction_scales_payload_with_chain_length() {
    let mut d = TLC5940::from_spi(2, RecordingSerial::new(), Unconnected, Unconnected).unwrap();
    assert_eq!(d.set_dot_correction(), Ok(()));
    let frames = d.connector.spi.recorded();
    assert_eq!(frames.len(), 1);
    assert_eq!(frames[0], vec![0u8; 24]);
}
