use tlc5940::error::Error;
use tlc5940::hal::InputPin;
use tlc5940::packing::{pack_dot_correction, pack_grayscale, unpack_grayscale};
use tlc5940::unconnected::Unconnected;

#[test]
fn grayscale_packing_has_exact_byte_layout() {
    // channel 15's 12-bit field is transmitted first, most significant bit
    // first; two channels fill three bytes
    let mut vals = vec![0u16; 16];
    vals[15] = 0xabc;
    vals[14] = 0xdef;
    let packed = pack_grayscale(&vals);
    assert_eq!(packed.len(), 24);
    assert_eq!(packed[0], 0xab);
    assert_eq!(packed[1], 0xcd);
    assert_eq!(packed[2], 0xef);
    assert!(packed[3..].iter().all(|&b| b == 0));
}

#[test]
fn grayscale_packing_masks_high_bits_at_pack_time() {
    let mut plain = vec![0u16; 16];
    plain[15] = 0xabc;
    plain[0] = 0x123;
    let mut oversized = vec![0u16; 16];
    oversized[15] = 0xfabc;
    oversized[0] = 0x1123;
    assert_eq!(pack_grayscale(&plain), pack_grayscale(&oversized));
}

#[test]
fn grayscale_pack_unpack_is_identity() {
    let vals: Vec<u16> = vec![
        0, 1, 2, 4095, 2048, 1024, 512, 256, 128, 64, 32, 16, 8, 3000, 171, 4094,
    ];
    let packed = pack_grayscale(&vals);
    assert_eq!(packed.len(), 24);
    let back = unpack_grayscale(&packed);
    assert_eq!(back, vals);
}

#[test]
fn grayscale_unpack_reads_fields_back_by_channel() {
    let mut vals = vec![0u16; 16];
    for c in 0..16 {
        vals[c] = (c as u16) * 257 & 0x0fff;
    }
    let back = unpack_grayscale(&pack_grayscale(&vals));
    for c in 0..16 {
        assert_eq!(back[c], vals[c]);
    }
}

#[test]
fn dot_correction_packing_has_exact_byte_layout() {
    // channel 15's 6-bit field is transmitted first; four channels fill
    // three bytes
    let mut vals = vec![0u8; 16];
    vals[15] = 0x2a;
    vals[14] = 0x15;
    vals[13] = 0x3f;
    vals[12] = 0x01;
    let packed = pack_dot_correction(&vals);
    assert_eq!(packed.len(), 12);
    assert_eq!(packed[0], 0xa9);
    assert_eq!(packed[1], 0x5f);
    assert_eq!(packed[2], 0xc1);
    assert!(packed[3..].iter().all(|&b| b == 0));
}

#[test]
fn dot_correction_packing_masks_high_bits_at_pack_time() {
    let mut plain = vec![0u8; 16];
    plain[15] = 0x2a;
    plain[3] = 0x11;
    let mut oversized = vec![0u8; 16];
    oversized[15] = 0xea;
    oversized[3] = 0xd1;
    assert_eq!(pack_dot_correction(&plain), pack_dot_correction(&oversized));
}

#[test]
fn unconnected_input_pin_reports_not_connected() {
    let pin = Unconnected;
    assert_eq!(pin.is_high(), Err(Error::NotConnected));
    assert_eq!(pin.is_low(), Err(Error::NotConnected));
}
