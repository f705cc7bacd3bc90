use vstd::prelude::*;

verus! {

/// A grayscale value reduced to the 12 bits the chip accepts.
pub open spec fn mask12(v: u16) -> u16 {
    v & 0xfff
}

/// A dot-correction value reduced to the 6 bits the chip accepts.
pub open spec fn mask6(v: u8) -> u8 {
    v & 0x3f
}

/// Byte `i` of the packed grayscale payload: the 16 channels' 12-bit
/// fields, channel 15 first, concatenated most significant bit first and
/// split into bytes. Each group of two channels yields three bytes.
pub open spec fn gs_byte(vals: Seq<u16>, i: int) -> u8 {
    let hi = mask12(vals[15 - 2 * (i / 3)]);
    let lo = mask12(vals[14 - 2 * (i / 3)]);
    if i % 3 == 0 {
        (hi >> 4) as u8
    } else if i % 3 == 1 {
        (((hi & 0xf) << 4) | (lo >> 8)) as u8
    } else {
        (lo & 0xff) as u8
    }
}

/// The 24-byte wire payload for 16 grayscale channels, channel 15's field
/// transmitted first, each value's high bits beyond 12 ignored.
pub open spec fn spec_pack_grayscale(vals: Seq<u16>) -> Seq<u8> {
    Seq::new(24, |i: int| gs_byte(vals, i))
}

/// Channel `c`'s 12-bit value read back out of a packed grayscale payload:
/// the inverse bit order of `spec_pack_grayscale`.
pub open spec fn gs_field(bytes: Seq<u8>, c: int) -> u16 {
    let g = (15 - c) / 2;
    if (15 - c) % 2 == 0 {
        (((bytes[3 * g] as u16) << 4) | ((bytes[3 * g + 1] as u16) >> 4)) as u16
    } else {
        ((((bytes[3 * g + 1] as u16) & 0xf) << 8) | (bytes[3 * g + 2] as u16)) as u16
    }
}

/// The 16 channel values held in a packed grayscale payload.
pub open spec fn spec_unpack_grayscale(bytes: Seq<u8>) -> Seq<u16> {
    Seq::new(16, |c: int| gs_field(bytes, c))
}

/// Byte `i` of the packed dot-correction payload: the 16 channels' 6-bit
/// fields, channel 15 first, concatenated most significant bit first and
/// split into bytes. Each group of four channels yields three bytes.
pub open spec fn dc_byte(vals: Seq<u8>, i: int) -> u8 {
    let a = mask6(vals[15 - 4 * (i / 3)]);
    let b = mask6(vals[14 - 4 * (i / 3)]);
    let c = mask6(vals[13 - 4 * (i / 3)]);
    let d = mask6(vals[12 - 4 * (i / 3)]);
    if i % 3 == 0 {
        (a << 2) | (b >> 4)
    } else if i % 3 == 1 {
        ((b & 0xf) << 4) | (c >> 2)
    } else {
        ((c & 0x3) << 6) | d
    }
}

/// The 12-byte wire payload for 16 dot-correction channels, channel 15's
/// field transmitted first, each value's high bits beyond 6 ignored.
pub open spec fn spec_pack_dot_correction(vals: Seq<u8>) -> Seq<u8> {
    Seq::new(12, |i: int| dc_byte(vals, i))
}

/// Channel `c`'s 6-bit value read back out of a packed dot-correction
/// payload: the inverse bit order of `spec_pack_dot_correction`.
pub open spec fn dc_field(bytes: Seq<u8>, c: int) -> u8 {
    let g = (15 - c) / 4;
    if (15 - c) % 4 == 0 {
        bytes[3 * g] >> 2
    } else if (15 - c) % 4 == 1 {
        ((bytes[3 * g] & 0x3) << 4) | (bytes[3 * g + 1] >> 4)
    } else if (15 - c) % 4 == 2 {
        ((bytes[3 * g + 1] & 0xf) << 2) | (bytes[3 * g + 2] >> 6)
    } else {
        bytes[3 * g + 2] & 0x3f
    }
}

/// The 16 channel values held in a packed dot-correction payload.
pub open spec fn spec_unpack_dot_correction(bytes: Seq<u8>) -> Seq<u8> {
    Seq::new(16, |c: int| dc_field(bytes, c))
}

/// `n` copies of `frame` in a row: the wire payload for a chain of `n`
/// chips whose shift registers are connected in series, each chip receiving
/// the same channel block.
pub open spec fn repeat_frame(frame: Seq<u8>, n: nat) -> Seq<u8>
    decreases n,
{
    if n == 0 {
        Seq::empty()
    } else {
        repeat_frame(frame, (n - 1) as nat) + frame
    }
}

/// Law: the chain payload for `n` chips is exactly `n` times the length of
/// one chip's block.
pub proof fn lemma_repeat_frame_len(frame: Seq<u8>, n: nat)
    ensures
        repeat_frame(frame, n).len() == frame.len() * n,
    decreases n,
{
    if n == 0 {
        assert(frame.len() * n == 0) by (nonlinear_arith)
            requires
                n == 0,
        ;
    } else {
        lemma_repeat_frame_len(frame, (n - 1) as nat);
        assert(frame.len() * n == frame.len() * (n - 1) + frame.len()) by (nonlinear_arith);
    }
}

/// Concatenate `n` copies of one chip's packed block into the payload for a
/// chain of `n` chips.
pub fn repeat_payload(frame: &Vec<u8>, n: usize) -> (out: Vec<u8>)
    ensures
        out@ == repeat_frame(frame@, n as nat),
{
    let mut out: Vec<u8> = Vec::new();
    let mut c: usize = 0;
    while c < n
        invariant
            c <= n,
            out@ == repeat_frame(frame@, c as nat),
        decreases n - c,
    {
        proof {
            assert(out@ =~= repeat_frame(frame@, c as nat) + frame@.take(0));
        }
        let mut k: usize = 0;
        while k < frame.len()
            invariant
                k <= frame@.len(),
                c < n,
                out@ == repeat_frame(frame@, c as nat) + frame@.take(k as int),
            decreases frame@.len() - k,
        {
            out.push(frame[k]);
            proof {
                assert(frame@.take(k as int).push(frame@[k as int]) =~= frame@.take(k as int + 1));
            }
            k = k + 1;
        }
        proof {
            assert(frame@.take(frame@.len() as int) =~= frame@);
        }
        c = c + 1;
    }
    out
}

/// Pack 16 grayscale channels into their 24-byte wire payload. The high
/// bits of each value beyond 12 are ignored here, at pack time.
pub fn pack_grayscale(vals: &Vec<u16>) -> (out: Vec<u8>)
    requires
        vals@.len() == 16,
    ensures
        out@ == spec_pack_grayscale(vals@),
        out@.len() == 24,
{
    let mut out: Vec<u8> = Vec::new();
    let mut g: usize = 0;
    while g < 8
        invariant
            g <= 8,
            vals@.len() == 16,
            out@.len() == 3 * g,
            forall|i: int| 0 <= i < 3 * g ==> out@[i] == gs_byte(vals@, i),
        decreases 8 - g,
    {
        let hi: u16 = vals[15 - 2 * g] & 0xfff;
        let lo: u16 = vals[14 - 2 * g] & 0xfff;
        out.push((hi >> 4) as u8);
        out.push((((hi & 0xf) << 4) | (lo >> 8)) as u8);
        out.push((lo & 0xff) as u8);
        proof {
            assert forall|i: int| 3 * g <= i < 3 * g + 3 implies out@[i] == gs_byte(vals@, i) by {
                assert(i / 3 == g && (i % 3 == i - 3 * g));
            }
        }
        g = g + 1;
    }
    proof {
        assert(out@ =~= spec_pack_grayscale(vals@));
    }
    out
}

/// Read the 16 grayscale channel values back out of a 24-byte payload,
/// with the inverse bit order of `pack_grayscale`.
pub fn unpack_grayscale(bytes: &Vec<u8>) -> (out: Vec<u16>)
    requires
        bytes@.len() == 24,
    ensures
        out@ == spec_unpack_grayscale(bytes@),
        out@.len() == 16,
{
    let mut out: Vec<u16> = Vec::new();
    let mut c: usize = 0;
    while c < 16
        invariant
            c <= 16,
            bytes@.len() == 24,
            out@.len() == c,
            forall|j: int| 0 <= j < c ==> out@[j] == gs_field(bytes@, j),
        decreases 16 - c,
    {
        let g: usize = (15 - c) / 2;
        let v: u16 = if (15 - c) % 2 == 0 {
            ((bytes[3 * g] as u16) << 4u16) | ((bytes[3 * g + 1] as u16) >> 4u16)
        } else {
            (((bytes[3 * g + 1] as u16) & 0xf) << 8u16) | (bytes[3 * g + 2] as u16)
        };
        out.push(v);
        c = c + 1;
    }
    proof {
        assert(out@ =~= spec_unpack_grayscale(bytes@));
    }
    out
}

/// Pack 16 dot-correction channels into their 12-byte wire payload. The
/// high bits of each value beyond 6 are ignored here, at pack time.
pub fn pack_dot_correction(vals: &Vec<u8>) -> (out: Vec<u8>)
    requires
        vals@.len() == 16,
    ensures
        out@ == spec_pack_dot_correction(vals@),
        out@.len() == 12,
{
    let mut out: Vec<u8> = Vec::new();
    let mut g: usize = 0;
    while g < 4
        invariant
            g <= 4,
            vals@.len() == 16,
            out@.len() == 3 * g,
            forall|i: int| 0 <= i < 3 * g ==> out@[i] == dc_byte(vals@, i),
        decreases 4 - g,
    {
        let a: u8 = vals[15 - 4 * g] & 0x3f;
        let b: u8 = vals[14 - 4 * g] & 0x3f;
        let c: u8 = vals[13 - 4 * g] & 0x3f;
        let d: u8 = vals[12 - 4 * g] & 0x3f;
        out.push((a << 2u8) | (b >> 4u8));
        out.push(((b & 0xf) << 4u8) | (c >> 2u8));
        out.push(((c & 0x3) << 6u8) | d);
        proof {
            assert forall|i: int| 3 * g <= i < 3 * g + 3 implies out@[i] == dc_byte(vals@, i) by {
                assert(i / 3 == g && (i % 3 == i - 3 * g));
            }
        }
        g = g + 1;
    }
    proof {
        assert(out@ =~= spec_pack_dot_correction(vals@));
    }
    out
}

proof fn lemma_gs_pair_roundtrip(hi: u16, lo: u16)
    by (bit_vector)
    requires
        hi & 0xfff == hi,
        lo & 0xfff == lo,
    ensures
        (((((hi >> 4) as u8) as u16) << 4) | (((((hi & 0xf) << 4) | (lo >> 8)) as u8 as u16)
            >> 4)) as u16 == hi,
        (((((((hi & 0xf) << 4) | (lo >> 8)) as u8 as u16) & 0xf) << 8) | ((lo & 0xff) as u8
            as u16)) as u16 == lo,
{
}

/// Law: packing then unpacking a grayscale channel array is the identity.
/// For any 16 channel values that fit in 12 bits, reading the packed
/// 24-byte payload back with the inverse bit order gives the original
/// array.
pub proof fn lemma_grayscale_roundtrip(vals: Seq<u16>)
    requires
        vals.len() == 16,
        forall|i: int| 0 <= i < 16 ==> vals[i] <= 0xfff,
    ensures
        spec_unpack_grayscale(spec_pack_grayscale(vals)) == vals,
{
    let packed = spec_pack_grayscale(vals);
    let back = spec_unpack_grayscale(packed);
    assert forall|c: int| 0 <= c < 16 implies back[c] == vals[c] by {
        let g = (15 - c) / 2;
        let hi = vals[15 - 2 * g];
        let lo = vals[14 - 2 * g];
        assert(hi & 0xfff == hi) by (bit_vector)
            requires
                hi <= 0xfff,
        ;
        assert(lo & 0xfff == lo) by (bit_vector)
            requires
                lo <= 0xfff,
        ;
        assert(packed[3 * g] == gs_byte(vals, 3 * g));
        assert(packed[3 * g + 1] == gs_byte(vals, 3 * g + 1));
        assert(packed[3 * g + 2] == gs_byte(vals, 3 * g + 2));
        assert((3 * g) / 3 == g && (3 * g) % 3 == 0);
        assert((3 * g + 1) / 3 == g && (3 * g + 1) % 3 == 1);
        assert((3 * g + 2) / 3 == g && (3 * g + 2) % 3 == 2);
        lemma_gs_pair_roundtrip(hi, lo);
        if (15 - c) % 2 == 0 {
            assert(c == 15 - 2 * g);
        } else {
            assert(c == 14 - 2 * g);
        }
    }
    assert(back =~= vals);
}

proof fn lemma_dc_quad_roundtrip(a: u8, b: u8, c: u8, d: u8)
    by (bit_vector)
    requires
        a & 0x3f == a,
        b & 0x3f == b,
        c & 0x3f == c,
        d & 0x3f == d,
    ensures
        ((a << 2) | (b >> 4)) >> 2 == a,
        (((((a << 2) | (b >> 4)) & 0x3) << 4) | ((((b & 0xf) << 4) | (c >> 2)) >> 4)) == b,
        (((((b & 0xf) << 4) | (c >> 2)) & 0xf) << 2) | ((((c & 0x3) << 6) | d) >> 6) == c,
        (((c & 0x3) << 6) | d) & 0x3f == d,
{
}

/// Law: packing then unpacking a dot-correction channel array is the
/// identity. For any 16 channel values that fit in 6 bits, reading the
/// packed 12-byte payload back with the inverse bit order gives the
/// original array.
pub proof fn lemma_dot_correction_roundtrip(vals: Seq<u8>)
    requires
        vals.len() == 16,
        forall|i: int| 0 <= i < 16 ==> vals[i] <= 0x3f,
    ensures
        spec_unpack_dot_correction(spec_pack_dot_correction(vals)) == vals,
{
    let packed = spec_pack_dot_correction(vals);
    let back = spec_unpack_dot_correction(packed);
    assert forall|ch: int| 0 <= ch < 16 implies back[ch] == vals[ch] by {
        let g = (15 - ch) / 4;
        let a = vals[15 - 4 * g];
        let b = vals[14 - 4 * g];
        let c = vals[13 - 4 * g];
        let d = vals[12 - 4 * g];
        assert(a & 0x3f == a) by (bit_vector)
            requires
                a <= 0x3f,
        ;
        assert(b & 0x3f == b) by (bit_vector)
            requires
                b <= 0x3f,
        ;
        assert(c & 0x3f == c) by (bit_vector)
            requires
                c <= 0x3f,
        ;
        assert(d & 0x3f == d) by (bit_vector)
            requires
                d <= 0x3f,
        ;
        assert(packed[3 * g] == dc_byte(vals, 3 * g));
        assert(packed[3 * g + 1] == dc_byte(vals, 3 * g + 1));
        assert(packed[3 * g + 2] == dc_byte(vals, 3 * g + 2));
        assert((3 * g) / 3 == g && (3 * g) % 3 == 0);
        assert((3 * g + 1) / 3 == g && (3 * g + 1) % 3 == 1);
        assert((3 * g + 2) / 3 == g && (3 * g + 2) % 3 == 2);
        lemma_dc_quad_roundtrip(a, b, c, d);
        if (15 - ch) % 4 == 0 {
            assert(ch == 15 - 4 * g);
        } else if (15 - ch) % 4 == 1 {
            assert(ch == 14 - 4 * g);
        } else if (15 - ch) % 4 == 2 {
            assert(ch == 13 - 4 * g);
        } else {
            assert(ch == 12 - 4 * g);
        }
    }
    assert(back =~= vals);
}

} // verus!
