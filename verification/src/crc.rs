//! The Modbus RTU checksum.
use vstd::prelude::*;

verus! {

/// One shift of the checksum register, with the reflected polynomial `0xa001`.
pub open spec fn crc_shift(crc: u16) -> u16 {
    if crc & 1 == 1 {
        (crc >> 1) ^ 0xa001
    } else {
        crc >> 1
    }
}

/// `n` shifts of the checksum register.
pub open spec fn crc_shifts(crc: u16, n: nat) -> u16
    decreases n,
{
    if n == 0 {
        crc
    } else {
        crc_shift(crc_shifts(crc, (n - 1) as nat))
    }
}

/// The CRC-16/MODBUS checksum: start from all ones, and for each byte mix it
/// into the register and shift eight times.
pub open spec fn crc16(bytes: Seq<u8>) -> u16
    decreases bytes.len(),
{
    if bytes.len() == 0 {
        0xffff
    } else {
        crc_shifts(crc16(bytes.drop_last()) ^ (bytes.last() as u16), 8)
    }
}

/// The high byte of a word.
pub open spec fn high(word: u16) -> u8 {
    (word / 256) as u8
}

/// The low byte of a word.
pub open spec fn low(word: u16) -> u8 {
    (word % 256) as u8
}

/// A frame with its checksum appended, low byte first.
pub open spec fn sealed(frame: Seq<u8>) -> Seq<u8> {
    frame + seq![low(crc16(frame)), high(crc16(frame))]
}

/// The CRC-16/MODBUS checksum of `bytes`.
pub fn crc16_modbus(bytes: &[u8]) -> (crc: u16)
    ensures
        crc == crc16(bytes@),
{
    let mut crc: u16 = 0xffff;
    let mut i: usize = 0;
    assert(bytes@.take(0) == Seq::<u8>::empty());
    while i < bytes.len()
        invariant
            i <= bytes.len(),
            crc == crc16(bytes@.take(i as int)),
        decreases bytes.len() - i,
    {
        let mixed: u16 = crc ^ bytes[i] as u16;
        crc = mixed;
        let mut n: u8 = 0;
        while n < 8
            invariant
                n <= 8,
                crc == crc_shifts(mixed, n as nat),
            decreases 8 - n,
        {
            crc = if crc & 1 == 1 {
                (crc >> 1) ^ 0xa001
            } else {
                crc >> 1
            };
            n += 1;
        }
        assert(bytes@.take(i + 1).drop_last() == bytes@.take(i as int));
        i += 1;
    }
    assert(bytes@.take(bytes.len() as int) == bytes@);
    crc
}

/// Append the checksum to a frame.
pub fn with_crc(frame: Vec<u8>) -> (r: Vec<u8>)
    ensures
        r@ == sealed(frame@),
{
    let mut out: Vec<u8> = frame;
    let crc: u16 = crc16_modbus(out.as_slice());
    out.push((crc % 256) as u8);
    out.push((crc / 256) as u8);
    out
}

/// Eight shifts of a register whose low byte is clear only move the high byte
/// down.
proof fn lemma_shift_clear_low(crc: u16)
    requires
        crc & 0xff == 0,
    ensures
        crc_shifts(crc, 8) == crc >> 8,
{
    reveal_with_fuel(crc_shifts, 9);
    let c1 = crc >> 1;
    let c2 = c1 >> 1;
    let c3 = c2 >> 1;
    let c4 = c3 >> 1;
    let c5 = c4 >> 1;
    let c6 = c5 >> 1;
    let c7 = c6 >> 1;
    let c8 = c7 >> 1;
    assert(crc & 1 == 0 && c1 & 1 == 0 && c2 & 1 == 0 && c3 & 1 == 0 && c4 & 1 == 0 && c5 & 1 == 0
        && c6 & 1 == 0 && c7 & 1 == 0 && c8 == crc >> 8) by (bit_vector)
        requires
            crc & 0xff == 0,
            c1 == crc >> 1,
            c2 == c1 >> 1,
            c3 == c2 >> 1,
            c4 == c3 >> 1,
            c5 == c4 >> 1,
            c6 == c5 >> 1,
            c7 == c6 >> 1,
            c8 == c7 >> 1,
    ;
}

/// The checksum of a frame that carries its own checksum is zero.
pub proof fn law_sealed_frame_has_no_residue(frame: Seq<u8>)
    ensures
        crc16(sealed(frame)) == 0,
{
    let c = crc16(frame);
    let whole = sealed(frame);
    assert(whole.drop_last() =~= frame.push(low(c)));
    assert(whole.drop_last().drop_last() =~= frame);
    let lo: u16 = low(c) as u16;
    let hi: u16 = high(c) as u16;
    let mixed: u16 = c ^ lo;
    let moved: u16 = mixed >> 8;
    let left: u16 = moved ^ hi;
    assert(mixed & 0xff == 0 && left == 0) by (bit_vector)
        requires
            lo == c % 256u16,
            hi == c / 256u16,
            mixed == c ^ lo,
            moved == mixed >> 8,
            left == moved ^ hi,
    ;
    lemma_shift_clear_low(mixed);
    assert(0u16 & 0xffu16 == 0u16 && 0u16 >> 8u16 == 0u16) by (bit_vector);
    lemma_shift_clear_low(0);
    let half = whole.drop_last();
    assert(half.last() == low(c));
    assert(crc16(half) == crc_shifts(mixed, 8));
    assert(crc16(half) == moved);
    assert(whole.last() == high(c));
    assert(crc16(whole) == crc_shifts(left, 8));
}

/// The checksum starts as all ones, and each byte is mixed into its low half:
/// the high half moves down, and every bit of the mixed low half that is set
/// adds the remainder that its place leaves.
pub proof fn law_the_checksum_mixes_byte_by_byte(bytes: Seq<u8>, byte: u8)
    ensures
        crc16(Seq::<u8>::empty()) == 0xffff,
        ({
            let x: u16 = crc16(bytes) ^ (byte as u16);
            crc16(bytes.push(byte)) == (x >> 8) ^ (if x & 0x01 != 0 {
                0xc0c1u16
            } else {
                0
            }) ^ (if x & 0x02 != 0 {
                0xc181u16
            } else {
                0
            }) ^ (if x & 0x04 != 0 {
                0xc301u16
            } else {
                0
            }) ^ (if x & 0x08 != 0 {
                0xc601u16
            } else {
                0
            }) ^ (if x & 0x10 != 0 {
                0xcc01u16
            } else {
                0
            }) ^ (if x & 0x20 != 0 {
                0xd801u16
            } else {
                0
            }) ^ (if x & 0x40 != 0 {
                0xf001u16
            } else {
                0
            }) ^ (if x & 0x80 != 0 {
                0xa001u16
            } else {
                0
            })
        }),
{
    let x: u16 = crc16(bytes) ^ (byte as u16);
    assert(bytes.push(byte).drop_last() == bytes);
    assert(crc16(bytes.push(byte)) == crc_shifts(x, 8));
    reveal_with_fuel(crc_shifts, 9);
    let c1 = crc_shift(x);
    let c2 = crc_shift(c1);
    let c3 = crc_shift(c2);
    let c4 = crc_shift(c3);
    let c5 = crc_shift(c4);
    let c6 = crc_shift(c5);
    let c7 = crc_shift(c6);
    let c8 = crc_shift(c7);
    assert(c8 == (x >> 8) ^ (if x & 0x01 != 0 {
        0xc0c1u16
    } else {
        0
    }) ^ (if x & 0x02 != 0 {
        0xc181u16
    } else {
        0
    }) ^ (if x & 0x04 != 0 {
        0xc301u16
    } else {
        0
    }) ^ (if x & 0x08 != 0 {
        0xc601u16
    } else {
        0
    }) ^ (if x & 0x10 != 0 {
        0xcc01u16
    } else {
        0
    }) ^ (if x & 0x20 != 0 {
        0xd801u16
    } else {
        0
    }) ^ (if x & 0x40 != 0 {
        0xf001u16
    } else {
        0
    }) ^ (if x & 0x80 != 0 {
        0xa001u16
    } else {
        0
    })) by (bit_vector)
        requires
            c1 == (if x & 1 == 1 {
                (x >> 1) ^ 0xa001
            } else {
                x >> 1
            }),
            c2 == (if c1 & 1 == 1 {
                (c1 >> 1) ^ 0xa001
            } else {
                c1 >> 1
            }),
            c3 == (if c2 & 1 == 1 {
                (c2 >> 1) ^ 0xa001
            } else {
                c2 >> 1
            }),
            c4 == (if c3 & 1 == 1 {
                (c3 >> 1) ^ 0xa001
            } else {
                c3 >> 1
            }),
            c5 == (if c4 & 1 == 1 {
                (c4 >> 1) ^ 0xa001
            } else {
                c4 >> 1
            }),
            c6 == (if c5 & 1 == 1 {
                (c5 >> 1) ^ 0xa001
            } else {
                c5 >> 1
            }),
            c7 == (if c6 & 1 == 1 {
                (c6 >> 1) ^ 0xa001
            } else {
                c6 >> 1
            }),
            c8 == (if c7 & 1 == 1 {
                (c7 >> 1) ^ 0xa001
            } else {
                c7 >> 1
            }),
    ;
}

/// A sealed frame is the frame and then its checksum, low byte first.
pub proof fn law_a_frame_is_sealed_with_its_checksum(frame: Seq<u8>)
    ensures
        sealed(frame).len() == frame.len() + 2,
        sealed(frame).take(frame.len() as int) == frame,
        sealed(frame)[frame.len() as int] + 256 * sealed(frame)[frame.len() as int + 1] == crc16(frame),
{
    assert(sealed(frame).take(frame.len() as int) =~= frame);
}

} // verus!
