//! CRC-16/CCITT-FALSE: polynomial 0x1021, initial value 0xFFFF, no
//! reflection, no final XOR.

use vstd::prelude::*;

verus! {

/// One shift of the CRC register.
pub open spec fn crc_shift(crc: u16) -> u16 {
    if crc & 0x8000 != 0 {
        ((crc << 1u16) ^ 0x1021u16) as u16
    } else {
        (crc << 1u16) as u16
    }
}

/// `n` consecutive shifts of the CRC register.
pub open spec fn crc_shifts(crc: u16, n: nat) -> u16
    decreases n,
{
    if n == 0 {
        crc
    } else {
        crc_shift(crc_shifts(crc, (n - 1) as nat))
    }
}

/// The register after feeding one byte.
pub open spec fn crc_feed(crc: u16, byte: u8) -> u16 {
    crc_shifts(crc ^ ((byte as u16) << 8u16), 8)
}

/// CRC-16/CCITT-FALSE of a byte sequence.
pub open spec fn spec_crc16(data: Seq<u8>) -> u16
    decreases data.len(),
{
    if data.len() == 0 {
        0xFFFF
    } else {
        crc_feed(spec_crc16(data.drop_last()), data.last())
    }
}

/// CRC-16/CCITT-FALSE over `data`.
pub fn crc16(data: &[u8]) -> (crc: u16)
    ensures
        crc == spec_crc16(data@),
{
    let mut crc: u16 = 0xFFFF;
    let mut i: usize = 0;
    while i < data.len()
        invariant
            i <= data.len(),
            crc == spec_crc16(data@.take(i as int)),
        decreases data.len() - i,
    {
        let byte = data[i];
        let start: u16 = crc ^ ((byte as u16) << 8u16);
        crc = start;
        let mut bit: u32 = 0;
        while bit < 8
            invariant
                bit <= 8,
                crc == crc_shifts(start, bit as nat),
            decreases 8 - bit,
        {
            crc = if crc & 0x8000 != 0 {
                (crc << 1u16) ^ 0x1021u16
            } else {
                crc << 1u16
            };
            bit = bit + 1;
        }
        proof {
            assert(data@.take(i + 1).drop_last() =~= data@.take(i as int));
            assert(data@.take(i + 1).last() == byte);
        }
        i = i + 1;
    }
    proof {
        assert(data@.take(data@.len() as int) =~= data@);
    }
    crc
}

} // verus!
