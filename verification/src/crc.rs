//! CRC-CCITT engine: polynomial 0x1021, seed 0xFFFF, no reflection, no
//! final XOR, as used by IEEE C37.118.2 frames.

use vstd::prelude::*;

verus! {

/// One shift step of the CRC register: shift left, and fold the
/// polynomial 0x1021 back in when the high bit falls out.
pub open spec fn crc_step(c: u16) -> u16 {
    if (c & 0x8000) != 0 {
        (c << 1) ^ 0x1021
    } else {
        c << 1
    }
}

/// `n` shift steps applied to the CRC register.
pub open spec fn crc_steps(c: u16, n: nat) -> u16
    decreases n,
{
    if n == 0 {
        c
    } else {
        crc_steps(crc_step(c), (n - 1) as nat)
    }
}

/// Absorb one input byte: XOR it into the high byte of the register,
/// then run eight shift steps.
pub open spec fn crc_absorb(c: u16, b: u8) -> u16 {
    crc_steps(c ^ ((b as u16) << 8), 8)
}

/// Absorb a whole byte sequence, front to back.
pub open spec fn crc_fold(c: u16, s: Seq<u8>) -> u16
    decreases s.len(),
{
    if s.len() == 0 {
        c
    } else {
        crc_fold(crc_absorb(c, s[0]), s.drop_first())
    }
}

/// The CRC-CCITT remainder of a byte sequence, starting from 0xFFFF.
pub open spec fn crc16(s: Seq<u8>) -> u16 {
    crc_fold(0xFFFF, s)
}

/// Absorbing a byte after a sequence is the same as absorbing it into
/// the folded register: the fold runs front to back.
proof fn lemma_crc_fold_push(c: u16, s: Seq<u8>, b: u8)
    ensures
        crc_fold(c, s.push(b)) == crc_absorb(crc_fold(c, s), b),
    decreases s.len(),
{
    if s.len() == 0 {
        assert(s.push(b)[0] == b);
        assert(s.push(b).drop_first() =~= Seq::<u8>::empty());
        assert(crc_fold(c, s.push(b)) == crc_fold(crc_absorb(c, b), Seq::<u8>::empty()));
    } else {
        assert(s.push(b)[0] == s[0]);
        assert(s.push(b).drop_first() =~= s.drop_first().push(b));
        lemma_crc_fold_push(crc_absorb(c, s[0]), s.drop_first(), b);
        assert(crc_fold(c, s.push(b)) == crc_fold(crc_absorb(c, s[0]), s.drop_first().push(b)));
        assert(crc_fold(c, s) == crc_fold(crc_absorb(c, s[0]), s.drop_first()));
    }
}

/// CRC-CCITT over a byte slice, per IEEE C37.118.2-2011 Annex B:
/// seed 0xFFFF, polynomial 0x1021, no reflection, no final XOR.
pub fn calculate_crc(buffer: &[u8]) -> (crc: u16)
    ensures
        crc == crc16(buffer@),
{
    let mut crc: u16 = 0xFFFF;
    let mut i: usize = 0;
    while i < buffer.len()
        invariant
            i <= buffer@.len(),
            crc == crc_fold(0xFFFF, buffer@.take(i as int)),
        decreases buffer@.len() - i,
    {
        let byte = buffer[i];
        let ghost pre = crc;
        crc = crc ^ ((byte as u16) << 8);
        let ghost absorbed = crc;
        let mut j: usize = 0;
        while j < 8
            invariant
                j <= 8,
                crc_steps(crc, (8 - j) as nat) == crc_steps(absorbed, 8),
            decreases 8 - j,
        {
            if (crc & 0x8000) != 0 {
                crc = (crc << 1) ^ 0x1021;
            } else {
                crc = crc << 1;
            }
            j = j + 1;
        }
        proof {
            assert(crc == crc_absorb(pre, byte));
            lemma_crc_fold_push(0xFFFF, buffer@.take(i as int), byte);
            assert(buffer@.take(i as int).push(byte) =~= buffer@.take(i + 1));
        }
        i = i + 1;
    }
    proof {
        assert(buffer@.take(buffer@.len() as int) =~= buffer@);
    }
    crc
}

} // verus!
