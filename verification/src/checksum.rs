//! Stateless CRC-16 engine (ARC/IBM variant, reflected polynomial 0xA001).
//!
//! The specification is the classical bit-serial definition: each input byte
//! is folded into the running remainder and the remainder is then shifted
//! eight times through [`crc16_step`].  The executable computation uses the
//! usual 256-entry lookup table, proved equal to eight bit steps per byte.

use vstd::prelude::*;

verus! {

/// One bit step of the reflected CRC-16 division: shift the remainder right
/// and fold in the polynomial when a one bit falls out.
pub open spec fn crc16_step(c: u16) -> u16 {
    if c & 1 == 1 {
        (c >> 1) ^ 0xA001
    } else {
        c >> 1
    }
}

/// `n` bit steps applied to `c`.
pub open spec fn crc16_steps(c: u16, n: nat) -> u16
    decreases n,
{
    if n == 0 {
        c
    } else {
        crc16_step(crc16_steps(c, (n - 1) as nat))
    }
}

/// The remainder after folding one more byte into a running CRC.
pub open spec fn crc16_update(crc: u16, b: u8) -> u16 {
    crc16_steps(crc ^ (b as u16), 8)
}

/// The CRC-16 of a byte sequence, starting from remainder zero.
pub open spec fn crc16(bytes: Seq<u8>) -> u16
    decreases bytes.len(),
{
    if bytes.len() == 0 {
        0u16
    } else {
        crc16_update(crc16(bytes.drop_last()), bytes.last())
    }
}

/// A bit step loses no information: the shifted-out bit decides the branch.
proof fn lemma_crc16_step_injective(a: u16, b: u16)
    requires
        crc16_step(a) == crc16_step(b),
    ensures
        a == b,
{
    assert(a == b) by (bit_vector)
        requires
            crc16_step(a) == crc16_step(b),
    ;
}

/// `n` bit steps lose no information.
proof fn lemma_crc16_steps_injective(a: u16, b: u16, n: nat)
    requires
        crc16_steps(a, n) == crc16_steps(b, n),
    ensures
        a == b,
    decreases n,
{
    if n > 0 {
        lemma_crc16_step_injective(crc16_steps(a, (n - 1) as nat), crc16_steps(b, (n - 1) as nat));
        lemma_crc16_steps_injective(a, b, (n - 1) as nat);
    }
}

/// Folding the same byte into different running CRCs keeps them different.
pub proof fn lemma_crc16_update_injective_crc(c1: u16, c2: u16, b: u8)
    requires
        crc16_update(c1, b) == crc16_update(c2, b),
    ensures
        c1 == c2,
{
    lemma_crc16_steps_injective(c1 ^ (b as u16), c2 ^ (b as u16), 8);
    assert(c1 == c2) by (bit_vector)
        requires
            c1 ^ (b as u16) == c2 ^ (b as u16),
    ;
}

/// Folding different bytes into the same running CRC gives different CRCs.
pub proof fn lemma_crc16_update_injective_byte(c: u16, b1: u8, b2: u8)
    requires
        crc16_update(c, b1) == crc16_update(c, b2),
    ensures
        b1 == b2,
{
    lemma_crc16_steps_injective(c ^ (b1 as u16), c ^ (b2 as u16), 8);
    assert(b1 == b2) by (bit_vector)
        requires
            c ^ (b1 as u16) == c ^ (b2 as u16),
    ;
}

/// Two equal-length windows that differ in exactly one byte have different
/// CRCs: the CRC-16 detects every single-byte corruption.
pub proof fn lemma_crc16_single_diff(s1: Seq<u8>, s2: Seq<u8>, j: int)
    requires
        s1.len() == s2.len(),
        0 <= j < s1.len(),
        s1[j] != s2[j],
        forall|k: int| 0 <= k < s1.len() && k != j ==> s1[k] == s2[k],
    ensures
        crc16(s1) != crc16(s2),
    decreases s1.len(),
{
    if j == s1.len() - 1 {
        assert(s1.drop_last() =~= s2.drop_last());
        if crc16(s1) == crc16(s2) {
            lemma_crc16_update_injective_byte(crc16(s1.drop_last()), s1.last(), s2.last());
        }
    } else {
        lemma_crc16_single_diff(s1.drop_last(), s2.drop_last(), j);
        if crc16(s1) == crc16(s2) {
            lemma_crc16_update_injective_crc(crc16(s1.drop_last()), crc16(s2.drop_last()), s1.last());
        }
    }
}

/// Folding a byte equals one table lookup on the low byte of the folded
/// remainder, XORed with the high byte shifted down: the table-driven form.
proof fn lemma_crc16_update_table(crc: u16, b: u8)
    ensures
        crc16_update(crc, b) == crc16_steps((((crc ^ (b as u16)) as u8) as u16), 8) ^ (crc >> 8),
{
    assert(crc16_steps(crc ^ (b as u16), 8) == crc16_steps((((crc ^ (b as u16)) as u8) as u16), 8)
        ^ (crc >> 8)) by (bit_vector);
}

/// Builds the 256-entry lookup table: entry `i` is the remainder of the
/// single byte `i` after its eight bit steps.
fn crc16_table() -> (t: Vec<u16>)
    ensures
        t@.len() == 256,
        forall|i: int| 0 <= i < 256 ==> t@[i] == crc16_steps(i as u16, 8),
{
    let mut t: Vec<u16> = Vec::new();
    let mut i: usize = 0;
    while i < 256
        invariant
            i <= 256,
            t@.len() == i,
            forall|k: int| 0 <= k < i ==> t@[k] == crc16_steps(k as u16, 8),
        decreases 256 - i,
    {
        let mut c: u16 = i as u16;
        let mut n: usize = 0;
        while n < 8
            invariant
                n <= 8,
                c == crc16_steps(i as u16, n as nat),
            decreases 8 - n,
        {
            if c & 1 == 1 {
                c = (c >> 1) ^ 0xA001;
            } else {
                c = c >> 1;
            }
            n = n + 1;
        }
        t.push(c);
        i = i + 1;
    }
    t
}

/// Computes the CRC-16 of a byte window with the table-driven loop.
pub fn crc16_compute(bytes: &[u8]) -> (crc: u16)
    ensures
        crc == crc16(bytes@),
{
    let tab = crc16_table();
    let mut crc: u16 = 0;
    let mut i: usize = 0;
    while i < bytes.len()
        invariant
            i <= bytes@.len(),
            crc == crc16(bytes@.take(i as int)),
            tab@.len() == 256,
            forall|k: int| 0 <= k < 256 ==> tab@[k] == crc16_steps(k as u16, 8),
        decreases bytes@.len() - i,
    {
        let ptr = bytes[i] as u16;
        let lut_index = (crc ^ ptr) as u8;
        let mut tmp_crc = tab[lut_index as usize];
        tmp_crc ^= crc >> 8;
        proof {
            lemma_crc16_update_table(crc, bytes@[i as int]);
            assert(bytes@.take(i + 1).drop_last() =~= bytes@.take(i as int));
            assert(bytes@.take(i + 1).last() == bytes@[i as int]);
        }
        crc = tmp_crc;
        i = i + 1;
    }
    proof {
        assert(bytes@.take(bytes@.len() as int) =~= bytes@);
    }
    crc
}

} // verus!
