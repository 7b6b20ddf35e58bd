use vstd::prelude::*;

verus! {

/// Bit `i` of the byte `b`, counting from the most significant bit (`i == 0`).
pub open spec fn msb_bit(b: u8, i: int) -> u8 {
    ((b >> ((7 - i) as u8)) & 1) as u8
}

/// Expands a byte into its eight bits, most significant bit first.
pub fn convert_to_bits(b: u8) -> (r: [u8; 8])
    ensures
        forall|i: int| 0 <= i < 8 ==> #[trigger] r@[i] == msb_bit(b, i),
{
    let mut r: [u8; 8] = [0; 8];
    let mut rest: u8 = b;
    let mut x: usize = 0;
    assert(b >> 0u8 == b) by (bit_vector);
    while x < 8
        invariant
            x <= 8,
            rest == b >> (x as u8),
            forall|i: int| 8 - x <= i < 8 ==> #[trigger] r@[i] == msb_bit(b, i),
        decreases 8 - x,
    {
        let bit = rest & 1;
        proof {
            let xs = x as u8;
            assert(((b >> xs) & 1) == ((b >> ((7 - (7 - xs)) as u8)) & 1)) by (bit_vector)
                requires xs < 8;
            assert((b >> xs) >> 1u8 == b >> ((xs + 1) as u8)) by (bit_vector)
                requires xs < 8;
        }
        r[7 - x] = bit;
        rest = rest >> 1;
        x = x + 1;
    }
    r
}

/// Splits a number into its hundreds, tens and units digits; a number of
/// more than three digits keeps its last three.
pub fn convert_to_bcd(d: u16) -> (r: [u8; 3])
    ensures
        r@[0] == (d / 100) % 10,
        r@[1] == (d / 10) % 10,
        r@[2] == d % 10,
{
    let hundreds = ((d / 100) % 10) as u8;
    let tens = ((d / 10) % 10) as u8;
    let units = (d % 10) as u8;
    [hundreds, tens, units]
}

} // verus!
