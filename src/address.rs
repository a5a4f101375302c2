use vstd::prelude::*;

verus! {

/// A 20-byte address of a deployed contract.
#[derive(Clone, Copy, Debug, PartialEq, Eq, Hash)]
pub struct Address {
    pub bytes: [u8; 20],
}

/// The lowercase ASCII hex digit of a value below 16.
pub open spec fn hex_digit(n: u8) -> u8 {
    if n < 10 {
        (48 + n) as u8
    } else {
        (87 + n) as u8
    }
}

/// Two lowercase hex digits per byte, most significant digit first.
pub open spec fn hex_of(s: Seq<u8>) -> Seq<u8>
    decreases s.len(),
{
    if s.len() == 0 {
        Seq::empty()
    } else {
        hex_of(s.drop_last()) + seq![hex_digit(s.last() / 16), hex_digit(s.last() % 16)]
    }
}

/// The text form of an address: `0x` followed by 40 lowercase hex digits.
pub open spec fn address_text(a: Address) -> Seq<u8> {
    seq![48u8, 120u8] + hex_of(a.bytes@)
}

fn digit(n: u8) -> (r: u8)
    requires
        n < 16,
    ensures
        r == hex_digit(n),
{
    if n < 10 {
        48 + n
    } else {
        87 + n
    }
}

impl Address {
    pub fn new(bytes: [u8; 20]) -> (r: Address)
        ensures
            r.bytes == bytes,
    {
        Address { bytes }
    }

    /// Appends the text form of the address to `out`.
    pub fn write_hex(&self, out: &mut Vec<u8>)
        ensures
            final(out)@ == old(out)@ + address_text(*self),
    {
        let ghost start = out@;
        out.push(48u8);
        out.push(120u8);
        let mut i: usize = 0;
        while i < 20
            invariant
                i <= 20,
                self.bytes@.len() == 20,
                out@ == start + seq![48u8, 120u8] + hex_of(self.bytes@.take(i as int)),
            decreases 20 - i,
        {
            let b = self.bytes[i];
            out.push(digit(b / 16));
            out.push(digit(b % 16));
            proof {
                assert(self.bytes@.take(i + 1).drop_last() =~= self.bytes@.take(i as int));
            }
            i = i + 1;
        }
        proof {
            assert(self.bytes@.take(20) =~= self.bytes@);
        }
    }
}

} // verus!
