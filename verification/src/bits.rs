use vstd::prelude::*;

verus! {

/// Bit `i` of `d`, counting from the most significant bit of the first byte.
pub open spec fn bit_at(d: Seq<u8>, i: int) -> int {
    ((d[i / 8] >> ((7 - i % 8) as u8)) & 1u8) as int
}

/// The unsigned number written in the `n` bits of `d` that start at bit `pos`,
/// most significant bit first.
pub open spec fn msb(d: Seq<u8>, pos: int, n: nat) -> int
    decreases n,
{
    if n == 0 {
        0
    } else {
        2 * msb(d, pos, (n - 1) as nat) + bit_at(d, pos + n - 1)
    }
}

/// `2` to the power `n`.
pub open spec fn two_pow(n: nat) -> int
    decreases n,
{
    if n == 0 {
        1
    } else {
        2 * two_pow((n - 1) as nat)
    }
}

/// Whether `n` bits starting at bit `pos` lie inside `d`.
pub open spec fn bits_fit(d: Seq<u8>, pos: int, n: int) -> bool {
    0 <= pos && 0 <= n && pos + n <= d.len() * 8
}

/// A number of `n` bits is below `2^n`.
pub proof fn lemma_msb_bound(d: Seq<u8>, pos: int, n: nat)
    ensures
        0 <= msb(d, pos, n) < two_pow(n),
    decreases n,
{
    if n > 0 {
        lemma_msb_bound(d, pos, (n - 1) as nat);
        let b = d[(pos + n - 1) / 8];
        let s = (7 - (pos + n - 1) % 8) as u8;
        assert((b >> s) & 1u8 <= 1) by (bit_vector);
    }
}

/// Powers of two grow with the exponent.
pub proof fn lemma_two_pow_mono(a: nat, b: nat)
    requires
        a <= b,
    ensures
        1 <= two_pow(a) <= two_pow(b),
    decreases b,
{
    if b > 0 {
        if a < b {
            lemma_two_pow_mono(a, (b - 1) as nat);
        } else {
            lemma_two_pow_mono((a - 1) as nat, (b - 1) as nat);
        }
    }
}

/// `2^32`.
pub proof fn lemma_two_pow_32()
    ensures
        two_pow(32) == 0x1_0000_0000,
{
    reveal_with_fuel(two_pow, 33);
}

/// Reading `n + m` bits is reading `n` bits, then `m` more.
pub proof fn lemma_msb_split(d: Seq<u8>, pos: int, n: nat, m: nat)
    ensures
        msb(d, pos, n + m) == msb(d, pos, n) * two_pow(m) + msb(d, pos + n, m),
    decreases m,
{
    if m > 0 {
        lemma_msb_split(d, pos, n, (m - 1) as nat);
        assert(msb(d, pos, n) * two_pow(m) == 2 * (msb(d, pos, n) * two_pow((m - 1) as nat))) by (nonlinear_arith)
            requires
                two_pow(m) == 2 * two_pow((m - 1) as nat),
        ;
    }
}

/// Whether `bit + count` more bits fit in the `avail` bytes from the current byte on,
/// computed without overflow.
proof fn lemma_fit_arith(byte: int, off: int, count: int, len: int)
    requires
        0 <= byte <= len,
        0 <= off < 8,
        byte == len ==> off == 0,
        0 <= count,
    ensures
        (byte * 8 + off + count <= len * 8) <==> (count / 8 + (off + count % 8 + 7) / 8 <= len - byte),
{
    let q = count / 8;
    let r = count % 8;
    assert(count == 8 * q + r && 0 <= r < 8) by (nonlinear_arith)
        requires
            q == count / 8,
            r == count % 8,
            0 <= count,
    ;
    let k = len - byte - q;
    assert((off + r <= 8 * k) <==> ((off + r + 7) / 8 <= k)) by (nonlinear_arith)
        requires
            0 <= off + r <= 14,
    ;
}

/// Whether the bits of `d` from `pos` on are zeros, a one (the stop bit), then zeros
/// only; `seen` tells whether the stop bit came before `pos`.
pub open spec fn stop_bit_then_zeros(d: Seq<u8>, pos: int, seen: bool) -> bool
    decreases d.len() * 8 - pos,
{
    if pos < 0 || pos >= d.len() * 8 {
        true
    } else if seen {
        msb(d, pos, 1) == 0 && stop_bit_then_zeros(d, pos + 1, true)
    } else {
        stop_bit_then_zeros(d, pos + 1, msb(d, pos, 1) == 1)
    }
}

/// A reader of a byte string bit by bit, most significant bit first.
pub struct BitReader<'a> {
    bytes: &'a [u8],
    byte: usize,
    off: usize,
}

impl<'a> View for BitReader<'a> {
    type V = (Seq<u8>, int);

    closed spec fn view(&self) -> (Seq<u8>, int) {
        (self.bytes@, self.byte * 8 + self.off)
    }
}

impl<'a> BitReader<'a> {
    #[verifier::type_invariant]
    closed spec fn inv(self) -> bool {
        &&& self.off < 8
        &&& self.byte <= self.bytes@.len()
        &&& self.byte == self.bytes@.len() ==> self.off == 0
    }

    /// A reader at the first bit of `bytes`.
    pub fn new(bytes: &'a [u8]) -> (r: Self)
        ensures
            r@ == (bytes@, 0int),
            0 <= r@.1 <= r@.0.len() * 8,
    {
        BitReader { bytes, byte: 0, off: 0 }
    }

    /// A reader at bit `bit_pos` of `bytes`.
    pub fn at(bytes: &'a [u8], bit_pos: usize) -> (r: Self)
        requires
            bit_pos <= bytes@.len() * 8,
        ensures
            r@ == (bytes@, bit_pos as int),
            0 <= r@.1 <= r@.0.len() * 8,
    {
        let byte = bit_pos / 8;
        let off = bit_pos % 8;
        BitReader { bytes, byte, off }
    }

    /// The length of the data in bytes.
    pub fn byte_len(&self) -> (n: usize)
        ensures
            n == self@.0.len(),
    {
        self.bytes.len()
    }

    /// Whether `count` more bits lie inside the data.
    pub fn fits(&self, count: usize) -> (r: bool)
        ensures
            r == bits_fit(self@.0, self@.1, count as int),
            0 <= self@.1 <= self@.0.len() * 8,
            self@.0.len() <= usize::MAX,
    {
        proof {
            use_type_invariant(self);
            lemma_fit_arith(self.byte as int, self.off as int, count as int, self.bytes@.len() as int);
        }
        count / 8 + (self.off + count % 8 + 7) / 8 <= self.bytes.len() - self.byte
    }

    /// Moves on by `count` bits when they lie inside the data; leaves the reader as it
    /// is and gives `None` when they do not.
    pub fn skip(&mut self, count: usize) -> (r: Option<()>)
        ensures
            r is Some <==> bits_fit(old(self)@.0, old(self)@.1, count as int),
            r is Some ==> final(self)@ == (old(self)@.0, old(self)@.1 + count),
            r is None ==> final(self)@ == old(self)@,
            0 <= final(self)@.1 <= final(self)@.0.len() * 8,
    {
        if !self.fits(count) {
            return None;
        }
        proof {
            use_type_invariant(&*self);
        }
        let total = self.off + count % 8;
        let ghost gb: int = self.byte + count / 8 + total / 8;
        let no = total % 8;
        assert(gb * 8 + no == self.byte * 8 + self.off + count) by (nonlinear_arith)
            requires
                total == self.off + count % 8,
                gb == self.byte + count / 8 + total / 8,
                no == total % 8,
        ;
        assert(gb <= self.bytes@.len() && (gb == self.bytes@.len() ==> no == 0)) by (nonlinear_arith)
            requires
                gb * 8 + no <= self.bytes@.len() * 8,
                0 <= no < 8,
        ;
        let len = self.bytes.len();
        assert(gb <= len);
        let nb = self.byte + count / 8 + total / 8;
        *self = BitReader { bytes: self.bytes, byte: nb, off: no };
        Some(())
    }

    /// The next bit.
    fn next_bit(&mut self) -> (b: u32)
        requires
            bits_fit(old(self)@.0, old(self)@.1, 1),
        ensures
            b == bit_at(old(self)@.0, old(self)@.1),
            b <= 1,
            final(self)@ == (old(self)@.0, old(self)@.1 + 1),
    {
        proof {
            use_type_invariant(&*self);
        }
        let i: Ghost<int> = Ghost(self.byte * 8 + self.off);
        assert(i@ / 8 == self.byte && i@ % 8 == self.off) by (nonlinear_arith)
            requires
                i@ == self.byte * 8 + self.off,
                0 <= self.off < 8,
        ;
        let v = self.bytes[self.byte];
        let s = (7 - self.off) as u8;
        let bit = (v >> s) & 1;
        assert((v >> s) & 1u8 <= 1) by (bit_vector);
        if self.off == 7 {
            *self = BitReader { bytes: self.bytes, byte: self.byte + 1, off: 0 };
        } else {
            *self = BitReader { bytes: self.bytes, byte: self.byte, off: self.off + 1 };
        }
        bit as u32
    }

    /// The next `count` bits as a number, most significant bit first, when they lie
    /// inside the data; `None`, with the reader left as it is, when they do not.
    /// A read of more than 32 bits gives `None` too.
    pub fn read(&mut self, count: usize) -> (r: Option<u32>)
        ensures
            r is Some <==> count <= 32 && bits_fit(old(self)@.0, old(self)@.1, count as int),
            r is Some ==> r->0 == msb(old(self)@.0, old(self)@.1, count as nat)
                && final(self)@ == (old(self)@.0, old(self)@.1 + count),
            r is None ==> final(self)@ == old(self)@,
            0 <= final(self)@.1 <= final(self)@.0.len() * 8,
    {
        if !self.fits(count) || count > 32 {
            return None;
        }
        let ghost start = self@;
        let mut value: u32 = 0;
        let mut i: usize = 0;
        while i < count
            invariant
                i <= count <= 32,
                bits_fit(start.0, start.1, count as int),
                self@ == (start.0, start.1 + i),
                value == msb(start.0, start.1, i as nat),
            decreases count - i,
        {
            proof {
                lemma_msb_bound(start.0, start.1, (i + 1) as nat);
                lemma_two_pow_mono((i + 1) as nat, 32);
                lemma_two_pow_32();
            }
            let b = self.next_bit();
            value = value * 2 + b;
            i = i + 1;
        }
        Some(value)
    }

    /// The bit position.
    pub fn position(&self) -> (p: u128)
        ensures
            p == self@.1,
    {
        proof {
            use_type_invariant(self);
        }
        (self.byte as u128) * 8 + self.off as u128
    }

    /// Moves to bit `bit_pos` when it lies inside the data, or at its end; leaves the
    /// reader as it is and gives `None` when it does not.
    pub fn seek(&mut self, bit_pos: u128) -> (r: Option<()>)
        ensures
            r is Some <==> bit_pos <= old(self)@.0.len() * 8,
            r is Some ==> final(self)@ == (old(self)@.0, bit_pos as int),
            r is None ==> final(self)@ == old(self)@,
            0 <= final(self)@.1 <= final(self)@.0.len() * 8,
    {
        proof {
            use_type_invariant(&*self);
        }
        let len = self.bytes.len();
        if bit_pos / 8 > len as u128 || (bit_pos / 8 == len as u128 && bit_pos % 8 != 0) {
            return None;
        }
        let byte = (bit_pos / 8) as usize;
        let off = (bit_pos % 8) as usize;
        *self = BitReader { bytes: self.bytes, byte, off };
        Some(())
    }

    /// Whether the bits left hold nothing but trailing bits: at most one one bit, with
    /// zeros after it.
    pub fn rest_is_stop_bit_then_zeros(&self) -> (r: bool)
        ensures
            r == stop_bit_then_zeros(self@.0, self@.1, false),
    {
        proof {
            use_type_invariant(self);
        }
        let mut probe = BitReader { bytes: self.bytes, byte: self.byte, off: self.off };
        let mut seen = false;
        loop
            invariant
                probe@.0 == self@.0,
                0 <= probe@.1 <= probe@.0.len() * 8,
                stop_bit_then_zeros(self@.0, self@.1, false) == stop_bit_then_zeros(probe@.0, probe@.1, seen),
            decreases probe@.0.len() * 8 - probe@.1,
        {
            if !probe.fits(1) {
                return true;
            }
            let ghost p = probe@.1;
            let bit = probe.next_bit();
            proof {
                reveal_with_fuel(msb, 2);
            }
            assert(msb(probe@.0, p, 1) == bit_at(probe@.0, p));
            if seen {
                if bit != 0 {
                    return false;
                }
            } else if bit == 1 {
                seen = true;
            }
        }
    }

    /// Moves on to the next byte boundary, unless the reader is on one.
    pub fn align_to_byte(&mut self)
        ensures
            final(self)@.0 == old(self)@.0,
            final(self)@.1 == (if old(self)@.1 % 8 == 0 { old(self)@.1 } else { old(self)@.1 + 8 - old(self)@.1 % 8 }),
            0 <= final(self)@.1 <= final(self)@.0.len() * 8,
    {
        proof {
            use_type_invariant(&*self);
            assert((self.byte * 8 + self.off) % 8 == self.off) by (nonlinear_arith)
                requires
                    0 <= self.off < 8,
            ;
        }
        let len = self.bytes.len();
        if self.off != 0 {
            *self = BitReader { bytes: self.bytes, byte: self.byte + 1, off: 0 };
        }
    }
}

} // verus!
