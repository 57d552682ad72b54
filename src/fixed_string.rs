use vstd::prelude::*;
use vstd::string::StringSliceAdditionalSpecFns;

verus! {

/// ASCII code of the decimal digit `d`.
pub open spec fn digit(d: nat) -> u8 {
    (48 + d) as u8
}

/// Decimal digits of `n`, most significant first, without leading zeros.
pub open spec fn decimal(n: nat) -> Seq<u8>
    decreases n,
{
    if n < 10 {
        seq![digit(n)]
    } else {
        decimal(n / 10).push(digit(n % 10))
    }
}

/// `k` ASCII spaces.
pub open spec fn spaces(k: nat) -> Seq<u8> {
    Seq::new(k, |i: int| 32u8)
}

/// `n` in decimal, right-justified with spaces to at least `width` bytes.
pub open spec fn padded(n: nat, width: nat) -> Seq<u8> {
    let d = decimal(n);
    if d.len() >= width {
        d
    } else {
        spaces((width - d.len()) as nat) + d
    }
}

/// A text of at most `N` bytes, built by appending without heap allocation.
///
/// Appending past the capacity is a contract violation: every append
/// requires the room it needs, so nothing is ever cut short.
pub struct FixedString<const N: usize> {
    data: [u8; N],
    len: usize,
}

impl<const N: usize> View for FixedString<N> {
    type V = Seq<u8>;

    closed spec fn view(&self) -> Seq<u8> {
        self.data@.take(self.len as int)
    }
}

impl<const N: usize> FixedString<N> {
    #[verifier::type_invariant]
    closed spec fn inv(self) -> bool {
        self.len <= N
    }

    pub fn new() -> (r: Self)
        ensures
            r@ == Seq::<u8>::empty(),
    {
        FixedString { data: [0u8; N], len: 0 }
    }

    /// The bytes written so far.
    pub fn as_bytes(&self) -> (r: &[u8])
        ensures
            r@ == self@,
    {
        proof {
            use_type_invariant(self);
        }
        &self.data.as_slice()[0..self.len]
    }

    fn push_byte(&mut self, b: u8)
        requires
            old(self)@.len() < N,
        ensures
            final(self)@ == old(self)@.push(b),
    {
        proof {
            use_type_invariant(&*self);
        }
        let ghost before = self@;
        self.data[self.len] = b;
        self.len = self.len + 1;
        assert(self@ =~= before.push(b));
    }

    /// Appends the bytes of `s`; the room for them must be there.
    pub fn push_str_unchecked(&mut self, s: &str)
        requires
            old(self)@.len() + s.spec_bytes().len() <= N,
        ensures
            final(self)@ == old(self)@ + s.spec_bytes(),
    {
        let bytes = s.as_bytes();
        let ghost start = self@;
        let mut i: usize = 0;
        while i < bytes.len()
            invariant
                i <= bytes@.len(),
                bytes@ == s.spec_bytes(),
                start.len() + bytes@.len() <= N,
                self@ == start + bytes@.take(i as int),
            decreases bytes@.len() - i,
        {
            self.push_byte(bytes[i]);
            assert(bytes@.take(i + 1) == bytes@.take(i as int).push(bytes@[i as int]));
            i = i + 1;
        }
        assert(bytes@.take(bytes@.len() as int) == bytes@);
    }

    /// Appends a text fragment given as a literal.
    pub fn write_lit(&mut self, lit: &str)
        requires
            old(self)@.len() + lit.spec_bytes().len() <= N,
        ensures
            final(self)@ == old(self)@ + lit.spec_bytes(),
    {
        self.push_str_unchecked(lit);
    }

    fn push_decimal(&mut self, n: u32)
        requires
            old(self)@.len() + decimal(n as nat).len() <= N,
        ensures
            final(self)@ == old(self)@ + decimal(n as nat),
        decreases n,
    {
        let ghost start = self@;
        if n >= 10 {
            self.push_decimal(n / 10);
        }
        self.push_byte(48 + (n % 10) as u8);
        assert(self@ =~= start + decimal(n as nat));
    }

    /// Appends `value` in decimal, right-justified with spaces to at least
    /// `width` bytes.
    pub fn write_fmt(&mut self, value: u32, width: usize)
        requires
            old(self)@.len() + padded(value as nat, width as nat).len() <= N,
        ensures
            final(self)@ == old(self)@ + padded(value as nat, width as nat),
    {
        let ghost start = self@;
        let d = decimal_len(value);
        if d < width {
            let mut k: usize = 0;
            while k < width - d
                invariant
                    d < width,
                    k <= width - d,
                    start.len() + padded(value as nat, width as nat).len() <= N,
                    self@ == start + spaces(k as nat),
                decreases width - d - k,
            {
                self.push_byte(32);
                assert(spaces((k + 1) as nat) =~= spaces(k as nat).push(32u8));
                k = k + 1;
            }
        }
        self.push_decimal(value);
        assert(self@ =~= start + padded(value as nat, width as nat));
    }
}

/// Number of decimal digits of `n`.
fn decimal_len(n: u32) -> (r: usize)
    ensures
        r == decimal(n as nat).len(),
        r <= n + 1,
    decreases n,
{
    if n < 10 {
        1
    } else {
        decimal_len(n / 10) + 1
    }
}

} // verus!
