use vstd::arithmetic::power2::{pow2, lemma2_to64};
use vstd::prelude::*;

verus! {

/// The game modes: how many bits the displayed number has, and by how much
/// its value is scaled.
#[derive(Clone, Copy, PartialEq, Eq, Debug, Structural)]
pub enum Bits {
    Four,
    FourTwosComplement,
    FourShift4,
    FourShift8,
    FourShift12,
    Eight,
    Twelve,
    Sixteen,
}

impl Bits {
    /// Number of bits shown for this mode.
    pub open spec fn spec_width(self) -> nat {
        match self {
            Bits::Eight => 8,
            Bits::Twelve => 12,
            Bits::Sixteen => 16,
            _ => 4,
        }
    }

    /// Factor by which a raw bit pattern is multiplied to give its value.
    pub open spec fn spec_scale(self) -> nat {
        match self {
            Bits::FourShift4 => 16,
            Bits::FourShift8 => 256,
            Bits::FourShift12 => 4096,
            _ => 1,
        }
    }

    /// Key under which the high score of this mode is stored.
    pub open spec fn spec_key(self) -> nat {
        match self {
            Bits::Four => 4,
            Bits::FourTwosComplement => 42,
            Bits::FourShift4 => 44,
            Bits::FourShift8 => 48,
            Bits::FourShift12 => 412,
            Bits::Eight => 8,
            Bits::Twelve => 12,
            Bits::Sixteen => 16,
        }
    }

    /// Number of answers offered per puzzle.
    pub open spec fn spec_suggestions(self) -> nat {
        match self {
            Bits::Eight => 4,
            Bits::Twelve => 5,
            Bits::Sixteen => 6,
            _ => 3,
        }
    }

    /// Largest value a puzzle of this mode can ask for.
    pub open spec fn spec_upper_bound(self) -> int {
        (pow2(self.spec_width()) - 1) * self.spec_scale()
    }

    /// The number a raw pattern stands for: in two's-complement mode 16
    /// less from 8 up; the pattern taken as an `i32` (as `as` does) in
    /// every case.
    pub open spec fn spec_signed(self, raw: u32) -> int {
        if self == Bits::FourTwosComplement && raw >= 8 {
            (#[verifier::truncate] (raw as i32)) - 16
        } else {
            (#[verifier::truncate] (raw as i32)) as int
        }
    }

    pub open spec fn spec_label(self) -> Seq<char> {
        match self {
            Bits::Four => "4 bits"@,
            Bits::FourTwosComplement => "4 bits (Two's complement)"@,
            Bits::FourShift4 => "4 bits*16"@,
            Bits::FourShift8 => "4 bits*256"@,
            Bits::FourShift12 => "4 bits*4096"@,
            Bits::Eight => "8 bits"@,
            Bits::Twelve => "12 bits"@,
            Bits::Sixteen => "16 bits"@,
        }
    }

    pub fn to_int(&self) -> (r: u32)
        ensures
            r == self.spec_width(),
    {
        match self {
            Bits::Four | Bits::FourShift4 | Bits::FourShift8 | Bits::FourShift12
            | Bits::FourTwosComplement => 4,
            Bits::Eight => 8,
            Bits::Twelve => 12,
            Bits::Sixteen => 16,
        }
    }

    pub fn scale_factor(&self) -> (r: u32)
        ensures
            r == self.spec_scale(),
    {
        match self {
            Bits::Four => 1,
            Bits::FourTwosComplement => 1,
            Bits::FourShift4 => 16,
            Bits::FourShift8 => 256,
            Bits::FourShift12 => 4096,
            Bits::Eight => 1,
            Bits::Twelve => 1,
            Bits::Sixteen => 1,
        }
    }

    pub fn high_score_key(&self) -> (r: u32)
        ensures
            r == self.spec_key(),
    {
        match self {
            Bits::Four => 4,
            Bits::FourTwosComplement => 42,
            Bits::FourShift4 => 44,
            Bits::FourShift8 => 48,
            Bits::FourShift12 => 412,
            Bits::Eight => 8,
            Bits::Twelve => 12,
            Bits::Sixteen => 16,
        }
    }

    pub fn upper_bound(&self) -> (r: u32)
        ensures
            r == self.spec_upper_bound(),
    {
        let values: u32 = two_pow(self.to_int());
        proof {
            lemma2_to64();
        }
        (values - 1) * self.scale_factor()
    }

    pub fn suggestion_count(&self) -> (r: usize)
        ensures
            r == self.spec_suggestions(),
    {
        match self {
            Bits::Four | Bits::FourShift4 | Bits::FourShift8 | Bits::FourShift12
            | Bits::FourTwosComplement => 3,
            Bits::Eight => 4,
            Bits::Twelve => 5,
            Bits::Sixteen => 6,
        }
    }

    pub fn label(&self) -> (r: &'static str)
        ensures
            r@ == self.spec_label(),
    {
        match self {
            Bits::Four => "4 bits",
            Bits::FourTwosComplement => "4 bits (Two's complement)",
            Bits::FourShift4 => "4 bits*16",
            Bits::FourShift8 => "4 bits*256",
            Bits::FourShift12 => "4 bits*4096",
            Bits::Eight => "8 bits",
            Bits::Twelve => "12 bits",
            Bits::Sixteen => "16 bits",
        }
    }

    /// Reads a raw bit pattern as the number the player has to name: in
    /// two's-complement mode patterns from 8 up stand for negative numbers,
    /// in every other mode the pattern is its own (unsigned) value, taken
    /// as an `i32` the way `as` does.
    pub fn raw_to_signed(&self, raw: u32) -> (r: i32)
        requires
            !(*self == Bits::FourTwosComplement && 0x8000_0000 <= raw < 0x8000_0010),
        ensures
            r == self.spec_signed(raw),
            raw < 16 ==> r == if *self == Bits::FourTwosComplement && raw >= 8 {
                raw - 16
            } else {
                raw as int
            },
    {
        match self {
            Bits::FourTwosComplement => {
                if raw >= 8 {
                    assert(!(0x8000_0000u32 <= raw && raw < 0x8000_0010u32) ==> (#[verifier::truncate] (raw as i32)) >= -2147483632i32) by (bit_vector);
                    (#[verifier::truncate] (raw as i32)) - 16
                } else {
                    raw as i32
                }
            },
            _ => #[verifier::truncate] (raw as i32),
        }
    }

    pub fn is_twos_complement(&self) -> (r: bool)
        ensures
            r == (*self == Bits::FourTwosComplement),
    {
        match self {
            Bits::FourTwosComplement => true,
            _ => false,
        }
    }
}

/// `2^k`, for every `k` where it fits in a `u32`.
pub fn two_pow(k: u32) -> (r: u32)
    requires
        k < 32,
    ensures
        r == pow2(k as nat),
{
    let mut r: u32 = 1;
    let mut i: u32 = 0;
    proof {
        lemma2_to64();
    }
    while i < k
        invariant
            i <= k < 32,
            r == pow2(i as nat),
            pow2(31) == 0x8000_0000,
        decreases k - i,
    {
        proof {
            vstd::arithmetic::power2::lemma_pow2_unfold((i + 1) as nat);
            if i + 1 < 31 {
                vstd::arithmetic::power2::lemma_pow2_strictly_increases((i + 1) as nat, 31);
            }
        }
        r = r * 2;
        i = i + 1;
    }
    r
}

/// In two's-complement mode the sixteen patterns stand for the numbers
/// from -8 to 7, each for a different one.
pub proof fn lemma_twos_complement_values(a: u32, b: u32)
    requires
        a < 16,
        b < 16,
    ensures
        -8 <= Bits::FourTwosComplement.spec_signed(a) <= 7,
        a != b ==> Bits::FourTwosComplement.spec_signed(a) != Bits::FourTwosComplement.spec_signed(b),
{
    assert((#[verifier::truncate] (a as i32)) == a) by (bit_vector)
        requires
            a < 16,
    ;
    assert((#[verifier::truncate] (b as i32)) == b) by (bit_vector)
        requires
            b < 16,
    ;
}

/// Every mode keeps its high score under a key of its own.
pub proof fn lemma_keys_distinct(a: Bits, b: Bits)
    requires
        a != b,
    ensures
        a.spec_key() != b.spec_key(),
{
}

} // verus!
