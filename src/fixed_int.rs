use vstd::arithmetic::div_mod::lemma_fundamental_div_mod_converse;
use vstd::arithmetic::power2::{lemma2_to64, lemma_pow2_adds, lemma_pow2_pos, pow2};
use vstd::bits::lemma_u64_shl_is_mul;
use vstd::prelude::*;
use vstd::std_specs::ops::{AddSpec, ShlSpec, ShrSpec};

verus! {

/// Number of fractional bits of `FixedInt10`.
pub const EXPONENT: i32 = 10;

/// The scale factor `2^EXPONENT`: the raw value of the fixed-point number one.
pub const MULTIPLIER: i32 = 1024;

/// Two's complement truncation of a mathematical integer to 32 bits.
pub open spec fn wrap_i32(x: int) -> i32 {
    if x % 0x1_0000_0000 > i32::MAX as int {
        (x % 0x1_0000_0000 - 0x1_0000_0000) as i32
    } else {
        (x % 0x1_0000_0000) as i32
    }
}

/// Truncation to 32 bits keeps values that fit, and ignores multiples of 2^32.
pub proof fn lemma_wrap_i32(x: int)
    ensures
        i32::MIN <= x <= i32::MAX ==> wrap_i32(x) == x,
        wrap_i32(x) == wrap_i32(x + 0x1_0000_0000),
        wrap_i32(x) == wrap_i32(x - 0x1_0000_0000),
{
    vstd::arithmetic::div_mod::lemma_mod_multiples_vanish(1, x, 0x1_0000_0000);
    vstd::arithmetic::div_mod::lemma_mod_multiples_vanish(-1, x, 0x1_0000_0000);
    if 0 <= x <= i32::MAX {
        vstd::arithmetic::div_mod::lemma_small_mod(x as nat, 0x1_0000_0000);
    }
    if i32::MIN <= x < 0 {
        vstd::arithmetic::div_mod::lemma_small_mod((x + 0x1_0000_0000) as nat, 0x1_0000_0000);
    }
}

/// Floor division of an integer by `2^k`.
pub open spec fn shr_floor(v: int, k: nat) -> int {
    v / (pow2(k) as int)
}

/// Division rounded toward zero, as Rust's `/` computes it on integers.
pub open spec fn trunc_div(a: int, b: int) -> int {
    if a >= 0 {
        if b > 0 { a / b } else { -(a / -b) }
    } else {
        if b > 0 { -((-a) / b) } else { (-a) / (-b) }
    }
}

/// A signed number with ten fractional bits. `value` holds the number times
/// 1024. Arithmetic wraps around on overflow of the backing integer.
#[derive(Copy, Clone, Debug, Default, PartialEq, Eq, PartialOrd, Ord, Structural)]
pub struct FixedInt10 {
    pub value: i32,
}

/// Arithmetic right shift of `v` by `k` bits: `v` divided by `2^k`, rounded down.
pub fn shift_right_floor(v: i32, k: u32) -> (r: i32)
    requires
        k < 32,
    ensures
        r as int == shr_floor(v as int, k as nat),
{
    proof {
        lemma2_to64();
        lemma_pow2_pos(k as nat);
        lemma_pow2_adds(k as nat, (31 - k) as nat);
        vstd::arithmetic::power2::lemma_pow2_strictly_increases(k as nat, 32);
        lemma_u64_shl_is_mul(1u64, k as u64);
    }
    let p: u64 = 1u64 << (k as u64);
    assert(p as int == pow2(k as nat));
    let shifted: u64 = ((v as i64) + 0x8000_0000i64) as u64;
    let q: u64 = shifted / p;
    let off: u64 = 0x8000_0000u64 / p;
    proof {
        let pk = pow2(k as nat) as int;
        let po = pow2((31 - k) as nat) as int;
        assert(pk * po == 0x8000_0000);
        assert(po * pk == 0x8000_0000) by (nonlinear_arith)
            requires
                pk * po == 0x8000_0000,
        ;
        lemma_fundamental_div_mod_converse(0x8000_0000, pk, po, 0);
        assert(off as int == po);
        let rem = shifted as int % pk;
        vstd::arithmetic::div_mod::lemma_fundamental_div_mod(shifted as int, pk);
        assert(shifted as int == pk * (q as int) + rem);
        assert(v as int == (q as int - off as int) * pk + rem) by (nonlinear_arith)
            requires
                shifted as int == pk * (q as int) + rem,
                shifted as int == v as int + 0x8000_0000,
                pk * po == 0x8000_0000,
                off as int == po,
        ;
        lemma_fundamental_div_mod_converse(v as int, pk, q as int - off as int, rem);
        assert(0 <= q as int <= 0xffff_ffff);
        assert(q as int - off as int <= i32::MAX) by (nonlinear_arith)
            requires
                v as int == (q as int - off as int) * pk + rem,
                0 <= rem,
                pk >= 1,
                v <= i32::MAX,
        ;
        assert(q as int - off as int >= i32::MIN) by (nonlinear_arith)
            requires
                v as int == (q as int - off as int) * pk + rem,
                rem < pk,
                pk >= 1,
                pk <= 0x8000_0000,
                v >= i32::MIN,
        ;
    }
    ((q as i64) - (off as i64)) as i32
}

/// `a / b` rounded toward zero.
pub fn trunc_div_i32(a: i32, b: i32) -> (r: i32)
    requires
        b != 0,
        !(a == i32::MIN && b == -1),
    ensures
        r as int == trunc_div(a as int, b as int),
{
    let x = a as i64;
    let y = b as i64;
    if x >= 0 {
        if y > 0 {
            proof {
                vstd::arithmetic::div_mod::lemma_div_is_ordered_by_denominator(x as int, 1, y as int);
                vstd::arithmetic::div_mod::lemma_div_pos_is_pos(x as int, y as int);
            }
            (x / y) as i32
        } else {
            proof {
                vstd::arithmetic::div_mod::lemma_div_is_ordered_by_denominator(x as int, 1, -y as int);
                vstd::arithmetic::div_mod::lemma_div_pos_is_pos(x as int, -y as int);
            }
            (-(x / -y)) as i32
        }
    } else {
        if y > 0 {
            proof {
                vstd::arithmetic::div_mod::lemma_div_is_ordered_by_denominator(-x as int, 1, y as int);
                vstd::arithmetic::div_mod::lemma_div_pos_is_pos(-x as int, y as int);
            }
            (-((-x) / y)) as i32
        } else {
            proof {
                vstd::arithmetic::div_mod::lemma_div_pos_is_pos(-x as int, -y as int);
                if y == -1 {
                    assert(-x / 1 == -x);
                } else {
                    vstd::arithmetic::div_mod::lemma_div_is_ordered_by_denominator(
                        -x as int,
                        2,
                        -y as int,
                    );
                    assert(-x / 2 <= 0x4000_0000);
                }
            }
            ((-x) / (-y)) as i32
        }
    }
}

/// `v` times `2^k`, truncated to 32 bits as a left shift does.
pub fn shift_left_wrapping(v: i32, k: u32) -> (r: i32)
    requires
        k < 32,
    ensures
        r == wrap_i32(v * pow2(k as nat)),
{
    proof {
        lemma2_to64();
        vstd::arithmetic::power2::lemma_pow2_strictly_increases(k as nat, 32);
        lemma_u64_shl_is_mul(1u64, k as u64);
    }
    let p: u64 = 1u64 << (k as u64);
    assert(p as int == pow2(k as nat));
    assert(-0x8000_0000 * 0x8000_0000 <= (v as int) * (p as int) <= 0x7fff_ffff * 0x8000_0000)
        by (nonlinear_arith)
        requires
            i32::MIN <= v <= i32::MAX,
            0 < p <= 0x8000_0000,
    ;
    let prod: i64 = (v as i64) * (p as i64);
    let shifted: u64 = (prod + 0x4000_0000_0000_0000i64) as u64;
    let m: u64 = shifted % 0x1_0000_0000u64;
    proof {
        vstd::arithmetic::div_mod::lemma_mod_multiples_vanish(
            0x4000_0000,
            prod as int,
            0x1_0000_0000,
        );
        assert(shifted as int == 0x1_0000_0000 * 0x4000_0000 + prod as int);
        assert(m as int == (prod as int) % 0x1_0000_0000);
    }
    if m > 0x7fff_ffffu64 {
        ((m as i64) - 0x1_0000_0000i64) as i32
    } else {
        m as i32
    }
}

impl FixedInt10 {
    /// Number of fractional bits.
    pub fn exponent() -> (r: i32)
        ensures
            r == EXPONENT,
    {
        EXPONENT
    }

    /// The raw value that stands for one.
    pub fn multiplier() -> (r: i32)
        ensures
            r == MULTIPLIER,
            r as int == pow2(EXPONENT as nat),
    {
        proof {
            lemma2_to64();
        }
        MULTIPLIER
    }

    /// The number with its fractional bits cleared: the largest multiple of one
    /// that is not above it.
    pub fn floor(self) -> (r: FixedInt10)
        ensures
            r == self.spec_floor(),
            r.value == (self.value / 1024) * 1024,
    {
        let v = self.value;
        let r = v & ((!0i32) ^ (MULTIPLIER - 1));
        proof {
            lemma_low_bits(v);
            assert(r == v - (v & 1023)) by (bit_vector)
                requires
                    r == v & ((!0i32) ^ 1023i32),
            ;
        }
        FixedInt10 { value: r }
    }

    /// The fractional part of the number, in `[0, 1)`.
    pub fn fract(self) -> (r: FixedInt10)
        ensures
            r == self.spec_fract(),
            0 <= r.value < 1024,
    {
        proof {
            lemma_low_bits(self.value);
        }
        FixedInt10 { value: self.value & (MULTIPLIER - 1) }
    }
}


impl FixedInt10 {
    /// The number rounded down to a whole number.
    pub open spec fn spec_floor(self) -> FixedInt10 {
        FixedInt10 { value: (self.value - self.value % 1024) as i32 }
    }

    /// The fractional part of the number.
    pub open spec fn spec_fract(self) -> FixedInt10 {
        FixedInt10 { value: (self.value % 1024) as i32 }
    }

    /// Spec of the conversion from an integer: `n` shifted left by ten bits.
    pub open spec fn of_int(n: int) -> FixedInt10 {
        FixedInt10 { value: wrap_i32(n * 1024) }
    }

    /// Spec of the conversion to an integer: the floor of the number.
    pub open spec fn int_part(self) -> int {
        self.value / 1024
    }
}

impl From<i32> for FixedInt10 {
    fn from(other: i32) -> (r: FixedInt10) {
        proof {
            lemma2_to64();
        }
        FixedInt10 { value: shift_left_wrapping(other, EXPONENT as u32) }
    }
}

impl vstd::std_specs::convert::FromSpecImpl<i32> for FixedInt10 {
    open spec fn obeys_from_spec() -> bool {
        true
    }

    open spec fn from_spec(other: i32) -> FixedInt10 {
        FixedInt10::of_int(other as int)
    }
}

impl From<u8> for FixedInt10 {
    fn from(other: u8) -> (r: FixedInt10) {
        FixedInt10 { value: (other as i32) * MULTIPLIER }
    }
}

impl vstd::std_specs::convert::FromSpecImpl<u8> for FixedInt10 {
    open spec fn obeys_from_spec() -> bool {
        true
    }

    open spec fn from_spec(other: u8) -> FixedInt10 {
        FixedInt10 { value: (other * 1024) as i32 }
    }
}

impl From<FixedInt10> for i32 {
    fn from(val: FixedInt10) -> (r: i32) {
        proof {
            lemma2_to64();
        }
        shift_right_floor(val.value, EXPONENT as u32)
    }
}

impl vstd::std_specs::convert::FromSpecImpl<FixedInt10> for i32 {
    open spec fn obeys_from_spec() -> bool {
        true
    }

    open spec fn from_spec(val: FixedInt10) -> i32 {
        val.int_part() as i32
    }
}

impl From<FixedInt10> for usize {
    fn from(val: FixedInt10) -> (r: usize) {
        let u = val.value as u32;
        proof {
            vstd::bits::lemma_u32_shr_is_div(u, 10);
            lemma2_to64();
        }
        (u >> 10u32) as usize
    }
}

impl vstd::std_specs::convert::FromSpecImpl<FixedInt10> for usize {
    open spec fn obeys_from_spec() -> bool {
        true
    }

    open spec fn from_spec(val: FixedInt10) -> usize {
        ((val.value as u32) / 1024) as usize
    }
}

impl From<FixedInt10> for u8 {
    fn from(val: FixedInt10) -> (r: u8) {
        proof {
            lemma2_to64();
        }
        shift_right_floor(val.value, EXPONENT as u32) as u8
    }
}

impl vstd::std_specs::convert::FromSpecImpl<FixedInt10> for u8 {
    open spec fn obeys_from_spec() -> bool {
        true
    }

    open spec fn from_spec(val: FixedInt10) -> u8 {
        val.int_part() as u8
    }
}

impl core::ops::Shl<i32> for FixedInt10 {
    type Output = FixedInt10;

    fn shl(self, rhs: i32) -> (r: FixedInt10) {
        FixedInt10 { value: shift_left_wrapping(self.value, rhs as u32) }
    }
}

impl vstd::std_specs::ops::ShlSpecImpl<i32> for FixedInt10 {
    open spec fn obeys_shl_spec() -> bool {
        true
    }

    open spec fn shl_req(self, rhs: i32) -> bool {
        0 <= rhs < 32
    }

    open spec fn shl_spec(self, rhs: i32) -> FixedInt10 {
        FixedInt10 { value: wrap_i32(self.value * pow2(rhs as nat)) }
    }
}

impl core::ops::Shr<i32> for FixedInt10 {
    type Output = FixedInt10;

    fn shr(self, rhs: i32) -> (r: FixedInt10) {
        proof {
            lemma2_to64();
        }
        FixedInt10 { value: shift_right_floor(self.value, rhs as u32) }
    }
}

impl vstd::std_specs::ops::ShrSpecImpl<i32> for FixedInt10 {
    open spec fn obeys_shr_spec() -> bool {
        true
    }

    open spec fn shr_req(self, rhs: i32) -> bool {
        0 <= rhs < 32
    }

    open spec fn shr_spec(self, rhs: i32) -> FixedInt10 {
        FixedInt10 { value: shr_floor(self.value as int, rhs as nat) as i32 }
    }
}

impl core::ops::BitAnd<i32> for FixedInt10 {
    type Output = FixedInt10;

    fn bitand(self, rhs: i32) -> (r: FixedInt10) {
        proof {
            lemma2_to64();
        }
        FixedInt10 { value: self.value & shift_left_wrapping(rhs, EXPONENT as u32) }
    }
}

impl vstd::std_specs::ops::BitAndSpecImpl<i32> for FixedInt10 {
    open spec fn obeys_bitand_spec() -> bool {
        true
    }

    open spec fn bitand_req(self, rhs: i32) -> bool {
        true
    }

    open spec fn bitand_spec(self, rhs: i32) -> FixedInt10 {
        FixedInt10 { value: self.value & wrap_i32(rhs * 1024) }
    }
}

impl core::ops::Div<i32> for FixedInt10 {
    type Output = FixedInt10;

    fn div(self, rhs: i32) -> (r: FixedInt10) {
        FixedInt10 { value: trunc_div_i32(self.value, rhs) }
    }
}

impl vstd::std_specs::ops::DivSpecImpl<i32> for FixedInt10 {
    open spec fn obeys_div_spec() -> bool {
        true
    }

    open spec fn div_req(self, rhs: i32) -> bool {
        rhs != 0 && !(self.value == i32::MIN && rhs == -1)
    }

    open spec fn div_spec(self, rhs: i32) -> FixedInt10 {
        FixedInt10 { value: trunc_div(self.value as int, rhs as int) as i32 }
    }
}

impl core::ops::Add for FixedInt10 {
    type Output = FixedInt10;

    fn add(self, rhs: FixedInt10) -> (r: FixedInt10) {
        proof {
            lemma_wrap_i32(self.value + rhs.value);
        }
        FixedInt10 { value: self.value.wrapping_add(rhs.value) }
    }
}

impl vstd::std_specs::ops::AddSpecImpl for FixedInt10 {
    open spec fn obeys_add_spec() -> bool {
        true
    }

    open spec fn add_req(self, rhs: FixedInt10) -> bool {
        true
    }

    open spec fn add_spec(self, rhs: FixedInt10) -> FixedInt10 {
        FixedInt10 { value: wrap_i32(self.value + rhs.value) }
    }
}

impl core::ops::Add<i32> for FixedInt10 {
    type Output = FixedInt10;

    fn add(self, rhs: i32) -> (r: FixedInt10) {
        let shifted = shift_left_wrapping(rhs, EXPONENT as u32);
        proof {
            lemma2_to64();
            lemma_wrap_i32(self.value + shifted);
        }
        FixedInt10 { value: self.value.wrapping_add(shifted) }
    }
}

impl vstd::std_specs::ops::AddSpecImpl<i32> for FixedInt10 {
    open spec fn obeys_add_spec() -> bool {
        true
    }

    open spec fn add_req(self, rhs: i32) -> bool {
        true
    }

    open spec fn add_spec(self, rhs: i32) -> FixedInt10 {
        FixedInt10 { value: wrap_i32(self.value + wrap_i32(rhs * 1024)) }
    }
}

impl core::ops::Sub for FixedInt10 {
    type Output = FixedInt10;

    fn sub(self, rhs: FixedInt10) -> (r: FixedInt10) {
        proof {
            lemma_wrap_i32(self.value - rhs.value);
        }
        FixedInt10 { value: self.value.wrapping_sub(rhs.value) }
    }
}

impl vstd::std_specs::ops::SubSpecImpl for FixedInt10 {
    open spec fn obeys_sub_spec() -> bool {
        true
    }

    open spec fn sub_req(self, rhs: FixedInt10) -> bool {
        true
    }

    open spec fn sub_spec(self, rhs: FixedInt10) -> FixedInt10 {
        FixedInt10 { value: wrap_i32(self.value - rhs.value) }
    }
}

impl core::ops::Sub<i32> for FixedInt10 {
    type Output = FixedInt10;

    fn sub(self, rhs: i32) -> (r: FixedInt10) {
        let shifted = shift_left_wrapping(rhs, EXPONENT as u32);
        proof {
            lemma2_to64();
            lemma_wrap_i32(self.value - shifted);
        }
        FixedInt10 { value: self.value.wrapping_sub(shifted) }
    }
}

impl vstd::std_specs::ops::SubSpecImpl<i32> for FixedInt10 {
    open spec fn obeys_sub_spec() -> bool {
        true
    }

    open spec fn sub_req(self, rhs: i32) -> bool {
        true
    }

    open spec fn sub_spec(self, rhs: i32) -> FixedInt10 {
        FixedInt10 { value: wrap_i32(self.value - wrap_i32(rhs * 1024)) }
    }
}

impl core::ops::Mul<FixedInt10> for FixedInt10 {
    type Output = FixedInt10;

    fn mul(self, rhs: FixedInt10) -> (r: FixedInt10) {
        proof {
            lemma2_to64();
        }
        FixedInt10 { value: shift_right_floor(self.value.wrapping_mul(rhs.value), EXPONENT as u32) }
    }
}

impl vstd::std_specs::ops::MulSpecImpl<FixedInt10> for FixedInt10 {
    open spec fn obeys_mul_spec() -> bool {
        true
    }

    open spec fn mul_req(self, rhs: FixedInt10) -> bool {
        true
    }

    open spec fn mul_spec(self, rhs: FixedInt10) -> FixedInt10 {
        FixedInt10 { value: (wrap_i32(self.value * rhs.value) / 1024) as i32 }
    }
}

impl core::ops::Mul<u8> for FixedInt10 {
    type Output = FixedInt10;

    fn mul(self, rhs: u8) -> (r: FixedInt10) {
        FixedInt10 { value: self.value.wrapping_mul(rhs as i32) }
    }
}

impl vstd::std_specs::ops::MulSpecImpl<u8> for FixedInt10 {
    open spec fn obeys_mul_spec() -> bool {
        true
    }

    open spec fn mul_req(self, rhs: u8) -> bool {
        true
    }

    open spec fn mul_spec(self, rhs: u8) -> FixedInt10 {
        FixedInt10 { value: wrap_i32(self.value * rhs) }
    }
}

impl core::ops::Mul<i32> for FixedInt10 {
    type Output = FixedInt10;

    fn mul(self, rhs: i32) -> (r: FixedInt10) {
        FixedInt10 { value: self.value.wrapping_mul(rhs) }
    }
}

impl vstd::std_specs::ops::MulSpecImpl<i32> for FixedInt10 {
    open spec fn obeys_mul_spec() -> bool {
        true
    }

    open spec fn mul_req(self, rhs: i32) -> bool {
        true
    }

    open spec fn mul_spec(self, rhs: i32) -> FixedInt10 {
        FixedInt10 { value: wrap_i32(self.value * rhs) }
    }
}

/// An integer that fits in 22 bits comes back unchanged from a round trip
/// through `FixedInt10`.
pub proof fn lemma_int_round_trip(n: i32)
    requires
        -0x20_0000 <= n < 0x20_0000,
    ensures
        FixedInt10::of_int(n as int).int_part() == n,
{
    lemma_wrap_i32(n * 1024);
    vstd::arithmetic::div_mod::lemma_div_multiples_vanish(n as int, 1024);
}

/// The floor of a number plus its fractional part is the number itself.
pub proof fn lemma_floor_plus_fract(x: FixedInt10)
    ensures
        x.spec_floor().add_spec(x.spec_fract()) == x,
{
    lemma_wrap_i32(x.value as int);
    vstd::arithmetic::div_mod::lemma_fundamental_div_mod(x.value as int, 1024);
}

/// A left shift that does not overflow is undone by a right shift of the
/// same count.
pub proof fn lemma_shift_round_trip(x: FixedInt10, k: i32)
    requires
        0 <= k < 32,
        i32::MIN <= x.value * pow2(k as nat) <= i32::MAX,
    ensures
        x.shl_spec(k).shr_spec(k) == x,
{
    lemma_wrap_i32(x.value * pow2(k as nat));
    lemma_pow2_pos(k as nat);
    vstd::arithmetic::div_mod::lemma_div_multiples_vanish(x.value as int, pow2(k as nat) as int);
    assert(x.value * pow2(k as nat) == pow2(k as nat) * x.value) by (nonlinear_arith);
}

/// The low ten bits of `v` are its remainder modulo 1024.
pub proof fn lemma_low_bits(v: i32)
    ensures
        v & 1023 == v % 1024,
        (v >> 10) as int == v / 1024,
{
    let q = v >> 10;
    let b = v & 1023;
    assert(0 <= b < 1024) by (bit_vector)
        requires
            b == v & 1023,
    ;
    assert(v == vstd::prelude::add(vstd::prelude::mul(q, 1024), b) && -0x20_0000 <= q < 0x20_0000) by (bit_vector)
        requires
            q == v >> 10,
            b == v & 1023,
    ;
    assert(v as int == q as int * 1024 + b as int);
    lemma_fundamental_div_mod_converse(v as int, 1024, q as int, b as int);
}

} // verus!
