use vstd::arithmetic::div_mod::{
    lemma_basic_div, lemma_fundamental_div_mod_converse, lemma_small_mod,
};
use vstd::prelude::*;

verus! {

/// The first number above the range of an amount: two to the 64th.
pub open spec fn amount_range() -> int {
    0x1_0000_0000_0000_0000
}

/// Two to the 128th.
pub open spec fn two_to_128() -> int {
    amount_range() * amount_range()
}

/// Two to the 248th: the weight of the last of the 32 bytes of a field element.
pub open spec fn top_byte_weight() -> int {
    0x100_0000_0000_0000_0000_0000_0000_0000 * two_to_128()
}

/// The modulus of the base field of the Jubjub curve, in which the in-circuit
/// amount checks do their sums and differences.
pub open spec fn field_modulus() -> int {
    0x73ed_a753_299d_7d48_3339_d808_09a1_d805 * two_to_128()
        + 0x53bd_a402_fffe_5bfe_ffff_ffff_0000_0001
}

/// Byte 31, the last one, of a field element written least significant byte
/// first.
pub open spec fn top_byte(element: int) -> int {
    (element / top_byte_weight()) % 256
}

/// Byte 8, the first one beyond an amount, of a field element written least
/// significant byte first.
pub open spec fn carry_byte(element: int) -> int {
    (element / amount_range()) % 256
}

/// The sum of two amounts as an element of the field.
pub open spec fn field_sum(a: u64, b: u64) -> int {
    (a + b) % field_modulus()
}

/// The difference of two amounts as an element of the field.
pub open spec fn field_difference(a: u64, b: u64) -> int {
    (a - b) % field_modulus()
}

/// The field is far larger than an amount: its modulus has a non-zero last byte
/// even after an amount is taken away, and fits 32 bytes.
proof fn lemma_modulus_size()
    ensures
        top_byte_weight() + amount_range() <= field_modulus() < 256 * top_byte_weight(),
        top_byte_weight() > 2 * amount_range(),
{
    let r = amount_range();
    let s = two_to_128();
    assert(s > 0xffff_ffff_ffff_ffff_ffff_ffff_ffff_ffff) by (nonlinear_arith)
        requires
            s == r * r,
            r == 0x1_0000_0000_0000_0000,
    ;
}

/// The check on an in-circuit sum: byte 8 of the field sum is zero exactly when
/// the sum fits an amount, and the low 64 bits of the field sum are then the sum.
pub proof fn law_carry_byte_decides_overflow(a: u64, b: u64)
    ensures
        carry_byte(field_sum(a, b)) == 0 <==> a + b <= u64::MAX,
        a + b <= u64::MAX ==> field_sum(a, b) % amount_range() == a + b,
{
    lemma_modulus_size();
    lemma_small_mod((a + b) as nat, field_modulus() as nat);
}

/// The check on an in-circuit difference: the top byte of the field difference is
/// zero exactly when the first amount covers the second, and the low 64 bits of
/// the field difference are then the difference.
pub proof fn law_top_byte_decides_underflow(a: u64, b: u64)
    ensures
        top_byte(field_difference(a, b)) == 0 <==> a >= b,
        a >= b ==> field_difference(a, b) % amount_range() == a - b,
{
    lemma_modulus_size();
    let p = field_modulus();
    let t = top_byte_weight();
    if a >= b {
        lemma_small_mod((a - b) as nat, p as nat);
        lemma_basic_div(a - b, t);
    } else {
        let y = a - b + p;
        lemma_fundamental_div_mod_converse(a - b, p, -1, y);
        assert(1 <= y / t < 256) by (nonlinear_arith)
            requires
                0 < t <= y < 256 * t,
        ;
    }
}

} // verus!
