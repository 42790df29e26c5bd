//! Decimal rendering of integers and the exact value that a `u64` takes when
//! converted to an IEEE-754 double, which the size formatters divide and round.
use vstd::prelude::*;

verus! {

/// The digit character for `d < 10`.
pub open spec fn digit(d: nat) -> char {
    (('0' as u32) + d) as char
}

/// The decimal representation of `n` without leading zeros (`{}` on integers).
pub open spec fn decimal(n: nat) -> Seq<char>
    decreases n,
{
    if n < 10 {
        seq![digit(n)]
    } else {
        decimal(n / 10) + seq![digit(n % 10)]
    }
}

/// The character of one decimal digit.
pub fn digit_char(d: u8) -> (c: char)
    requires
        d < 10,
    ensures
        c == digit(d as nat),
{
    (48u8 + d) as char
}

/// Appends the decimal representation of `n`.
pub fn push_decimal(out: &mut Vec<char>, n: u128)
    ensures
        final(out)@ == old(out)@ + decimal(n as nat),
    decreases n,
{
    if n >= 10 {
        push_decimal(out, n / 10);
    }
    out.push(digit_char((n % 10) as u8));
    proof {
        if n >= 10 {
            assert(final(out)@ =~= old(out)@ + decimal(n as nat));
        } else {
            assert(decimal(n as nat) == seq![digit(n as nat)]);
            assert(final(out)@ =~= old(out)@ + decimal(n as nat));
        }
    }
}

/// 2^53: below it every integer is a double.
pub open spec fn two_pow_53() -> nat {
    9007199254740992
}

/// The power of two by which `b` must be divided to fall below 2^53.
pub open spec fn scale(b: nat) -> nat
    decreases b,
{
    if b < two_pow_53() {
        1
    } else {
        2 * scale(b / 2)
    }
}

/// Rounds `n / d` to the nearest integer, ties to the even one.
pub open spec fn round_half_even(n: nat, d: nat) -> nat
    recommends
        d > 0,
{
    let q = n / d;
    let r = n % d;
    if 2 * r > d || (2 * r == d && q % 2 == 1) {
        q + 1
    } else {
        q
    }
}

/// The value of `b as f64`: `b` rounded to the nearest multiple of
/// `scale(b)`, ties to an even multiple (53 significant bits).
pub open spec fn f64_value(b: nat) -> nat {
    let p = scale(b);
    round_half_even(b, p) * p
}

proof fn lemma_scale_step(b: nat, q: nat, p: nat)
    requires
        p > 0,
        q == b / p,
        q >= two_pow_53(),
    ensures
        q / 2 == b / (p * 2),
        scale(q) == 2 * scale(q / 2),
{
    vstd::arithmetic::div_mod::lemma_div_denominator(b as int, p as int, 2);
}

/// Executable form of [`round_half_even`].
pub fn round_half_even_exec(n: u128, d: u128) -> (r: u128)
    requires
        d > 0,
        n / d < u128::MAX,
    ensures
        r as nat == round_half_even(n as nat, d as nat),
{
    let q = n / d;
    let r = n % d;
    if r > d - r || (r == d - r && q % 2 == 1) {
        q + 1
    } else {
        q
    }
}

/// Executable form of [`f64_value`].
pub fn f64_value_exec(b: u64) -> (r: u128)
    ensures
        r as nat == f64_value(b as nat),
        r <= 18446744073709555712u128,
{
    let mut q: u128 = b as u128;
    let mut p: u128 = 1;
    while q >= 9007199254740992u128
        invariant
            1 <= p <= 4096,
            q == (b as nat) / (p as nat),
            scale(b as nat) == p * scale(q as nat),
        decreases q,
    {
        proof {
            lemma_scale_step(b as nat, q as nat, p as nat);
            let s2 = scale((q / 2) as nat);
            assert(p * (2 * s2) == (p * 2) * s2) by (nonlinear_arith);
            vstd::arithmetic::div_mod::lemma_fundamental_div_mod(b as int, p as int);
            assert(q * p <= b);
            assert(p * 9007199254740992 <= q * p) by (nonlinear_arith)
                requires
                    q >= 9007199254740992,
                    p >= 1,
            ;
            assert(p < 2048);
        }
        q = q / 2;
        p = p * 2;
    }
    assert(scale(q as nat) == 1);
    assert(scale(b as nat) == p * 1);
    let t = round_half_even_exec(b as u128, p);
    proof {
        vstd::arithmetic::div_mod::lemma_fundamental_div_mod(b as int, p as int);
        assert(q * p <= b);
        assert(t <= q + 1);
        assert(t * p <= q * p + p) by (nonlinear_arith)
            requires
                t <= q + 1,
                p >= 1,
        ;
    }
    t * p
}

} // verus!

verus! {

/// Every decimal representation has at least one digit.
pub proof fn lemma_decimal_nonempty(n: nat)
    ensures
        decimal(n).len() >= 1,
        n >= 10 ==> decimal(n).len() >= 2,
    decreases n,
{
    if n >= 10 {
        lemma_decimal_nonempty(n / 10);
    }
}

/// Distinct numbers have distinct decimal representations.
pub proof fn lemma_decimal_injective(a: nat, b: nat)
    requires
        decimal(a) == decimal(b),
    ensures
        a == b,
    decreases a,
{
    lemma_decimal_nonempty(a);
    lemma_decimal_nonempty(b);
    if a < 10 && b < 10 {
        assert(decimal(a)[0] == digit(a));
        assert(decimal(b)[0] == digit(b));
        assert(digit(a) as u32 == 48 + a);
        assert(digit(b) as u32 == 48 + b);
    } else if a >= 10 && b >= 10 {
        let da = decimal(a);
        let db = decimal(b);
        assert(da.last() == digit(a % 10));
        assert(db.last() == digit(b % 10));
        assert(digit(a % 10) as u32 == 48 + a % 10);
        assert(digit(b % 10) as u32 == 48 + b % 10);
        assert(da.drop_last() =~= decimal(a / 10));
        assert(db.drop_last() =~= decimal(b / 10));
        lemma_decimal_injective(a / 10, b / 10);
    }
}

} // verus!
