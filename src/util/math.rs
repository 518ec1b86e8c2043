use vstd::prelude::*;

verus! {

/// Sign of a number.
pub enum Sign {
    Plus,
    Minus,
}

/// Number of decimal digits of `x`.
pub open spec fn digit_count(x: nat) -> nat
    decreases x,
{
    if x < 10 {
        1
    } else {
        1 + digit_count(x / 10)
    }
}

/// Length of the decimal text of `n`: its digits, and one more for a minus sign.
pub open spec fn i32_text_len(n: int) -> nat {
    if n < 0 {
        1 + digit_count((-n) as nat)
    } else {
        digit_count(n as nat)
    }
}

spec fn pow10(k: nat) -> nat
    decreases k,
{
    if k == 0 {
        1
    } else {
        10 * pow10((k - 1) as nat)
    }
}

proof fn lemma_digit_count_bound(x: nat, k: nat)
    requires
        k >= 1,
        x < pow10(k),
    ensures
        digit_count(x) <= k,
    decreases k,
{
    if x >= 10 {
        if k == 1 {
            assert(pow10(1) == 10 * pow10(0));
        } else {
            assert(pow10(k) == 10 * pow10((k - 1) as nat));
            assert(x / 10 < pow10((k - 1) as nat));
            lemma_digit_count_bound(x / 10, (k - 1) as nat);
        }
    }
}

/// Number of characters that `n` takes when written in decimal.
pub fn get_i32_len(n: i32) -> (r: usize)
    ensures
        r == i32_text_len(n as int),
{
    let mut l: usize = 1;
    if n < 0 {
        l += 1;
    }
    let mut x: u32 = if n < 0 {
        (0i64 - n as i64) as u32
    } else {
        n as u32
    };
    proof {
        reveal_with_fuel(pow10, 11);
        lemma_digit_count_bound(x as nat, 10);
    }
    while x >= 10
        invariant
            x as int <= 2147483648,
            l + digit_count(x as nat) == i32_text_len(n as int) + 1,
            digit_count(x as nat) <= 10,
            i32_text_len(n as int) <= 11,
            l >= 1,
        decreases x,
    {
        l += 1;
        x /= 10;
    }
    l
}

} // verus!
