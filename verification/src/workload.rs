//! The sample workloads that guests run under the simulator: a sum of
//! squares and a Fibonacci number.

use vstd::prelude::*;

verus! {

/// The sum of the squares of the numbers from 1 to `n`.
pub open spec fn sum_of_squares(n: nat) -> nat
    decreases n,
{
    if n == 0 {
        0
    } else {
        sum_of_squares((n - 1) as nat) + n * n
    }
}

/// The sum of squares grows with `n`, and is at least the last square.
pub proof fn lemma_sum_of_squares_grows(m: nat, n: nat)
    requires
        m <= n,
    ensures
        sum_of_squares(m) <= sum_of_squares(n),
        m * m <= sum_of_squares(n),
    decreases n - m,
{
    if m < n {
        lemma_sum_of_squares_grows(m + 1, n);
    }
    if m > 0 {
        assert(sum_of_squares(m) == sum_of_squares((m - 1) as nat) + m * m);
    } else {
        assert(m * m == 0) by (nonlinear_arith)
            requires
                m == 0,
        ;
    }
}

/// The closed form: six times the sum is `n (n + 1) (2n + 1)`.
pub proof fn lemma_sum_of_squares_closed_form(n: nat)
    ensures
        6 * sum_of_squares(n) == n * (n + 1) * (2 * n + 1),
    decreases n,
{
    if n > 0 {
        let m = (n - 1) as nat;
        lemma_sum_of_squares_closed_form(m);
        assert(m * (m + 1) * (2 * m + 1) + 6 * (n * n) == n * (n + 1) * (2 * n + 1))
            by (nonlinear_arith)
            requires
                m + 1 == n,
        ;
    } else {
        assert(n * (n + 1) * (2 * n + 1) == 0) by (nonlinear_arith)
            requires
                n == 0,
        ;
    }
}

/// The greatest `n` whose sum of squares fits in 32 bits.
pub const SUM_SQ_MAX_INPUT: u32 = 2343;

/// The sum of squares up to 2343 fits in 32 bits, and so does every one
/// before it.
pub proof fn lemma_sum_of_squares_fits(n: nat)
    requires
        n <= 2343,
    ensures
        sum_of_squares(n) <= u32::MAX,
{
    lemma_sum_of_squares_grows(n, 2343);
    lemma_sum_of_squares_closed_form(2343);
    assert(2343 * (2343 + 1) * (2 * 2343 + 1) == 25740966504) by (nonlinear_arith);
}

/// Adds up the squares of the numbers from 1 to `n`.
pub fn sum_sq(n: u32) -> (sum: u32)
    requires
        sum_of_squares(n as nat) <= u32::MAX,
    ensures
        sum == sum_of_squares(n as nat),
{
    let mut sum: u32 = 0;
    let mut i: u32 = 0;
    while i < n
        invariant
            i <= n,
            sum == sum_of_squares(i as nat),
            sum_of_squares(n as nat) <= u32::MAX,
        decreases n - i,
    {
        i += 1;
        proof {
            lemma_sum_of_squares_grows(i as nat, n as nat);
            assert(i * i == (i as nat) * (i as nat));
        }
        sum += i * i;
    }
    sum
}

/// The Fibonacci numbers: 0, 1, 1, 2, 3, 5 and so on.
pub open spec fn fib(n: nat) -> nat
    decreases n,
{
    if n == 0 {
        0
    } else if n == 1 {
        1
    } else {
        fib((n - 1) as nat) + fib((n - 2) as nat)
    }
}

/// What the Fibonacci guest gives for `n`: the `n`-th Fibonacci number, and
/// one for zero.
pub open spec fn voj_of(n: nat) -> nat {
    if n == 0 {
        1
    } else {
        fib(n)
    }
}

/// The Fibonacci numbers do not fall.
pub proof fn lemma_fib_grows(m: nat, n: nat)
    requires
        m <= n,
    ensures
        fib(m) <= fib(n),
    decreases n,
{
    if m < n {
        if n >= 2 {
            lemma_fib_grows(m, (n - 1) as nat);
        }
    }
}

/// Computes the `n`-th Fibonacci number by adding up from the first two.
pub fn voj(n: u32) -> (b: u128)
    requires
        voj_of(n as nat) <= u128::MAX,
    ensures
        b == voj_of(n as nat),
{
    let mut a: u128 = 0;
    let mut b: u128 = 1;
    let mut i: u32 = 1;
    while i < n
        invariant
            1 <= i,
            i <= n || (n == 0 && i == 1),
            a == fib((i - 1) as nat),
            b == fib(i as nat),
            voj_of(n as nat) <= u128::MAX,
        decreases n - i,
    {
        proof {
            lemma_fib_grows((i + 1) as nat, n as nat);
        }
        let sum = a + b;
        a = b;
        b = sum;
        i += 1;
    }
    b
}

} // verus!
