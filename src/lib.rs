//! The Fibonacci numbers over 32-bit unsigned integers, computed iteratively
//! in constant space, with a wrapping variant and a checked variant.
use vstd::prelude::*;

verus! {

/// The Fibonacci sequence over the naturals:
/// F(0) = 0, F(1) = 1, and F(n) = F(n - 1) + F(n - 2) from there on.
pub open spec fn fib(n: nat) -> nat
    decreases n,
{
    if n < 2 {
        n
    } else {
        fib((n - 1) as nat) + fib((n - 2) as nat)
    }
}

/// F(n) reduced into the range of `u32`, the way wrapping addition leaves it.
pub open spec fn fib_u32(n: nat) -> u32 {
    (fib(n) % 0x1_0000_0000) as u32
}

/// The largest index whose Fibonacci number fits in a `u32`.
pub const LARGEST_EXACT_INDEX: u32 = 47;

/// Returns the `n`-th Fibonacci number, with the additions wrapping at the
/// width of `u32`. For every index up to `LARGEST_EXACT_INDEX` the result is
/// the exact Fibonacci number.
pub fn fibonacci(n: u32) -> (r: u32)
    ensures
        r == fib_u32(n as nat),
        n <= LARGEST_EXACT_INDEX ==> r == fib(n as nat),
{
    if n < 2 {
        return n;
    }
    let mut remaining: u32 = n;
    let mut f0: u32 = 0;
    let mut f1: u32 = 1;
    while remaining > 1
        invariant
            1 <= remaining <= n,
            f0 == fib_u32((n - remaining) as nat),
            f1 == fib_u32((n - remaining + 1) as nat),
        decreases remaining,
    {
        proof {
            lemma_fib_u32_wrapping_step((n - remaining + 2) as nat);
        }
        let next: u32 = f0.wrapping_add(f1);
        f0 = f1;
        f1 = next;
        remaining = remaining - 1;
    }
    proof {
        if n <= LARGEST_EXACT_INDEX {
            lemma_fib_fits_u32(n as nat);
        }
    }
    f1
}

/// Why a checked Fibonacci computation gave no result.
#[derive(Debug, Clone, Copy, PartialEq, Eq, Structural)]
pub enum FibonacciError {
    /// The Fibonacci number does not fit in a `u32`.
    Overflow,
}

/// Returns the `n`-th Fibonacci number when it fits in a `u32`, and
/// `FibonacciError::Overflow` when it does not.
pub fn fibonacci_checked(n: u32) -> (r: Result<u32, FibonacciError>)
    ensures
        r.is_ok() <==> n <= LARGEST_EXACT_INDEX,
        fib(n as nat) <= u32::MAX ==> r == Ok::<u32, FibonacciError>(fib(n as nat) as u32),
        fib(n as nat) > u32::MAX ==> r == Err::<u32, FibonacciError>(FibonacciError::Overflow),
{
    proof {
        lemma_fib_fits_u32(n as nat);
    }
    if n < 2 {
        return Ok(n);
    }
    let mut remaining: u32 = n;
    let mut f0: u32 = 0;
    let mut f1: u32 = 1;
    while remaining > 1
        invariant
            1 <= remaining <= n,
            f0 == fib((n - remaining) as nat),
            f1 == fib((n - remaining + 1) as nat),
        decreases remaining,
    {
        match f0.checked_add(f1) {
            Some(next) => {
                f0 = f1;
                f1 = next;
            },
            None => {
                proof {
                    lemma_fib_monotone((n - remaining + 2) as nat, n as nat);
                    lemma_fib_fits_u32(n as nat);
                }
                return Err(FibonacciError::Overflow);
            },
        }
        remaining = remaining - 1;
    }
    Ok(f1)
}

/// Up to `LARGEST_EXACT_INDEX` no wrapping takes place: the wrapped value is
/// the Fibonacci number itself.
pub proof fn lemma_fib_u32_exact(n: nat)
    requires
        n <= LARGEST_EXACT_INDEX,
    ensures
        fib_u32(n) == fib(n),
{
    lemma_fib_fits_u32(n);
    vstd::arithmetic::div_mod::lemma_small_mod(fib(n), 0x1_0000_0000);
}

/// `fibonacci` depends on its index alone: two results that it returns for
/// the same index are equal.
pub proof fn lemma_fibonacci_repeatable(n: u32, first: u32, second: u32)
    requires
        first == fib_u32(n as nat),
        second == fib_u32(n as nat),
    ensures
        first == second,
{
}

/// `fibonacci` does not decrease from one index to the next, from index 1 on,
/// as long as the next value has not wrapped.
pub proof fn lemma_fibonacci_monotone(n: u32)
    requires
        1 <= n < LARGEST_EXACT_INDEX,
    ensures
        fib_u32(n as nat) <= fib_u32((n + 1) as nat),
{
    lemma_fib_u32_exact(n as nat);
    lemma_fib_u32_exact((n + 1) as nat);
    lemma_fib_step_monotone(n as nat);
}

/// From index 2 up to `LARGEST_EXACT_INDEX`, `fibonacci(n)` is the sum of
/// `fibonacci(n - 1)` and `fibonacci(n - 2)`, without wrapping.
pub proof fn lemma_fibonacci_recurrence(n: u32)
    requires
        2 <= n <= LARGEST_EXACT_INDEX,
    ensures
        fib_u32(n as nat) == fib_u32((n - 1) as nat) + fib_u32((n - 2) as nat),
{
    lemma_fib_u32_exact(n as nat);
    lemma_fib_u32_exact((n - 1) as nat);
    lemma_fib_u32_exact((n - 2) as nat);
}

/// Each wrapped Fibonacci number is the wrapped sum of the two before it,
/// for every index, including those whose exact value exceeds `u32`.
pub proof fn lemma_fib_u32_wrapping_step(n: nat)
    requires
        n >= 2,
    ensures
        fib_u32(n) == (fib_u32((n - 1) as nat) as u32).wrapping_add(fib_u32((n - 2) as nat)),
{
    let a = fib((n - 1) as nat) as int;
    let b = fib((n - 2) as nat) as int;
    let m: int = 0x1_0000_0000;
    vstd::arithmetic::div_mod::lemma_add_mod_noop(a, b, m);
    vstd::arithmetic::div_mod::lemma_mod_bound(a, m);
    vstd::arithmetic::div_mod::lemma_mod_bound(b, m);
    vstd::arithmetic::div_mod::lemma_mod_bound(a + b, m);
    let s = a % m + b % m;
    if s >= m {
        vstd::arithmetic::div_mod::lemma_mod_add_multiples_vanish(s - m, m);
        vstd::arithmetic::div_mod::lemma_small_mod((s - m) as nat, m as nat);
    } else {
        vstd::arithmetic::div_mod::lemma_small_mod(s as nat, m as nat);
    }
}

/// The Fibonacci sequence never decreases from one index to the next.
pub proof fn lemma_fib_step_monotone(n: nat)
    ensures
        fib(n) <= fib(n + 1),
{
}

/// The Fibonacci sequence never decreases: F(i) <= F(j) whenever i <= j.
pub proof fn lemma_fib_monotone(i: nat, j: nat)
    requires
        i <= j,
    ensures
        fib(i) <= fib(j),
    decreases j - i,
{
    if i < j {
        lemma_fib_monotone(i, (j - 1) as nat);
        lemma_fib_step_monotone((j - 1) as nat);
    }
}

/// F(n) fits in a `u32` exactly when n is at most `LARGEST_EXACT_INDEX`.
pub proof fn lemma_fib_fits_u32(n: nat)
    ensures
        fib(n) <= u32::MAX <==> n <= LARGEST_EXACT_INDEX,
{
    assert(fib(7) == 13 && fib(8) == 21) by {
        reveal_with_fuel(fib, 9);
    }
    assert(fib(15) == 610 && fib(16) == 987) by {
        reveal_with_fuel(fib, 9);
    }
    assert(fib(23) == 28657 && fib(24) == 46368) by {
        reveal_with_fuel(fib, 9);
    }
    assert(fib(31) == 1346269 && fib(32) == 2178309) by {
        reveal_with_fuel(fib, 9);
    }
    assert(fib(39) == 63245986 && fib(40) == 102334155) by {
        reveal_with_fuel(fib, 9);
    }
    assert(fib(47) == 2971215073 && fib(48) == 4807526976) by {
        reveal_with_fuel(fib, 9);
    }
    if n <= 47 {
        lemma_fib_monotone(n, 47);
    } else {
        lemma_fib_monotone(48, n);
    }
}

} // verus!
