//! Fibonacci numbers.

use vstd::prelude::*;

verus! {

/// The Fibonacci number of index `n`: 0, 1, 1, 2, 3, 5, ...
pub open spec fn fib_spec(n: nat) -> nat
    decreases n,
{
    if n == 0 {
        0
    } else if n == 1 {
        1
    } else {
        fib_spec((n - 1) as nat) + fib_spec((n - 2) as nat)
    }
}

/// Fibonacci numbers do not decrease with the index.
pub proof fn lemma_fib_monotonic(i: nat, j: nat)
    requires
        i <= j,
    ensures
        fib_spec(i) <= fib_spec(j),
    decreases j,
{
    if i < j {
        if j >= 2 {
            lemma_fib_monotonic(i, (j - 1) as nat);
        } else {
            assert(i == 0 && j == 1);
        }
    }
}

/// The Fibonacci number of index `n`, or `None` where it does not fit in
/// 64 bits.
pub fn fib(n: usize) -> (r: Option<u64>)
    ensures
        r is Some <==> fib_spec(n as nat) <= u64::MAX,
        r matches Some(v) ==> v == fib_spec(n as nat),
{
    if n == 0 {
        return Some(0);
    }
    let mut previous: u64 = 0;
    let mut current: u64 = 1;
    let mut i: usize = 1;
    while i < n
        invariant
            1 <= i <= n,
            previous == fib_spec((i - 1) as nat),
            current == fib_spec(i as nat),
        decreases n - i,
    {
        match previous.checked_add(current) {
            Some(next) => {
                previous = current;
                current = next;
                i += 1;
            },
            None => {
                proof {
                    lemma_fib_monotonic((i + 1) as nat, n as nat);
                }
                return None;
            },
        }
    }
    Some(current)
}

} // verus!
