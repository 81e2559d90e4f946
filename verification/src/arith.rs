//! Small arithmetic helpers: fixed offsets, Fibonacci numbers, and decimal
//! rendering.

use num_format::ToFormattedString;
use vstd::prelude::*;
use vstd::string::StringExecFns;

verus! {

/// Adds two to the given number.
pub fn add_two(a: i32) -> (r: i32)
    requires
        a + 2 <= i32::MAX,
    ensures
        r == a + 2,
{
    a + 2
}

/// Adds one to the given number: `add_one(5)` is `6`.
pub fn add_one(x: i32) -> (r: i32)
    requires
        x < i32::MAX,
    ensures
        r == x + 1,
{
    x + 1
}

/// Increments the value inside an `Option`, leaving `None` untouched.
pub fn plus_one(x: Option<i32>) -> (r: Option<i32>)
    requires
        x matches Some(i) ==> i < i32::MAX,
    ensures
        match x {
            Some(i) => r == Some((i + 1) as i32),
            None => r is None,
        },
{
    match x {
        Some(i) => Some(i + 1),
        None => None,
    }
}

/// The Fibonacci sequence: 0, 1, 1, 2, 3, 5, ...
pub open spec fn spec_fib(n: nat) -> nat
    decreases n,
{
    if n == 0 {
        0
    } else if n == 1 {
        1
    } else {
        spec_fib((n - 1) as nat) + spec_fib((n - 2) as nat)
    }
}

/// Fibonacci numbers never shrink as the index grows.
pub proof fn lemma_fib_is_monotonic(i: nat, j: nat)
    requires
        i <= j,
    ensures
        spec_fib(i) <= spec_fib(j),
    decreases j - i,
{
    if i < 2 && j < 2 {
    } else if i == j {
    } else if i == j - 1 {
        reveal_with_fuel(spec_fib, 2);
        lemma_fib_is_monotonic(i, (j - 1) as nat);
    } else {
        lemma_fib_is_monotonic(i, (j - 1) as nat);
        lemma_fib_is_monotonic(i, (j - 2) as nat);
    }
}

/// The `n`-th Fibonacci number, computed by the textbook recursion.
pub fn nth_fibonacci(n: u64) -> (r: u64)
    requires
        spec_fib(n as nat) <= u64::MAX,
    ensures
        r == spec_fib(n as nat),
    decreases n,
{
    if n == 0 || n == 1 {
        n
    } else {
        proof {
            lemma_fib_is_monotonic((n - 1) as nat, n as nat);
            lemma_fib_is_monotonic((n - 2) as nat, n as nat);
        }
        nth_fibonacci(n - 1) + nth_fibonacci(n - 2)
    }
}

/// The character for one decimal digit.
pub open spec fn digit_char(d: nat) -> char
    recommends
        d < 10,
{
    if d == 0 {
        '0'
    } else if d == 1 {
        '1'
    } else if d == 2 {
        '2'
    } else if d == 3 {
        '3'
    } else if d == 4 {
        '4'
    } else if d == 5 {
        '5'
    } else if d == 6 {
        '6'
    } else if d == 7 {
        '7'
    } else if d == 8 {
        '8'
    } else {
        '9'
    }
}

/// The decimal digits of `n`, most significant first, with no leading
/// zeroes (zero itself is the single digit `'0'`).
pub open spec fn decimal_digits(n: nat) -> Seq<char>
    decreases n,
{
    if n < 10 {
        seq![digit_char(n)]
    } else {
        decimal_digits(n / 10).push(digit_char(n % 10))
    }
}

/// The string for one decimal digit.
fn digit_str(d: u64) -> (r: &'static str)
    requires
        d < 10,
    ensures
        r@ == seq![digit_char(d as nat)],
{
    proof {
        reveal_strlit("0");
        reveal_strlit("1");
        reveal_strlit("2");
        reveal_strlit("3");
        reveal_strlit("4");
        reveal_strlit("5");
        reveal_strlit("6");
        reveal_strlit("7");
        reveal_strlit("8");
        reveal_strlit("9");
    }
    if d == 0 {
        proof {
            assert("0"@ =~= seq![digit_char(0)]);
        }
        "0"
    } else if d == 1 {
        proof {
            assert("1"@ =~= seq![digit_char(1)]);
        }
        "1"
    } else if d == 2 {
        proof {
            assert("2"@ =~= seq![digit_char(2)]);
        }
        "2"
    } else if d == 3 {
        proof {
            assert("3"@ =~= seq![digit_char(3)]);
        }
        "3"
    } else if d == 4 {
        proof {
            assert("4"@ =~= seq![digit_char(4)]);
        }
        "4"
    } else if d == 5 {
        proof {
            assert("5"@ =~= seq![digit_char(5)]);
        }
        "5"
    } else if d == 6 {
        proof {
            assert("6"@ =~= seq![digit_char(6)]);
        }
        "6"
    } else if d == 7 {
        proof {
            assert("7"@ =~= seq![digit_char(7)]);
        }
        "7"
    } else if d == 8 {
        proof {
            assert("8"@ =~= seq![digit_char(8)]);
        }
        "8"
    } else {
        proof {
            assert("9"@ =~= seq![digit_char(9)]);
        }
        "9"
    }
}

/// Renders `n` in decimal.
pub fn u64_to_string(n: u64) -> (s: String)
    ensures
        s@ == decimal_digits(n as nat),
{
    if n == 0 {
        let s = digit_str(0).to_owned();
        return s;
    }
    let mut m = n;
    let mut s = String::new();
    while m > 0
        invariant
            n > 0,
            m > 0 ==> decimal_digits(n as nat) == decimal_digits(m as nat) + s@,
            m == 0 ==> decimal_digits(n as nat) == s@,
        decreases m,
    {
        let d = m % 10;
        let digit = digit_str(d);
        let prev = s;
        let mut next = digit.to_owned();
        next.append(prev.as_str());
        s = next;
        proof {
            if m >= 10 {
                assert(decimal_digits(m as nat) == decimal_digits((m as nat) / 10).push(
                    digit_char((m as nat) % 10),
                ));
                assert(decimal_digits((m as nat) / 10).push(digit_char((m as nat) % 10)) + prev@
                    =~= decimal_digits((m as nat) / 10) + s@);
            } else {
                assert(decimal_digits(m as nat) =~= seq![digit_char(m as nat)]);
                assert(seq![digit_char(m as nat)] + prev@ =~= s@);
            }
            assert((m as nat) / 10 == (m / 10) as nat);
        }
        m = m / 10;
    }
    s
}

/// `digits` grouped in threes from the right, separated by commas.
pub open spec fn comma_grouped(ds: Seq<char>) -> Seq<char>
    decreases ds.len(),
{
    if ds.len() <= 3 {
        ds
    } else {
        comma_grouped(ds.take(ds.len() - 3)) + seq![','] + ds.skip(ds.len() - 3)
    }
}

/// Relies on num-format's `ToFormattedString` with `Locale::en`: decimal
/// digits grouped in threes from the right, separated by `","`.
#[verifier::external_body]
fn format_grouped(n: u64) -> (r: String)
    ensures
        r@ == comma_grouped(decimal_digits(n as nat)),
{
    n.to_formatted_string(&num_format::Locale::en)
}

/// The `n`-th Fibonacci number, rendered with thousands separators.
pub fn nth_fibonacci_formatted(n: u64) -> (r: String)
    requires
        spec_fib(n as nat) <= u64::MAX,
    ensures
        r@ == comma_grouped(decimal_digits(spec_fib(n as nat))),
{
    let f = nth_fibonacci(n);
    format_grouped(f)
}

} // verus!
