//! Calendar time as seconds and nanoseconds since a fixed reference.
use vstd::prelude::*;

verus! {

/// A point in time: whole seconds and nanoseconds since a fixed reference.
#[derive(Clone, Copy, Debug, PartialEq, Eq, Structural)]
pub struct Timespec {
    pub sec: i64,
    pub nsec: i32,
}

impl Timespec {
    /// The time `sec` seconds and `nsec` nanoseconds after the reference.
    pub fn new(sec: i64, nsec: i32) -> (r: Timespec)
        ensures
            r.sec == sec,
            r.nsec == nsec,
    {
        Timespec { sec, nsec }
    }
}

/// The time `sec` seconds and `nsec` nanoseconds after the reference.
pub fn get_time(sec: i64, nsec: i32) -> (r: Timespec)
    ensures
        r.sec == sec,
        r.nsec == nsec,
{
    Timespec::new(sec, nsec)
}

/// The reference itself.
pub fn get_zero_time() -> (r: Timespec)
    ensures
        r.sec == 0,
        r.nsec == 0,
{
    Timespec::new(0, 0)
}

/// Ten to the power of `n`.
pub open spec fn pow10(n: nat) -> nat
    decreases n,
{
    if n == 0 {
        1
    } else {
        10 * pow10((n - 1) as nat)
    }
}

/// Every byte is an ASCII decimal digit.
pub open spec fn all_digits(s: Seq<u8>) -> bool {
    forall|i: int| 0 <= i < s.len() ==> 0x30 <= #[trigger] s[i] <= 0x39
}

/// The number that a string of ASCII decimal digits spells.
pub open spec fn digits_value(s: Seq<u8>) -> nat
    decreases s.len(),
{
    if s.len() == 0 {
        0
    } else {
        digits_value(s.drop_last()) * 10 + (s.last() - 0x30) as nat
    }
}

/// The nanoseconds that the fraction after the seconds of an ASD time string
/// stands for: nothing, or a separator alone, is zero; a separator followed by
/// one to nine decimal digits is that decimal fraction of a second. Anything
/// else is not a fraction.
pub fn fraction_nsec(fraction: &[u8]) -> (r: Option<i32>)
    ensures
        fraction@.len() <= 1 ==> r == Some(0i32),
        2 <= fraction@.len() <= 10 && all_digits(fraction@.skip(1)) ==> r == Some(
            (digits_value(fraction@.skip(1)) * pow10((10 - fraction@.len()) as nat)) as i32,
        ),
        2 <= fraction@.len() <= 10 && all_digits(fraction@.skip(1)) ==> digits_value(fraction@.skip(1))
            * pow10((10 - fraction@.len()) as nat) < 1_000_000_000,
        !(fraction@.len() <= 1 || (fraction@.len() <= 10 && all_digits(fraction@.skip(1)))) ==> r is None,
{
    let len = fraction.len();
    if len <= 1 {
        return Some(0);
    }
    if len > 10 {
        return None;
    }
    let mut value: u64 = 0;
    let mut i: usize = 1;
    while i < len
        invariant
            2 <= len <= 10,
            len == fraction@.len(),
            1 <= i <= len,
            all_digits(fraction@.subrange(1, i as int)),
            value as nat == digits_value(fraction@.subrange(1, i as int)),
            value < pow10((i - 1) as nat),
            pow10((i - 1) as nat) <= 1_000_000_000,
        decreases len - i,
    {
        let b = fraction[i];
        if b < 0x30 || b > 0x39 {
            proof {
                assert(fraction@.skip(1)[i - 1] == b);
            }
            return None;
        }
        proof {
            let t = fraction@.subrange(1, i + 1);
            assert(t.drop_last() =~= fraction@.subrange(1, i as int));
            assert(t.last() == b);
            assert(all_digits(t)) by {
                assert forall|j: int| 0 <= j < t.len() implies 0x30 <= #[trigger] t[j] <= 0x39 by {
                    if j < t.len() - 1 {
                        assert(t[j] == fraction@.subrange(1, i as int)[j]);
                    }
                }
            }
            assert(pow10(i as nat) == 10 * pow10((i - 1) as nat));
            lemma_pow10_add((i - 1) as nat, 1);
            lemma_pow10_mono(i as nat, 9);
            reveal_with_fuel(pow10, 10);
        }
        value = value * 10 + (b - 0x30) as u64;
        i += 1;
    }
    proof {
        assert(fraction@.subrange(1, len as int) =~= fraction@.skip(1));
    }
    let mut scale: u64 = 1;
    let mut k: usize = len;
    proof {
        assert(pow10(0) == 1);
    }
    while k < 10
        invariant
            2 <= len <= k <= 10,
            scale as nat == pow10((k - len) as nat),
            pow10((k - len) as nat) <= 1_000_000_000,
        decreases 10 - k,
    {
        proof {
            assert(pow10((k + 1 - len) as nat) == 10 * pow10((k - len) as nat));
            lemma_pow10_mono((k + 1 - len) as nat, 9);
            reveal_with_fuel(pow10, 10);
        }
        scale = scale * 10;
        k += 1;
    }
    proof {
        let p = pow10((len - 1) as nat);
        lemma_pow10_add((len - 1) as nat, (10 - len) as nat);
        reveal_with_fuel(pow10, 10);
        assert(pow10(9) == 1_000_000_000);
        assert((value as int) * (scale as int) < p * (scale as int)) by (nonlinear_arith)
            requires
                value < p,
                scale > 0,
        ;
        assert(p * (scale as int) == 1_000_000_000);
    }
    Some((value * scale) as i32)
}

/// Multiplying powers of ten adds their exponents.
proof fn lemma_pow10_add(a: nat, b: nat)
    ensures
        pow10(a) * pow10(b) == pow10(a + b),
    decreases a,
{
    if a == 0 {
        assert(pow10(0) == 1);
    } else {
        lemma_pow10_add((a - 1) as nat, b);
        assert(pow10(a + b) == 10 * pow10(((a - 1) + b) as nat));
        assert(pow10(a) * pow10(b) == 10 * (pow10((a - 1) as nat) * pow10(b))) by (nonlinear_arith)
            requires
                pow10(a) == 10 * pow10((a - 1) as nat),
        ;
    }
}

proof fn lemma_pow10_mono(a: nat, b: nat)
    requires
        a <= b,
    ensures
        pow10(a) <= pow10(b),
        pow10(a) >= 1,
        b <= 9 ==> pow10(b) <= 1_000_000_000,
    decreases b,
{
    reveal_with_fuel(pow10, 10);
    if a < b {
        lemma_pow10_mono(a, (b - 1) as nat);
    } else if b > 0 {
        lemma_pow10_mono((b - 1) as nat, (b - 1) as nat);
    }
}

} // verus!
