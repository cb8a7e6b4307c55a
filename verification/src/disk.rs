//! Disk space as the diagnostics page shows it.
use crate::text::{dec, extend_str, push_dec, string_of};
use vstd::prelude::*;

verus! {

#[derive(Clone, Copy, PartialEq, Eq, Structural, Debug)]
pub enum DiskUsageLevel {
    Normal,
    Warning,
    Critical,
}

impl DiskUsageLevel {
    pub fn css_class(self) -> (r: &'static str)
        ensures
            r@ == match self {
                DiskUsageLevel::Normal => "ok"@,
                DiskUsageLevel::Warning => "warn"@,
                DiskUsageLevel::Critical => "bad"@,
            },
    {
        match self {
            DiskUsageLevel::Normal => "ok",
            DiskUsageLevel::Warning => "warn",
            DiskUsageLevel::Critical => "bad",
        }
    }

    pub fn label(self) -> (r: &'static str)
        ensures
            r@ == match self {
                DiskUsageLevel::Normal => "ausreichend"@,
                DiskUsageLevel::Warning => "beobachten"@,
                DiskUsageLevel::Critical => "kritisch"@,
            },
    {
        match self {
            DiskUsageLevel::Normal => "ausreichend",
            DiskUsageLevel::Warning => "beobachten",
            DiskUsageLevel::Critical => "kritisch",
        }
    }
}

/// The product, saturated at `u64::MAX`.
pub fn multiply_to_u64(left: u128, right: u128) -> (r: u64)
    ensures
        r == if left * right > u64::MAX {
            u64::MAX as int
        } else {
            left * right
        },
{
    match left.checked_mul(right) {
        Some(p) => if p > 18446744073709551615u128 {
            u64::MAX
        } else {
            p as u64
        },
        None => u64::MAX,
    }
}

// ------------------------------------------------------------------
// Byte counts in binary units
// ------------------------------------------------------------------

pub open spec fn pow2(e: nat) -> nat
    decreases e,
{
    if e == 0 {
        1
    } else {
        2 * pow2((e - 1) as nat)
    }
}

/// How often `n` must be halved to fit in 53 bits.
pub open spec fn shift_of(n: nat) -> nat
    decreases n,
{
    if n < 9007199254740992 {
        0
    } else {
        1 + shift_of(n / 2)
    }
}

/// `n / d` rounded to the nearest integer, ties to the even one.
pub open spec fn div_round_even(n: nat, d: nat) -> nat
    recommends
        d > 0,
{
    let q = n / d;
    let r = n % d;
    if 2 * r > d || (2 * r == d && q % 2 == 1) {
        q + 1
    } else {
        q
    }
}

/// The value of `n` as a double: exact up to 2^53, above that rounded to
/// 53 significant bits, ties to even.
pub open spec fn as_double(n: nat) -> nat {
    div_round_even(n, pow2(shift_of(n))) * pow2(shift_of(n))
}

/// The size of the binary unit: KiB, MiB, GiB, TiB, PiB.
pub open spec fn unit_size(k: nat) -> nat {
    if k == 1 {
        1024
    } else if k == 2 {
        1048576
    } else if k == 3 {
        1073741824
    } else if k == 4 {
        1099511627776
    } else {
        1125899906842624
    }
}

/// One decimal of `v` in the unit, rounded as `{:.1}` rounds: to the
/// nearest tenth, ties to even.
pub open spec fn tenths(v: nat, k: nat) -> nat {
    div_round_even(10 * v, unit_size(k))
}

pub open spec fn unit_name(k: nat) -> Seq<char> {
    if k == 1 {
        "KiB"@
    } else if k == 2 {
        "MiB"@
    } else if k == 3 {
        "GiB"@
    } else if k == 4 {
        "TiB"@
    } else {
        "PiB"@
    }
}

/// The largest binary unit (at most PiB) that the value reaches.
pub open spec fn unit_of(v: nat) -> nat {
    if v >= 1125899906842624 {
        5
    } else if v >= 1099511627776 {
        4
    } else if v >= 1073741824 {
        3
    } else if v >= 1048576 {
        2
    } else if v >= 1024 {
        1
    } else {
        0
    }
}

/// A byte count as `N B` below one KiB, else with one decimal, a decimal
/// comma and the largest binary unit it reaches.
pub open spec fn bytes_text(bytes: u64) -> Seq<char> {
    let v = as_double(bytes as nat);
    let k = unit_of(v);
    if k == 0 {
        dec(bytes as nat) + " B"@
    } else {
        let t = tenths(v, k);
        dec(t / 10) + ","@ + dec(t % 10) + " "@ + unit_name(k)
    }
}

fn round_even(n: u128, d: u128) -> (r: u128)
    requires
        d > 0,
        n / d < u128::MAX,
    ensures
        r == div_round_even(n as nat, d as nat),
        r <= n / d + 1,
{
    let q = n / d;
    let rem = n % d;
    assert(rem < d);
    if rem > d - rem || (rem == d - rem && q % 2 == 1) {
        q + 1
    } else {
        q
    }
}

/// The byte count as a double would hold it.
fn double_value(bytes: u64) -> (r: u128)
    ensures
        r == as_double(bytes as nat),
        r <= 10 * 18446744073709551616,
{
    let n = bytes as u128;
    let mut m: u128 = n;
    let mut p: u128 = 1;
    let ghost mut s: nat = 0;
    assert(n / 1 == n);
    while m >= 9007199254740992
        invariant
            n == bytes as u128,
            p > 0,
            p == pow2(s),
            m == n / p,
            shift_of(n as nat) == s + shift_of(m as nat),
            p <= 4096,
        decreases m,
    {
        assert(p * m <= n) by (nonlinear_arith)
            requires
                m == n / p,
                p > 0,
        {
            vstd::arithmetic::div_mod::lemma_fundamental_div_mod(n as int, p as int);
        }
        assert(p <= 2048) by (nonlinear_arith)
            requires
                p * m <= n,
                m >= 9007199254740992,
                n < 18446744073709551616,
        ;
        proof {
            vstd::arithmetic::div_mod::lemma_div_denominator(n as int, p as int, 2);
        }
        m = m / 2;
        proof {
            s = s + 1;
        }
        p = p * 2;
    }
    let q = round_even(n, p);
    assert(q * p <= 9007199254740992 * 4096) by (nonlinear_arith)
        requires
            q <= m + 1,
            m < 9007199254740992,
            p <= 4096,
    ;
    q * p
}

/// `bytes` in binary units, as the diagnostics page shows it.
pub fn format_bytes(bytes: u64) -> (r: String)
    ensures
        r@ == bytes_text(bytes),
{
    let v = double_value(bytes);
    let k: u64 = if v >= 1125899906842624 {
        5
    } else if v >= 1099511627776 {
        4
    } else if v >= 1073741824 {
        3
    } else if v >= 1048576 {
        2
    } else if v >= 1024 {
        1
    } else {
        0
    };
    let mut out: Vec<char> = Vec::new();
    if k == 0 {
        push_dec(&mut out, bytes);
        extend_str(&mut out, " B");
        return string_of(&out);
    }
    let d: u128 = if k == 1 {
        1024
    } else if k == 2 {
        1048576
    } else if k == 3 {
        1073741824
    } else if k == 4 {
        1099511627776
    } else {
        1125899906842624
    };
    let t = round_even(10 * v, d);
    proof {
        let n: int = 10 * v;
        let dd: int = d as int;
        assert(t <= n / dd + 1);
        vstd::arithmetic::div_mod::lemma_div_is_ordered_by_denominator(n, 1024, dd);
        assert(n / 1024 <= 100 * 18446744073709551616 / 1024) by {
            vstd::arithmetic::div_mod::lemma_div_is_ordered(n, 1844674407370955161600int, 1024);
        }
        assert(t / 10 <= u64::MAX);
    }
    let whole = (t / 10) as u64;
    let tenth = (t % 10) as u64;
    push_dec(&mut out, whole);
    extend_str(&mut out, ",");
    push_dec(&mut out, tenth);
    extend_str(&mut out, " ");
    let unit = if k == 1 {
        "KiB"
    } else if k == 2 {
        "MiB"
    } else if k == 3 {
        "GiB"
    } else if k == 4 {
        "TiB"
    } else {
        "PiB"
    };
    extend_str(&mut out, unit);
    string_of(&out)
}

} // verus!
