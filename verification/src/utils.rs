//! Helpers that turn raw figures into what a report shows.

use vstd::prelude::*;
use vstd::arithmetic::div_mod::lemma_div_denominator;
use crate::text::{decimal_digits, decimal_string, digit_char, digit_str};

verus! {

/// The share of `total` that `free` makes up, in whole percent, rounded
/// down; zero when there is nothing to take a share of.
pub open spec fn percent_free(total: nat, free: nat) -> nat {
    if total == 0 {
        0
    } else {
        free * 100 / total
    }
}

/// The share as a `u64` can show it: the share itself, or the largest
/// `u64` where the share is larger still.
pub open spec fn shown_percent(total: nat, free: nat) -> nat {
    if percent_free(total, free) <= u64::MAX {
        percent_free(total, free)
    } else {
        u64::MAX as nat
    }
}

/// Whole percent of `total` that is `free`: `free * 100 / total`, rounded
/// down. A `total` of zero gives zero. Where `free` is so much more than
/// `total` that the share does not fit a `u64`, the largest `u64` is
/// returned; this cannot happen while `free` is no more than `total`.
pub fn conv_p(total: u64, free: u64) -> (percent: u64)
    ensures
        percent == shown_percent(total as nat, free as nat),
        total == 0 ==> percent == 0,
        total != 0 && free * 100 / (total as int) <= u64::MAX ==> percent == free * 100 / (
        total as int),
        0 < total && free <= total ==> percent <= 100,
{
    if total != 0 {
        let wide: u128 = free as u128 * 100 / total as u128;
        assert(free <= total ==> free * 100 / (total as int) <= 100) by (nonlinear_arith)
            requires
                total > 0,
        ;
        if wide > u64::MAX as u128 {
            u64::MAX
        } else {
            wide as u64
        }
    } else {
        0
    }
}

/// The largest byte count shown without scaling, and the factor between
/// one unit and the next.
pub const UNIT_STEP: u64 = 1024;

/// The number of units: bytes, KB, MB, GB and TB.
pub const UNIT_COUNT: u8 = 5;

/// Byte counts below this are held exactly by 53 binary digits.
pub const EXACT_LIMIT: u64 = 0x20_0000_0000_0000;

/// How many bytes one of unit `unit` holds: 1024 to the power `unit`.
pub open spec fn unit_scale(unit: nat) -> nat
    decreases unit,
{
    if unit == 0 {
        1
    } else {
        1024 * unit_scale((unit - 1) as nat)
    }
}

/// The unit a byte count is shown in: the first of bytes, KB, MB, GB whose
/// scaled value is below 1024, and TB for everything larger.
pub open spec fn unit_index(bytes: nat) -> nat {
    if bytes < unit_scale(1) {
        0
    } else if bytes < unit_scale(2) {
        1
    } else if bytes < unit_scale(3) {
        2
    } else if bytes < unit_scale(4) {
        3
    } else {
        4
    }
}

/// The name of unit `unit` as the report spells it.
pub open spec fn unit_label(unit: nat) -> Seq<char> {
    if unit == 0 {
        seq!['B']
    } else if unit == 1 {
        seq!['K', 'B']
    } else if unit == 2 {
        seq!['M', 'B']
    } else if unit == 3 {
        seq!['G', 'B']
    } else {
        seq!['T', 'B']
    }
}

/// `num / den` rounded to the nearest whole number; a value exactly half
/// way between two goes to the even one.
pub open spec fn round_half_even(num: nat, den: nat) -> nat {
    let q = num / den;
    let r = num % den;
    if 2 * r > den || (2 * r == den && q % 2 == 1) {
        q + 1
    } else {
        q
    }
}

/// The distance between neighbouring numbers that 53 binary digits can
/// hold, at the size of `n`: one up to 2^53, doubling with each further bit.
pub open spec fn precision_step(n: nat) -> nat
    decreases n,
{
    if n < EXACT_LIMIT {
        1
    } else {
        2 * precision_step(n / 2)
    }
}

/// `n` held to 53 significant binary digits, the nearest such number with
/// ties going to the even one. Every count below 2^53 is kept as it is.
pub open spec fn held_value(n: nat) -> nat {
    round_half_even(n, precision_step(n)) * precision_step(n)
}

/// The scaled value of `bytes` in hundredths of its unit, rounded half to
/// even.
pub open spec fn scaled_hundredths(bytes: nat) -> nat {
    round_half_even(held_value(bytes) * 100, unit_scale(unit_index(bytes)))
}

/// The text a byte count is shown as: a plain count and `B` below 1024,
/// otherwise the scaled value with two decimals and the unit's name.
pub open spec fn scaled_text(bytes: nat) -> Seq<char> {
    let unit = unit_index(bytes);
    if unit == 0 {
        decimal_digits(bytes) + seq![' '] + unit_label(unit)
    } else {
        let h = scaled_hundredths(bytes);
        decimal_digits(h / 100) + seq!['.', digit_char(h / 10 % 10), digit_char(h % 10), ' ']
            + unit_label(unit)
    }
}

/// The scale of each unit, written out.
pub proof fn lemma_unit_scales()
    ensures
        unit_scale(0) == 1,
        unit_scale(1) == 0x400,
        unit_scale(2) == 0x10_0000,
        unit_scale(3) == 0x4000_0000,
        unit_scale(4) == 0x100_0000_0000,
        unit_scale(5) == 0x4_0000_0000_0000,
{
    reveal_with_fuel(unit_scale, 6);
}

/// The unit chosen for a byte count brings the scaled value below 1024
/// whenever any unit can (that is, below 1024 TB), and is the smallest unit
/// that does: in the unit before it the value is 1024 or more.
pub proof fn lemma_unit_selection(bytes: nat)
    ensures
        unit_index(bytes) < UNIT_COUNT,
        bytes < unit_scale(5) ==> bytes / unit_scale(unit_index(bytes)) < 1024,
        unit_index(bytes) > 0 ==> bytes / unit_scale((unit_index(bytes) - 1) as nat) >= 1024,
{
    lemma_unit_scales();
    let unit = unit_index(bytes);
    if unit == 0 {
        assert(bytes / 1 < 1024);
    } else if unit == 1 {
        assert(bytes / 0x400 < 1024);
        assert(bytes / 1 >= 1024);
    } else if unit == 2 {
        assert(bytes / 0x10_0000 < 1024);
        assert(bytes / 0x400 >= 1024);
    } else if unit == 3 {
        assert(bytes / 0x4000_0000 < 1024);
        assert(bytes / 0x10_0000 >= 1024);
    } else {
        assert(bytes < 0x4_0000_0000_0000 ==> bytes / 0x100_0000_0000 < 1024);
        assert(bytes / 0x4000_0000 >= 1024);
    }
}

/// The unit that `bytes` is shown in, as an index from 0 (bytes) to 4 (TB).
pub fn unit_of(bytes: u64) -> (unit: u8)
    ensures
        unit == unit_index(bytes as nat),
        unit < UNIT_COUNT,
        bytes < unit_scale(5) ==> bytes as nat / unit_scale(unit as nat) < 1024,
        unit > 0 ==> bytes as nat / unit_scale((unit - 1) as nat) >= 1024,
{
    proof {
        lemma_unit_scales();
        lemma_unit_selection(bytes as nat);
    }
    if bytes < UNIT_STEP {
        0
    } else if bytes < UNIT_STEP * UNIT_STEP {
        1
    } else if bytes < UNIT_STEP * UNIT_STEP * UNIT_STEP {
        2
    } else if bytes < UNIT_STEP * UNIT_STEP * UNIT_STEP * UNIT_STEP {
        3
    } else {
        4
    }
}

/// The name of unit `unit`.
pub fn unit_name(unit: u8) -> (s: &'static str)
    ensures
        s@ == unit_label(unit as nat),
{
    proof {
        reveal_strlit("B");
        reveal_strlit("KB");
        reveal_strlit("MB");
        reveal_strlit("GB");
        reveal_strlit("TB");
    }
    let s = if unit == 0 {
        "B"
    } else if unit == 1 {
        "KB"
    } else if unit == 2 {
        "MB"
    } else if unit == 3 {
        "GB"
    } else {
        "TB"
    };
    assert(s@ =~= unit_label(unit as nat));
    s
}

/// Divides and rounds half to even.
pub fn div_round_half_even(num: u128, den: u128) -> (q: u128)
    requires
        den > 0,
        den <= u64::MAX,
    ensures
        q == round_half_even(num as nat, den as nat),
        q <= num / den + 1,
{
    let q = num / den;
    let r = num % den;
    if 2 * r > den || (2 * r == den && q % 2 == 1) {
        assert(num / den < u128::MAX) by (nonlinear_arith)
            requires
                num % den > 0,
                den > 0,
                num <= u128::MAX,
        ;
        q + 1
    } else {
        q
    }
}

/// Holds `n` to 53 significant binary digits.
pub fn hold_to_precision(n: u64) -> (held: u128)
    ensures
        held == held_value(n as nat),
        n < EXACT_LIMIT ==> held == n,
        held < 0x2_0000_0000_0000_0000,
{
    let mut top: u64 = n;
    let mut step: u64 = 1;
    while top >= EXACT_LIMIT
        invariant
            step >= 1,
            top == n / step,
            top as int * step as int <= n,
            step == 1 || top >= 0x10_0000_0000_0000,
            precision_step(n as nat) == step * precision_step(top as nat),
        decreases top,
    {
        proof {
            lemma_div_denominator(n as int, step as int, 2);
            assert(step < 0x800) by (nonlinear_arith)
                requires
                    top >= 0x20_0000_0000_0000,
                    top as int * step as int <= n,
                    n <= u64::MAX,
                    step >= 1,
            ;
            assert((top / 2) as int * (step * 2) as int <= n) by (nonlinear_arith)
                requires
                    top as int * step as int <= n,
                    step >= 1,
            ;
            assert(step * (2 * precision_step((top / 2) as nat)) == (step * 2) * precision_step(
                (top / 2) as nat,
            )) by (nonlinear_arith);
        }
        top = top / 2;
        step = step * 2;
    }
    assert(precision_step(top as nat) == 1);
    assert(precision_step(n as nat) == step) by (nonlinear_arith)
        requires
            precision_step(n as nat) == step * precision_step(top as nat),
            precision_step(top as nat) == 1,
    ;
    let rounded = div_round_half_even(n as u128, step as u128);
    assert(rounded * step < 0x2_0000_0000_0000_0000) by (nonlinear_arith)
        requires
            rounded <= top + 1,
            top < 0x20_0000_0000_0000,
            step >= 1,
            top as int * step as int <= n,
            n <= u64::MAX,
            step == 1 || top >= 0x10_0000_0000_0000,
    ;
    rounded * step as u128
}

/// Renders a byte count for the report: below 1024 as the plain count
/// followed by ` B`; otherwise in the unit that brings the value below
/// 1024 (TB for anything beyond), with two decimals rounded half to even.
/// A count of 2^53 or more is first held to 53 significant binary digits.
pub fn conv_b(bytes: u64) -> (s: String)
    ensures
        s@ == scaled_text(bytes as nat),
        bytes < unit_scale(5) ==> bytes as nat / unit_scale(unit_index(bytes as nat)) < 1024,
        unit_index(bytes as nat) > 0 ==> bytes as nat / unit_scale(
            (unit_index(bytes as nat) - 1) as nat,
        ) >= 1024,
{
    let unit = unit_of(bytes);
    proof {
        reveal_strlit(" ");
        reveal_strlit(".");
        lemma_unit_scales();
    }
    if unit == 0 {
        let mut s = decimal_string(bytes);
        s.append(" ");
        s.append(unit_name(unit));
        assert(s@ =~= scaled_text(bytes as nat));
        s
    } else {
        let scale: u128 = if unit == 1 {
            0x400
        } else if unit == 2 {
            0x10_0000
        } else if unit == 3 {
            0x4000_0000
        } else {
            0x100_0000_0000
        };
        let held = hold_to_precision(bytes);
        let h = div_round_half_even(held * 100, scale);
        assert(h <= u64::MAX) by (nonlinear_arith)
            requires
                h <= (held * 100) / (scale as int) + 1,
                held < 0x2_0000_0000_0000_0000,
                scale >= 0x400,
        ;
        let mut s = decimal_string((h / 100) as u64);
        s.append(".");
        s.append(digit_str((h / 10 % 10) as u8));
        s.append(digit_str((h % 10) as u8));
        s.append(" ");
        s.append(unit_name(unit));
        assert(s@ =~= scaled_text(bytes as nat));
        s
    }
}

/// The longest span that can be shown has this many whole seconds: the
/// seconds in `i64::MAX` milliseconds.
pub const MAX_SPAN_SECONDS: u64 = 9_223_372_036_854_775;

/// The nanoseconds that may stand beside [`MAX_SPAN_SECONDS`].
pub const MAX_SPAN_NANOS: u32 = 807_000_000;

/// Nanoseconds in a second.
pub const NANOS_PER_SECOND: u32 = 1_000_000_000;

/// Whether a span of `secs` seconds and `nanos` nanoseconds can be shown:
/// it is no longer than `i64::MAX` milliseconds.
pub open spec fn span_in_range(secs: nat, nanos: nat) -> bool {
    nanos < NANOS_PER_SECOND && (secs < MAX_SPAN_SECONDS || (secs == MAX_SPAN_SECONDS && nanos
        <= MAX_SPAN_NANOS))
}

/// The whole days, hours, minutes and seconds in a span, each counted
/// over the whole span.
struct SpanCounts {
    days: i64,
    hours: i64,
    minutes: i64,
    seconds: i64,
}

/// Builds the span with `std::time::Duration::new`, converts it with
/// `chrono::Duration::from_std` and asks the result for `num_days`,
/// `num_hours`, `num_minutes` and `num_seconds`.
///
/// Trusted: the conversion succeeds exactly for spans of at most
/// `i64::MAX` milliseconds, and each count is the span's whole seconds
/// divided by the seconds in that unit, rounded down. With less than a
/// second of nanoseconds, building the span cannot overflow.
#[verifier::external_body]
fn span_counts(secs: u64, nanos: u32) -> (counts: Option<SpanCounts>)
    requires
        nanos < NANOS_PER_SECOND,
    ensures
        counts is Some <==> span_in_range(secs as nat, nanos as nat),
        counts matches Some(c) ==> c.days == secs / 86_400 && c.hours == secs / 3_600 && c.minutes
            == secs / 60 && c.seconds == secs,
{
    match chrono::Duration::from_std(std::time::Duration::new(secs, nanos)) {
        Ok(d) => Some(
            SpanCounts {
                days: d.num_days(),
                hours: d.num_hours(),
                minutes: d.num_minutes(),
                seconds: d.num_seconds(),
            },
        ),
        Err(_) => None,
    }
}

/// The text a span of `secs` seconds is shown as: its whole days, hours,
/// minutes and seconds, each counted over the whole span.
pub open spec fn span_text(secs: nat) -> Seq<char> {
    decimal_digits(secs / 86_400) + " days, "@ + decimal_digits(secs / 3_600) + " hours "@
        + decimal_digits(secs / 60) + " minutes "@ + decimal_digits(secs) + " seconds."@
}

/// Renders a span of `secs` seconds and `nanos` nanoseconds, such as an
/// uptime. The span must be one that can be shown.
pub fn conv_t(secs: u64, nanos: u32) -> (s: String)
    requires
        span_in_range(secs as nat, nanos as nat),
    ensures
        s@ == span_text(secs as nat),
{
    match span_counts(secs, nanos) {
        Some(counts) => {
            let mut s = decimal_string(counts.days as u64);
            s.append(" days, ");
            s.append(decimal_string(counts.hours as u64).as_str());
            s.append(" hours ");
            s.append(decimal_string(counts.minutes as u64).as_str());
            s.append(" minutes ");
            s.append(decimal_string(counts.seconds as u64).as_str());
            s.append(" seconds.");
            s
        },
        None => String::new(),
    }
}

} // verus!
