//! Clock-style rendering of durations and of paces.
use vstd::prelude::*;

use crate::text::{decimal, push_decimal, push_two_digits, two_digits};

verus! {

/// `t` seconds as `M:SS`, or as `H:MM:SS` once the minutes reach sixty.
pub open spec fn clock_text(t: nat) -> Seq<char> {
    let min = t / 60;
    let sec = t % 60;
    if min >= 60 {
        decimal(min / 60) + seq![':'] + two_digits(min % 60) + seq![':'] + two_digits(sec)
    } else {
        decimal(min) + seq![':'] + two_digits(sec)
    }
}

/// The text of a signed duration: a negative one is its magnitude behind a minus sign.
pub open spec fn duration_text(t: int) -> Seq<char> {
    if t < 0 {
        seq!['-'] + clock_text((-t) as nat)
    } else {
        clock_text(t as nat)
    }
}

/// `n / d` rounded to the nearest integer, halves away from zero.
pub open spec fn rounded_quotient(n: int, d: int) -> int
    recommends
        d != 0,
{
    let an = if n < 0 { -n } else { n };
    let ad = if d < 0 { -d } else { d };
    let q = (2 * an + ad) / (2 * ad);
    if (n < 0) != (d < 0) {
        -q
    } else {
        q
    }
}

/// The time it takes to cover `reference` at the speed of covering `actual` in `moving_time`.
pub open spec fn pace_seconds(reference: int, actual: int, moving_time: int) -> int {
    rounded_quotient(moving_time * reference, actual)
}

/// Why a pace cannot be rendered.
#[derive(Debug, Clone, Copy, PartialEq, Eq, Structural)]
pub enum FormatError {
    /// The distance covered is zero, so no speed is defined.
    DivideByZero,
}

/// Renders a duration in seconds as `M:SS`, or `H:MM:SS` once an hour is reached.
/// Only the seconds, and the minutes when hours are shown, are zero-padded.
pub fn format_time(moving_time: i128) -> (r: String)
    ensures
        r@ == duration_text(moving_time as int),
{
    let mut time = String::new();
    let magnitude: u128 = if moving_time < 0 {
        time.append("-");
        ((-(moving_time + 1)) as u128) + 1
    } else {
        moving_time as u128
    };
    let min: u128 = magnitude / 60;
    let sec: u128 = magnitude % 60;
    if min >= 60 {
        push_decimal(&mut time, min / 60);
        time.append(":");
        push_two_digits(&mut time, min % 60);
    } else {
        push_decimal(&mut time, min);
    }
    time.append(":");
    push_two_digits(&mut time, sec);
    proof {
        reveal_strlit("-");
        reveal_strlit(":");
        assert(time@ =~= duration_text(moving_time as int));
    }
    time
}

/// Renders the pace of covering `actual_distance` in `moving_time` seconds, per
/// `reference_distance` (both distances in one unit), rounded to whole seconds.
pub fn format_pace(reference_distance: u32, actual_distance: i64, moving_time: i64) -> (r: Result<
    String,
    FormatError,
>)
    ensures
        actual_distance == 0 <==> r is Err,
        r is Err ==> r->Err_0 == FormatError::DivideByZero,
        r is Ok ==> r->Ok_0@ == duration_text(
            pace_seconds(reference_distance as int, actual_distance as int, moving_time as int),
        ),
{
    if actual_distance == 0 {
        return Err(FormatError::DivideByZero);
    }
    assert(-0x8000_0000_0000_0000 * 0x1_0000_0000 <= moving_time as int * reference_distance as int
        <= 0x8000_0000_0000_0000 * 0x1_0000_0000) by (nonlinear_arith)
        requires
            -0x8000_0000_0000_0000 <= moving_time <= 0x7fff_ffff_ffff_ffff,
            0 <= reference_distance <= 0xffff_ffff,
    ;
    let n: i128 = moving_time as i128 * reference_distance as i128;
    let d: i128 = actual_distance as i128;
    let an: i128 = if n < 0 { -n } else { n };
    let ad: i128 = if d < 0 { -d } else { d };
    let q: i128 = (2 * an + ad) / (2 * ad);
    let pace: i128 = if (n < 0) != (d < 0) { -q } else { q };
    Ok(format_time(pace))
}

} // verus!
