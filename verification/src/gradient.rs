//! Linear interpolation between two colours, channel by channel, in exact
//! integer arithmetic.

use vstd::prelude::*;
use crate::color::Rgba8;

verus! {

/// The weighted sum behind one channel of step `i` out of `last`: `start`
/// has weight `last - i`, `end` has weight `i`.
pub open spec fn weighted(start: u8, end: u8, i: int, last: int) -> int {
    start as int * (last - i) + end as int * i
}

/// One channel of step `i` of a gradient whose last step is `last`: the
/// value `start + (end - start) * i / last`, rounded to the nearest integer,
/// a half rounded up.
pub open spec fn blend(start: u8, end: u8, i: int, last: int) -> int {
    (2 * weighted(start, end, i, last) + last) / (2 * last)
}

/// The colour of step `i` of a gradient whose last step is `last`.
pub open spec fn gradient_color(start: Rgba8, end: Rgba8, i: int, last: int) -> Rgba8 {
    Rgba8 {
        r: blend(start.r, end.r, i, last) as u8,
        g: blend(start.g, end.g, i, last) as u8,
        b: blend(start.b, end.b, i, last) as u8,
        a: blend(start.a, end.a, i, last) as u8,
    }
}

/// The `number` colours of a gradient from `start` to `end`.
pub open spec fn gradient_colors(start: Rgba8, end: Rgba8, number: int) -> Seq<Rgba8> {
    Seq::new(number as nat, |i: int| gradient_color(start, end, i, number - 1))
}

/// A blended channel lies between its two ends, so it is a channel value.
pub proof fn lemma_blend_between(start: u8, end: u8, i: int, last: int)
    requires
        0 <= i <= last,
        0 < last,
    ensures
        start <= end ==> start <= blend(start, end, i, last) <= end,
        end <= start ==> end <= blend(start, end, i, last) <= start,
        0 <= blend(start, end, i, last) <= 255,
{
    let s = start as int;
    let e = end as int;
    let w = weighted(start, end, i, last);
    assert(w == s * last + (e - s) * i) by (nonlinear_arith)
        requires
            w == s * (last - i) + e * i,
    ;
    if s <= e {
        assert(s * last <= s * last + (e - s) * i <= e * last) by (nonlinear_arith)
            requires
                0 <= i <= last,
                0 <= e - s,
        ;
        lemma_rounded_quotient_between(w, last, s, e);
    } else {
        assert(e * last <= s * last + (e - s) * i <= s * last) by (nonlinear_arith)
            requires
                0 <= i <= last,
                e - s <= 0,
        ;
        lemma_rounded_quotient_between(w, last, e, s);
    }
}

/// Rounding `w / last` to the nearest integer keeps it between two integers
/// that `w / last` lies between.
proof fn lemma_rounded_quotient_between(w: int, last: int, low: int, high: int)
    requires
        0 < last,
        low * last <= w <= high * last,
    ensures
        low <= (2 * w + last) / (2 * last) <= high,
{
    assert(low <= (2 * w + last) / (2 * last) <= high) by (nonlinear_arith)
        requires
            0 < last,
            low * last <= w <= high * last,
    ;
}

/// A gradient starts at its first colour and ends at its second, exactly.
pub proof fn lemma_gradient_endpoints(start: Rgba8, end: Rgba8, number: int)
    requires
        2 <= number,
    ensures
        gradient_colors(start, end, number).len() == number,
        gradient_colors(start, end, number).first() == start,
        gradient_colors(start, end, number).last() == end,
{
    let last = number - 1;
    lemma_blend_ends(start.r, end.r, last);
    lemma_blend_ends(start.g, end.g, last);
    lemma_blend_ends(start.b, end.b, last);
    lemma_blend_ends(start.a, end.a, last);
}

/// Along a gradient, a channel that does not fall from the first colour to
/// the second does not fall from one colour to the next.
pub proof fn lemma_gradient_monotonic(start: Rgba8, end: Rgba8, number: int, i: int)
    requires
        0 <= i < number - 1,
    ensures
        start.r <= end.r ==> gradient_colors(start, end, number)[i].r <= gradient_colors(
            start,
            end,
            number,
        )[i + 1].r,
        start.g <= end.g ==> gradient_colors(start, end, number)[i].g <= gradient_colors(
            start,
            end,
            number,
        )[i + 1].g,
        start.b <= end.b ==> gradient_colors(start, end, number)[i].b <= gradient_colors(
            start,
            end,
            number,
        )[i + 1].b,
        start.a <= end.a ==> gradient_colors(start, end, number)[i].a <= gradient_colors(
            start,
            end,
            number,
        )[i + 1].a,
{
    let last = number - 1;
    lemma_channel_monotonic(start.r, end.r, i, last);
    lemma_channel_monotonic(start.g, end.g, i, last);
    lemma_channel_monotonic(start.b, end.b, i, last);
    lemma_channel_monotonic(start.a, end.a, i, last);
}

/// From one step to the next, a channel that rises from `start` to `end`
/// does not fall, also once it is stored in eight bits.
proof fn lemma_channel_monotonic(start: u8, end: u8, i: int, last: int)
    requires
        0 <= i < last,
    ensures
        start <= end ==> blend(start, end, i, last) as u8 <= blend(start, end, i + 1, last) as u8,
{
    if start <= end {
        lemma_blend_between(start, end, i, last);
        lemma_blend_between(start, end, i + 1, last);
        lemma_blend_monotonic(start, end, i, last);
    }
}

/// From one step to the next, a channel that rises from `start` to `end`
/// does not fall.
proof fn lemma_blend_monotonic(start: u8, end: u8, i: int, last: int)
    requires
        start <= end,
        0 <= i < last,
    ensures
        blend(start, end, i, last) <= blend(start, end, i + 1, last),
{
    let s = start as int;
    let e = end as int;
    let w0 = weighted(start, end, i, last);
    let w1 = weighted(start, end, i + 1, last);
    assert(w1 == w0 + (e - s)) by (nonlinear_arith)
        requires
            w0 == s * (last - i) + e * i,
            w1 == s * (last - (i + 1)) + e * (i + 1),
    ;
    assert((2 * w0 + last) / (2 * last) <= (2 * w1 + last) / (2 * last)) by (nonlinear_arith)
        requires
            w0 <= w1,
            0 < last,
    ;
}

/// Step 0 of a channel is its start, and the last step is its end.
proof fn lemma_blend_ends(start: u8, end: u8, last: int)
    requires
        0 < last,
    ensures
        blend(start, end, 0, last) == start,
        blend(start, end, last, last) == end,
{
    let s = start as int;
    let e = end as int;
    assert(weighted(start, end, 0, last) == s * last) by (nonlinear_arith)
        requires
            weighted(start, end, 0, last) == s * (last - 0) + e * 0,
    ;
    assert(weighted(start, end, last, last) == e * last) by (nonlinear_arith)
        requires
            weighted(start, end, last, last) == s * (last - last) + e * last,
    ;
    lemma_rounded_quotient_between(s * last, last, s, s);
    lemma_rounded_quotient_between(e * last, last, e, e);
}

/// Computes one channel of step `i` of a gradient whose last step is `last`.
pub(crate) fn blend_component(start: u8, end: u8, i: usize, last: usize) -> (value: u8)
    requires
        0 < last <= 255,
        i <= last,
    ensures
        value == blend(start, end, i as int, last as int),
{
    let s: u32 = start as u32;
    let e: u32 = end as u32;
    let at: u32 = i as u32;
    let span: u32 = last as u32;
    proof {
        lemma_blend_between(start, end, i as int, last as int);
        assert(0 <= s * (span - at) <= 255 * 255 && 0 <= e * at <= 255 * 255) by (nonlinear_arith)
            requires
                0 <= s <= 255,
                0 <= e <= 255,
                0 <= at <= span <= 255,
        ;
    }
    let sum: u32 = s * (span - at) + e * at;
    let rounded: u32 = (2 * sum + span) / (2 * span);
    rounded as u8
}

/// Computes the colour of step `i` of a gradient whose last step is `last`.
pub(crate) fn blend_color(start: Rgba8, end: Rgba8, i: usize, last: usize) -> (color: Rgba8)
    requires
        0 < last <= 255,
        i <= last,
    ensures
        color == gradient_color(start, end, i as int, last as int),
{
    Rgba8 {
        r: blend_component(start.r, end.r, i, last),
        g: blend_component(start.g, end.g, i, last),
        b: blend_component(start.b, end.b, i, last),
        a: blend_component(start.a, end.a, i, last),
    }
}

} // verus!
