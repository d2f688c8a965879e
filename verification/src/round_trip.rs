//! A colour of 8-bit channels that goes to hue, saturation and value and
//! back loses at most one per channel, and never gains.

use vstd::prelude::*;
use crate::color_conversion::{
    channel_fraction, falling_fraction, fraction_channel, fractions_of, hsv_of, hue_of,
    low_fraction, max3, min3, quantized, rgb_of, rising_fraction, saturation_of, segment_offset,
    value_of, SEGMENT_SCALE,
};
use crate::colors::{HsvColor, RgbColor, RgbFraction};
use crate::units::{FULL_TURN, SEXTANT, UNIT};

verus! {

/// Whether `back` is `channel` or one less.
pub open spec fn at_most_one_below(channel: u8, back: u8) -> bool {
    back <= channel && channel - back <= 1
}

/// A fraction that lies within one channel step below `c` comes back as `c`
/// or as one less.
proof fn lemma_channel_near(c: int, x: int)
    requires
        0 <= c <= 255,
        0 <= x,
        (c - 1) * UNIT <= 255 * x < (c + 1) * UNIT,
    ensures
        c - 1 <= fraction_channel(x) <= c,
{
    if 0 < x < UNIT {
        let q = (x * 255) / (UNIT as int);
        vstd::arithmetic::div_mod::lemma_fundamental_div_mod(x * 255, UNIT as int);
        vstd::arithmetic::div_mod::lemma_mod_bound(x * 255, UNIT as int);
        assert(c - 1 <= q <= c) by (nonlinear_arith)
            requires
                1_000_000 * q <= x * 255 < 1_000_000 * q + 1_000_000,
                (c - 1) * 1_000_000 <= 255 * x < (c + 1) * 1_000_000,
        ;
    }
}

/// The share `n / den` of a value, where the value stands for the greatest
/// channel `top` and `top * n / den` comes near the channel `c`, lies within
/// one channel step below `c`.
proof fn lemma_share_near(top: int, c: int, v: int, n: int, den: int)
    requires
        0 < top <= 255,
        0 <= c <= 255,
        0 <= v,
        255 * v <= top * UNIT < 255 * v + 255,
        0 < den,
        0 <= n <= den,
        2 * (c * den - top * n) <= den,
        top * n - c * den < den,
    ensures
        0 <= (v * n) / den,
        (c - 1) * UNIT <= 255 * ((v * n) / den) < (c + 1) * UNIT,
{
    let x = (v * n) / den;
    let u: int = 1_000_000;
    assert(v * n >= 0) by (nonlinear_arith)
        requires
            v >= 0,
            n >= 0,
    ;
    vstd::arithmetic::div_mod::lemma_fundamental_div_mod(v * n, den);
    vstd::arithmetic::div_mod::lemma_mod_bound(v * n, den);
    assert(den * x <= v * n < den * x + den);
    assert(x >= 0) by (nonlinear_arith)
        requires
            v * n < den * x + den,
            v * n >= 0,
            den > 0,
    ;
    assert(255 * (v * n) <= u * (top * n)) by (nonlinear_arith)
        requires
            255 * v <= top * u,
            n >= 0,
    ;
    assert(u * (top * n) < u * (c * den + den)) by (nonlinear_arith)
        requires
            top * n - c * den < den,
            u > 0,
    ;
    assert(255 * x < (c + 1) * u) by (nonlinear_arith)
        requires
            den * x <= v * n,
            255 * (v * n) <= u * (top * n),
            u * (top * n) < u * (c * den + den),
            den > 0,
    ;
    assert(510 * (v * n) >= 2 * u * (top * n) - 508 * n) by (nonlinear_arith)
        requires
            top * u < 255 * v + 255,
            n >= 0,
    ;
    assert(2 * u * (top * n) >= u * (2 * (c * den) - den)) by (nonlinear_arith)
        requires
            2 * (c * den - top * n) <= den,
            u > 0,
    ;
    assert(255 * x >= (c - 1) * u) by (nonlinear_arith)
        requires
            v * n < den * x + den,
            510 * (v * n) >= 2 * u * (top * n) - 508 * n,
            2 * u * (top * n) >= u * (2 * (c * den) - den),
            0 <= n <= den,
            den > 0,
            u == 1_000_000,
    ;
}

/// The value that stands for a greatest channel lies within one channel step
/// below it.
proof fn lemma_value_near(top: int)
    requires
        0 <= top <= 255,
    ensures
        0 <= channel_fraction(top as u8) <= UNIT,
        255 * channel_fraction(top as u8) <= top * UNIT < 255 * channel_fraction(top as u8) + 255,
{
    assert(top * UNIT == top * 1_000_000) by (nonlinear_arith)
        requires
            UNIT == 1_000_000,
    ;
}

/// The saturation is the share of the greatest channel taken by the chroma,
/// rounded down.
proof fn lemma_saturation_near(top: int, chroma: int)
    requires
        0 < top <= 255,
        0 <= chroma <= top,
    ensures
        0 <= (chroma * UNIT) / top <= UNIT,
        top * ((chroma * UNIT) / top) <= chroma * UNIT < top * ((chroma * UNIT) / top) + top,
{
    let q = (chroma * UNIT) / top;
    assert(chroma * UNIT == chroma * 1_000_000) by (nonlinear_arith)
        requires
            UNIT == 1_000_000,
    ;
    vstd::arithmetic::div_mod::lemma_fundamental_div_mod(chroma * UNIT, top);
    vstd::arithmetic::div_mod::lemma_mod_bound(chroma * UNIT, top);
    assert(0 <= q <= 1_000_000) by (nonlinear_arith)
        requires
            top * q <= chroma * 1_000_000 < top * q + top,
            0 <= chroma <= top,
            top > 0,
    ;
}

/// How far into a segment the hue stands: `difference / chroma` of the
/// segment, rounded down.
proof fn lemma_offset_near(difference: int, chroma: int)
    requires
        0 < chroma <= 255,
        -chroma <= difference <= chroma,
    ensures
        -SEXTANT <= segment_offset(difference, chroma) <= SEXTANT,
        difference >= 0 ==> 0 <= segment_offset(difference, chroma),
        difference < 0 ==> segment_offset(difference, chroma) < 0,
        chroma * segment_offset(difference, chroma) <= SEXTANT * difference < chroma
            * segment_offset(difference, chroma) + chroma,
{
    let sx: int = 60_000_000;
    if difference >= 0 {
        let x = sx * difference;
        let q = x / chroma;
        vstd::arithmetic::div_mod::lemma_fundamental_div_mod(x, chroma);
        vstd::arithmetic::div_mod::lemma_mod_bound(x, chroma);
        assert(0 <= q <= sx) by (nonlinear_arith)
            requires
                chroma * q <= x < chroma * q + chroma,
                x == sx * difference,
                0 <= difference <= chroma,
                chroma > 0,
                sx > 0,
        ;
    } else {
        let x = sx * (-difference) + chroma - 1;
        let q = x / chroma;
        vstd::arithmetic::div_mod::lemma_fundamental_div_mod(x, chroma);
        vstd::arithmetic::div_mod::lemma_mod_bound(x, chroma);
        assert(1 <= q <= sx) by (nonlinear_arith)
            requires
                chroma * q <= x < chroma * q + chroma,
                x == sx * (-difference) + chroma - 1,
                0 < -difference <= chroma,
                chroma > 0,
                sx > 1,
        ;
        assert(chroma * (-q) == -(chroma * q)) by (nonlinear_arith);
    }
}

/// The numerator of a middle channel, taken `t` into its segment from the
/// side of the least channel, comes near the middle channel's share of the
/// greatest.
proof fn lemma_middle_share(top: int, mid: int, low: int, s: int, t: int)
    requires
        0 <= low <= mid <= top <= 255,
        low < top,
        0 <= s,
        top * s <= (top - low) * UNIT < top * s + top,
        0 <= t <= SEXTANT,
        SEXTANT * (mid - low) - (top - low) < (top - low) * t < SEXTANT * (mid - low) + (top
            - low),
    ensures
        0 <= SEGMENT_SCALE - s * (SEXTANT - t) <= SEGMENT_SCALE,
        2 * (mid * SEGMENT_SCALE - top * (SEGMENT_SCALE - s * (SEXTANT - t))) <= SEGMENT_SCALE,
        top * (SEGMENT_SCALE - s * (SEXTANT - t)) - mid * SEGMENT_SCALE < SEGMENT_SCALE,
{
    let u: int = 1_000_000;
    let sx: int = 60_000_000;
    let k: int = 60_000_000_000_000;
    let d = top - low;
    let w = sx - t;
    assert(s <= u) by (nonlinear_arith)
        requires
            top * s <= d * u,
            0 < d <= top,
            u > 0,
    ;
    assert(0 <= s * w <= k) by (nonlinear_arith)
        requires
            0 <= s <= u,
            0 <= w <= sx,
            u == 1_000_000,
            sx == 60_000_000,
            k == 60_000_000_000_000,
    ;
    // top * s * w lies between (d * u - top) * w and d * u * w.
    assert((top * s) * w <= (d * u) * w) by (nonlinear_arith)
        requires
            top * s <= d * u,
            w >= 0,
    ;
    assert((top * s) * w >= (d * u - top) * w) by (nonlinear_arith)
        requires
            d * u < top * s + top,
            w >= 0,
    ;
    // d * w lies within d of sx * (top - mid).
    assert(d * w == d * sx - d * t) by (nonlinear_arith)
        requires
            w == sx - t,
    ;
    assert(sx * (top - mid) == d * sx - sx * (mid - low)) by (nonlinear_arith)
        requires
            d == top - low,
    ;
    assert(sx * (top - mid) - d < d * w < sx * (top - mid) + d);
    assert((d * u) * w == u * (d * w)) by (nonlinear_arith);
    assert(u * (d * w) < u * (sx * (top - mid) + d)) by (nonlinear_arith)
        requires
            d * w < sx * (top - mid) + d,
            u > 0,
    ;
    assert(u * (sx * (top - mid) + d) == k * (top - mid) + u * d) by (nonlinear_arith)
        requires
            u == 1_000_000,
            sx == 60_000_000,
            k == 60_000_000_000_000,
    ;
    assert((d * u - top) * w == u * (d * w) - top * w) by (nonlinear_arith);
    assert(u * (d * w) > u * (sx * (top - mid) - d)) by (nonlinear_arith)
        requires
            d * w > sx * (top - mid) - d,
            u > 0,
    ;
    assert(u * (sx * (top - mid) - d) == k * (top - mid) - u * d) by (nonlinear_arith)
        requires
            u == 1_000_000,
            sx == 60_000_000,
            k == 60_000_000_000_000,
    ;
    assert(top * w <= 255 * sx) by (nonlinear_arith)
        requires
            0 <= top <= 255,
            0 <= w <= sx,
    ;
    assert(top * (k - s * w) == top * k - (top * s) * w) by (nonlinear_arith);
    assert(top * k - k * (top - mid) == mid * k) by (nonlinear_arith);
    assert(u * d <= 255 * u) by (nonlinear_arith)
        requires
            0 <= d <= 255,
            u > 0,
    ;
}

/// A share of the value that comes near a channel comes back as that channel
/// or as one less.
proof fn lemma_share_back(top: int, c: int, v: int, n: int, den: int)
    requires
        0 < top <= 255,
        0 <= c <= 255,
        0 <= v,
        255 * v <= top * UNIT < 255 * v + 255,
        0 < den,
        0 <= n <= den,
        2 * (c * den - top * n) <= den,
        top * n - c * den < den,
    ensures
        0 <= (v * n) / den <= 2 * UNIT,
        c - 1 <= fraction_channel((v * n) / den) <= c,
{
    lemma_share_near(top, c, v, n, den);
    lemma_channel_near(c, (v * n) / den);
}

/// Whether a saturation and a value are those of a colour whose greatest
/// channel is `top` and whose least is `low`.
spec fn stands_for(top: int, low: int, s: int, v: int) -> bool {
    &&& 0 <= low <= top <= 255
    &&& 0 < top
    &&& 0 <= s <= UNIT
    &&& 0 <= v <= UNIT
    &&& top * s <= (top - low) * UNIT < top * s + top
    &&& 255 * v <= top * UNIT < 255 * v + 255
}

/// The value comes back as the greatest channel or as one less.
proof fn lemma_top_back(top: int, low: int, s: int, v: int)
    requires
        stands_for(top, low, s, v),
    ensures
        top - 1 <= fraction_channel(v) <= top,
{
    assert((top - 1) * UNIT <= 255 * v < (top + 1) * UNIT) by (nonlinear_arith)
        requires
            255 * v <= top * UNIT < 255 * v + 255,
            UNIT == 1_000_000,
    ;
    lemma_channel_near(top, v);
}

/// The least fraction comes back as the least channel or as one less.
proof fn lemma_low_back(top: int, low: int, s: int, v: int)
    requires
        stands_for(top, low, s, v),
    ensures
        0 <= low_fraction(s, v) <= 2 * UNIT,
        low - 1 <= fraction_channel(low_fraction(s, v)) <= low,
{
    let u: int = 1_000_000;
    assert(top * (u - s) == top * u - top * s) by (nonlinear_arith);
    assert((top - low) * u == top * u - low * u) by (nonlinear_arith);
    lemma_share_back(top, low, v, u - s, u);
}

/// The fraction that rises through a segment comes back as the middle
/// channel or as one less, where the hue stands `f` into the segment.
proof fn lemma_rise_back(top: int, mid: int, low: int, s: int, v: int, f: int)
    requires
        stands_for(top, low, s, v),
        low < top,
        low <= mid <= top,
        0 <= f <= SEXTANT,
        (top - low) * f <= SEXTANT * (mid - low) < (top - low) * f + (top - low),
    ensures
        0 <= rising_fraction(s, v, f) <= 2 * UNIT,
        mid - 1 <= fraction_channel(rising_fraction(s, v, f)) <= mid,
{
    lemma_middle_share(top, mid, low, s, f);
    lemma_share_back(top, mid, v, SEGMENT_SCALE - s * (SEXTANT - f), SEGMENT_SCALE as int);
}

/// The fraction that falls through a segment comes back as the middle
/// channel or as one less, where the hue stands `f` into the segment.
proof fn lemma_fall_back(top: int, mid: int, low: int, s: int, v: int, f: int)
    requires
        stands_for(top, low, s, v),
        low < top,
        low <= mid <= top,
        0 <= f <= SEXTANT,
        (top - low) * (SEXTANT - f) - (top - low) < SEXTANT * (mid - low) <= (top - low) * (
            SEXTANT - f),
    ensures
        0 <= falling_fraction(s, v, f) <= 2 * UNIT,
        mid - 1 <= fraction_channel(falling_fraction(s, v, f)) <= mid,
{
    let t = SEXTANT - f;
    lemma_middle_share(top, mid, low, s, t);
    assert(s * (SEXTANT - t) == s * f);
    lemma_share_back(top, mid, v, SEGMENT_SCALE - s * f, SEGMENT_SCALE as int);
}

/// A hue that stands `f` into segment `segment` is taken apart into the two.
proof fn lemma_segment(h: int, segment: int, f: int)
    requires
        0 <= segment < 6,
        0 <= f < SEXTANT,
        h == segment * SEXTANT + f,
    ensures
        h % (FULL_TURN as int) == h,
        h / (SEXTANT as int) == segment,
        h % (SEXTANT as int) == f,
{
    assert(0 <= h < FULL_TURN) by (nonlinear_arith)
        requires
            0 <= segment < 6,
            0 <= f < SEXTANT,
            h == segment * SEXTANT + f,
            SEXTANT == 60_000_000,
            FULL_TURN == 360_000_000,
    ;
    vstd::arithmetic::div_mod::lemma_small_mod(h as nat, FULL_TURN as nat);
    vstd::arithmetic::div_mod::lemma_fundamental_div_mod_converse(h, SEXTANT as int, segment, f);
}

/// Whether each channel comes back as it was or as one less.
pub open spec fn comes_back_close(rgb: RgbColor, back: RgbColor) -> bool {
    &&& at_most_one_below(rgb.red, back.red)
    &&& at_most_one_below(rgb.green, back.green)
    &&& at_most_one_below(rgb.blue, back.blue)
}

/// What the hue, saturation and value of a colour are made of.
proof fn lemma_hsv_parts(rgb: RgbColor)
    ensures
        ({
            let top = max3(rgb.red as int, rgb.green as int, rgb.blue as int);
            let low = min3(rgb.red as int, rgb.green as int, rgb.blue as int);
            &&& 0 <= saturation_of(rgb) <= UNIT
            &&& hsv_of(rgb).saturation == saturation_of(rgb)
            &&& hsv_of(rgb).value == value_of(rgb)
            &&& top > 0 ==> stands_for(top, low, saturation_of(rgb), value_of(rgb) as int)
            &&& top == 0 ==> saturation_of(rgb) == 0 && value_of(rgb) == 0
            &&& top == low ==> saturation_of(rgb) == 0
        }),
{
    let top = max3(rgb.red as int, rgb.green as int, rgb.blue as int);
    let low = min3(rgb.red as int, rgb.green as int, rgb.blue as int);
    lemma_value_near(top);
    if top > 0 {
        lemma_saturation_near(top, top - low);
        if top == low {
            assert((top - low) * UNIT == 0) by (nonlinear_arith)
                requires
                    top == low,
            ;
        }
    }
}

/// The fractions of a colour whose hue stands `f` into segment `segment`.
proof fn lemma_fractions(hsv: HsvColor, segment: int, f: int)
    requires
        0 <= segment < 6,
        0 <= f < SEXTANT,
        hsv.hue == segment * SEXTANT + f,
        hsv.saturation <= UNIT,
        hsv.value <= UNIT,
    ensures
        ({
            let s = hsv.saturation as int;
            let v = hsv.value as int;
            let low = low_fraction(s, v) as i64;
            let fall = falling_fraction(s, v, f) as i64;
            let rise = rising_fraction(s, v, f) as i64;
            let top = v as i64;
            fractions_of(hsv) == if segment == 0 {
                RgbFraction { red: top, green: rise, blue: low }
            } else if segment == 1 {
                RgbFraction { red: fall, green: top, blue: low }
            } else if segment == 2 {
                RgbFraction { red: low, green: top, blue: rise }
            } else if segment == 3 {
                RgbFraction { red: low, green: fall, blue: top }
            } else if segment == 4 {
                RgbFraction { red: rise, green: low, blue: top }
            } else {
                RgbFraction { red: top, green: low, blue: fall }
            }
        }),
{
    lemma_segment(hsv.hue as int, segment, f);
}

/// A grey comes back close.
proof fn lemma_grey_back(rgb: RgbColor)
    requires
        rgb.red == rgb.green,
        rgb.green == rgb.blue,
    ensures
        comes_back_close(rgb, rgb_of(hsv_of(rgb))),
{
    let top = rgb.red as int;
    let v = value_of(rgb) as int;
    lemma_hsv_parts(rgb);
    let hsv = hsv_of(rgb);
    assert(hsv.hue == 0);
    assert(hsv.saturation == 0);
    lemma_fractions(hsv, 0, 0);
    assert(rising_fraction(0, v, 0) == v && low_fraction(0, v) == v) by {
        assert(0 * (SEXTANT - 0) == 0);
        assert(v * (SEGMENT_SCALE - 0) == SEGMENT_SCALE * v) by (nonlinear_arith);
        assert(v * (UNIT - 0) == UNIT * v) by (nonlinear_arith);
        vstd::arithmetic::div_mod::lemma_div_multiples_vanish(v, SEGMENT_SCALE as int);
        vstd::arithmetic::div_mod::lemma_div_multiples_vanish(v, UNIT as int);
    }
    if top > 0 {
        lemma_top_back(top, top, 0, v);
    }
}

/// A colour whose greatest channel is red comes back close.
proof fn lemma_red_top_back(rgb: RgbColor)
    requires
        rgb.red >= rgb.green,
        rgb.red >= rgb.blue,
        rgb.red > rgb.green || rgb.red > rgb.blue,
    ensures
        comes_back_close(rgb, rgb_of(hsv_of(rgb))),
{
    let r = rgb.red as int;
    let g = rgb.green as int;
    let b = rgb.blue as int;
    let top = r;
    let low = min3(r, g, b);
    let d = top - low;
    let s = saturation_of(rgb);
    let v = value_of(rgb) as int;
    lemma_hsv_parts(rgb);
    let hsv = hsv_of(rgb);
    let off = segment_offset(g - b, d);
    lemma_offset_near(g - b, d);
    lemma_top_back(top, low, s, v);
    lemma_low_back(top, low, s, v);
    if g >= b {
        assert(hsv.hue == off);
        if off == SEXTANT {
            assert(g == top) by (nonlinear_arith)
                requires
                    d * off <= SEXTANT * (g - b),
                    off == SEXTANT,
                    SEXTANT > 0,
                    g - b <= d,
                    d == top - b,
            ;
            lemma_fractions(hsv, 1, 0);
            assert(d * (SEXTANT - 0) == SEXTANT * (top - low)) by (nonlinear_arith)
                requires
                    d == top - low,
            ;
            lemma_fall_back(top, top, low, s, v, 0);
        } else {
            lemma_fractions(hsv, 0, off);
            lemma_rise_back(top, g, low, s, v, off);
        }
    } else {
        let e = -off;
        assert(hsv.hue == 5 * SEXTANT + (SEXTANT - e));
        lemma_fractions(hsv, 5, SEXTANT - e);
        assert(d * e == -(d * off)) by (nonlinear_arith)
            requires
                e == -off,
        ;
        assert(SEXTANT * (b - g) == -(SEXTANT * (g - b))) by (nonlinear_arith);
        lemma_fall_back(top, b, low, s, v, SEXTANT - e);
    }
}

/// A colour whose greatest channel is green and not red comes back close.
proof fn lemma_green_top_back(rgb: RgbColor)
    requires
        rgb.green > rgb.red,
        rgb.green >= rgb.blue,
    ensures
        comes_back_close(rgb, rgb_of(hsv_of(rgb))),
{
    let r = rgb.red as int;
    let g = rgb.green as int;
    let b = rgb.blue as int;
    let top = g;
    let low = min3(r, g, b);
    let d = top - low;
    let s = saturation_of(rgb);
    let v = value_of(rgb) as int;
    lemma_hsv_parts(rgb);
    let hsv = hsv_of(rgb);
    let off = segment_offset(b - r, d);
    lemma_offset_near(b - r, d);
    lemma_top_back(top, low, s, v);
    lemma_low_back(top, low, s, v);
    assert(hsv.hue == 2 * SEXTANT + off);
    if b >= r {
        if off == SEXTANT {
            assert(b == top) by (nonlinear_arith)
                requires
                    d * off <= SEXTANT * (b - r),
                    off == SEXTANT,
                    SEXTANT > 0,
                    b - r <= d,
                    d == top - r,
            ;
            lemma_fractions(hsv, 3, 0);
            assert(d * (SEXTANT - 0) == SEXTANT * (top - low)) by (nonlinear_arith)
                requires
                    d == top - low,
            ;
            lemma_fall_back(top, top, low, s, v, 0);
        } else {
            lemma_fractions(hsv, 2, off);
            lemma_rise_back(top, b, low, s, v, off);
        }
    } else {
        let e = -off;
        assert(e < SEXTANT) by (nonlinear_arith)
            requires
                d * off <= SEXTANT * (b - r),
                SEXTANT * (b - r) < d * off + d,
                e == -off,
                r - b < d,
                0 < d <= 255,
                SEXTANT == 60_000_000,
        ;
        lemma_fractions(hsv, 1, SEXTANT - e);
        assert(d * e == -(d * off)) by (nonlinear_arith)
            requires
                e == -off,
        ;
        assert(SEXTANT * (r - b) == -(SEXTANT * (b - r))) by (nonlinear_arith);
        lemma_fall_back(top, r, low, s, v, SEXTANT - e);
    }
}

/// A colour whose greatest channel is blue alone comes back close.
proof fn lemma_blue_top_back(rgb: RgbColor)
    requires
        rgb.blue > rgb.red,
        rgb.blue > rgb.green,
    ensures
        comes_back_close(rgb, rgb_of(hsv_of(rgb))),
{
    let r = rgb.red as int;
    let g = rgb.green as int;
    let b = rgb.blue as int;
    let top = b;
    let low = min3(r, g, b);
    let d = top - low;
    let s = saturation_of(rgb);
    let v = value_of(rgb) as int;
    lemma_hsv_parts(rgb);
    let hsv = hsv_of(rgb);
    let off = segment_offset(r - g, d);
    lemma_offset_near(r - g, d);
    lemma_top_back(top, low, s, v);
    lemma_low_back(top, low, s, v);
    assert(hsv.hue == 4 * SEXTANT + off);
    if r >= g {
        assert(off < SEXTANT) by (nonlinear_arith)
            requires
                d * off <= SEXTANT * (r - g),
                r - g < d,
                0 < d <= 255,
                SEXTANT == 60_000_000,
        ;
        lemma_fractions(hsv, 4, off);
        lemma_rise_back(top, r, low, s, v, off);
    } else {
        let e = -off;
        assert(e < SEXTANT) by (nonlinear_arith)
            requires
                d * off <= SEXTANT * (r - g),
                SEXTANT * (r - g) < d * off + d,
                e == -off,
                g - r < d,
                0 < d <= 255,
                SEXTANT == 60_000_000,
        ;
        lemma_fractions(hsv, 3, SEXTANT - e);
        assert(d * e == -(d * off)) by (nonlinear_arith)
            requires
                e == -off,
        ;
        assert(SEXTANT * (g - r) == -(SEXTANT * (r - g))) by (nonlinear_arith);
        lemma_fall_back(top, g, low, s, v, SEXTANT - e);
    }
}

/// Every colour of 8-bit channels that is converted to hue, saturation and
/// value and back has each channel as it was or one less.
pub proof fn lemma_round_trip(rgb: RgbColor)
    ensures
        comes_back_close(rgb, rgb_of(hsv_of(rgb))),
{
    if rgb.red == rgb.green && rgb.green == rgb.blue {
        lemma_grey_back(rgb);
    } else if rgb.red >= rgb.green && rgb.red >= rgb.blue {
        lemma_red_top_back(rgb);
    } else if rgb.green >= rgb.blue {
        lemma_green_top_back(rgb);
    } else {
        lemma_blue_top_back(rgb);
    }
}

} // verus!
