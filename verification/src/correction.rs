//! Vividness boost, selection modes and brightness scaling.

use vstd::prelude::*;
use crate::color_conversion::{hsv_all, rgb_all, to_hsv_all, to_rgb_all};
use crate::colors::{HsvColor, RgbColor};
use crate::config::ColorSelectionMode;
use crate::units::{trunc_div, FULL_TURN, UNIT};

verus! {

/// A colour brighter than this is taken as primary in brightness mode.
pub const BRIGHTNESS_THRESHOLD: u32 = 800_000;

/// What the boost adds to saturation and to value.
pub const VIVIDNESS_BOOST: u32 = 200_000;

/// Largest magnitude of a primary hue and of a hue shift for which the fan is computed.
pub const HUE_LIMIT: i64 = 1_000_000_000_000_000;

/// A channel raised by the boost and capped at one.
pub open spec fn boosted_channel(x: u32) -> u32 {
    if x + VIVIDNESS_BOOST >= UNIT {
        UNIT
    } else {
        (x + VIVIDNESS_BOOST) as u32
    }
}

/// A colour with saturation and value boosted, hue untouched.
pub open spec fn boosted(color: HsvColor) -> HsvColor {
    HsvColor {
        hue: color.hue,
        saturation: boosted_channel(color.saturation),
        value: boosted_channel(color.value),
    }
}

fn boost_channel(x: u32) -> (r: u32)
    ensures
        r == boosted_channel(x),
{
    if x >= UNIT - VIVIDNESS_BOOST {
        UNIT
    } else {
        x + VIVIDNESS_BOOST
    }
}

/// Boosts one colour.
pub fn boost(color: HsvColor) -> (r: HsvColor)
    ensures
        r == boosted(color),
{
    HsvColor {
        hue: color.hue,
        saturation: boost_channel(color.saturation),
        value: boost_channel(color.value),
    }
}

/// Every colour of a palette boosted, in the same order.
pub open spec fn boosted_all(colors: Seq<HsvColor>) -> Seq<HsvColor> {
    Seq::new(colors.len(), |i: int| boosted(colors[i]))
}

/// Boosts every colour of a palette, keeping the order.
pub fn boost_all(colors: &Vec<HsvColor>) -> (r: Vec<HsvColor>)
    ensures
        r@ == boosted_all(colors@),
{
    let mut out: Vec<HsvColor> = Vec::new();
    let mut i: usize = 0;
    while i < colors.len()
        invariant
            i <= colors.len(),
            out@ == boosted_all(colors@.take(i as int)),
        decreases colors.len() - i,
    {
        out.push(boost(colors[i]));
        i += 1;
        assert(out@ =~= boosted_all(colors@.take(i as int)));
    }
    assert(colors@.take(i as int) =~= colors@);
    out
}

/// Boosting never leaves saturation or value above one, and a colour already
/// at one in both keeps them.
pub proof fn lemma_boost_capped(color: HsvColor)
    ensures
        boosted(color).saturation <= UNIT,
        boosted(color).value <= UNIT,
        boosted(color).hue == color.hue,
        color.saturation == UNIT ==> boosted(color).saturation == UNIT,
        color.value == UNIT ==> boosted(color).value == UNIT,
        color.saturation == UNIT && color.value == UNIT ==> boosted(color) == color,
{
}

/// Index of the first colour brighter than the threshold, if there is one.
pub open spec fn first_bright(colors: Seq<HsvColor>) -> Option<int>
    decreases colors.len(),
{
    if colors.len() == 0 {
        None
    } else {
        match first_bright(colors.drop_last()) {
            Some(i) => Some(i),
            None => if colors.last().value > BRIGHTNESS_THRESHOLD {
                Some(colors.len() - 1)
            } else {
                None
            },
        }
    }
}

/// Index of the first among the colours of greatest value.
pub open spec fn brightest(colors: Seq<HsvColor>) -> int
    decreases colors.len(),
{
    if colors.len() <= 1 {
        0
    } else {
        let before = brightest(colors.drop_last());
        if colors.last().value > colors[before].value {
            colors.len() - 1
        } else {
            before
        }
    }
}

/// Index of the primary colour of brightness mode.
pub open spec fn primary_index(colors: Seq<HsvColor>) -> int {
    match first_bright(colors) {
        Some(i) => i,
        None => brightest(colors),
    }
}

/// The test that keeps every colour but `primary`.
pub open spec fn differs_from(primary: HsvColor) -> spec_fn(HsvColor) -> bool {
    |c: HsvColor| c != primary
}

/// The primary colour, then all colours that differ from it, in their order.
pub open spec fn brightness_ordered(colors: Seq<HsvColor>) -> Seq<HsvColor>
    recommends
        colors.len() > 0,
{
    let primary = colors[primary_index(colors)];
    seq![primary] + colors.filter(differs_from(primary))
}

/// What `first_bright` finds is bright and nothing before it is; where it
/// finds nothing, no colour is bright.
pub proof fn lemma_first_bright(colors: Seq<HsvColor>)
    ensures
        match first_bright(colors) {
            Some(i) => {
                &&& 0 <= i < colors.len()
                &&& colors[i].value > BRIGHTNESS_THRESHOLD
                &&& forall|j: int| 0 <= j < i ==> colors[j].value <= BRIGHTNESS_THRESHOLD
            },
            None => forall|j: int|
                0 <= j < colors.len() ==> colors[j].value <= BRIGHTNESS_THRESHOLD,
        },
    decreases colors.len(),
{
    if colors.len() > 0 {
        lemma_first_bright(colors.drop_last());
        assert(forall|j: int| 0 <= j < colors.len() - 1 ==> colors.drop_last()[j] == colors[j]);
    }
}

/// No colour has a greater value than the one `brightest` finds, and every
/// colour before it has a smaller one.
pub proof fn lemma_brightest(colors: Seq<HsvColor>)
    requires
        colors.len() > 0,
    ensures
        0 <= brightest(colors) < colors.len(),
        forall|j: int|
            0 <= j < colors.len() ==> (#[trigger] colors[j]).value <= colors[brightest(colors)].value,
        forall|j: int|
            0 <= j < brightest(colors) ==> (#[trigger] colors[j]).value < colors[brightest(colors)].value,
    decreases colors.len(),
{
    if colors.len() > 1 {
        lemma_brightest(colors.drop_last());
        assert(forall|j: int| 0 <= j < colors.len() - 1 ==> colors.drop_last()[j] == colors[j]);
    }
}

/// The primary colour of brightness mode lies in the palette.
pub proof fn lemma_primary_index_in_range(colors: Seq<HsvColor>)
    requires
        colors.len() > 0,
    ensures
        0 <= primary_index(colors) < colors.len(),
{
    lemma_first_bright(colors);
    lemma_brightest(colors);
}

fn find_primary(colors: &Vec<HsvColor>) -> (r: usize)
    requires
        colors.len() > 0,
    ensures
        r == primary_index(colors@),
        r < colors.len(),
{
    let mut bright: Option<usize> = None;
    let mut best: usize = 0;
    let mut i: usize = 0;
    proof {
        lemma_primary_index_in_range(colors@);
    }
    while i < colors.len()
        invariant
            i <= colors.len(),
            colors.len() > 0,
            match bright {
                Some(b) => first_bright(colors@.take(i as int)) == Some(b as int),
                None => first_bright(colors@.take(i as int)) is None,
            },
            best == brightest(colors@.take(i as int)),
            best < colors.len(),
        decreases colors.len() - i,
    {
        let ghost before = colors@.take(i as int);
        let ghost after = colors@.take(i + 1);
        assert(after.drop_last() =~= before);
        assert(after.last() == colors@[i as int]);
        proof {
            if i > 0 {
                lemma_brightest(before);
                assert(before[best as int] == colors@[best as int]);
                assert(after[best as int] == colors@[best as int]);
            }
        }
        if bright.is_none() && colors[i].value > BRIGHTNESS_THRESHOLD {
            bright = Some(i);
        }
        if i > 0 && colors[i].value > colors[best].value {
            best = i;
        }
        i += 1;
    }
    assert(colors@.take(i as int) =~= colors@);
    match bright {
        Some(b) => b,
        None => best,
    }
}

fn order_by_brightness(colors: &Vec<HsvColor>) -> (r: Vec<HsvColor>)
    requires
        colors.len() > 0,
    ensures
        r@ == brightness_ordered(colors@),
{
    let p: usize = find_primary(colors);
    let primary: HsvColor = colors[p];
    let mut out: Vec<HsvColor> = Vec::new();
    out.push(primary);
    let mut i: usize = 0;
    assert(colors@.take(0).filter(differs_from(primary)) =~= Seq::<HsvColor>::empty()) by {
        reveal(Seq::filter);
    }
    while i < colors.len()
        invariant
            i <= colors.len(),
            out@ == seq![primary] + colors@.take(i as int).filter(differs_from(primary)),
        decreases colors.len() - i,
    {
        let ghost before = colors@.take(i as int);
        let ghost after = colors@.take(i + 1);
        assert(after.drop_last() =~= before);
        assert(after.last() == colors@[i as int]);
        assert(after.filter(differs_from(primary)) == if colors@[i as int] != primary {
            before.filter(differs_from(primary)).push(colors@[i as int])
        } else {
            before.filter(differs_from(primary))
        }) by {
            reveal(Seq::filter);
        }
        let c: HsvColor = colors[i];
        if c != primary {
            out.push(c);
        }
        i += 1;
        assert(out@ =~= seq![primary] + colors@.take(i as int).filter(differs_from(primary)));
    }
    assert(colors@.take(i as int) =~= colors@);
    out
}

/// A hue brought back by one turn where it left the range from zero to a full
/// turn: one step only, so a hue further out stays out.
pub open spec fn wrapped_hue(hue: int) -> int {
    if hue < 0 {
        hue + FULL_TURN
    } else if hue > FULL_TURN {
        hue - FULL_TURN
    } else {
        hue
    }
}

/// The distance in hue between neighbours in a fan of `len` colours.
pub open spec fn fan_step(shift: int, len: int) -> int
    recommends
        len > 1,
{
    trunc_div(2 * shift, len - 1)
}

/// The hue at place `i` of a fan of `len` colours around `primary_hue`.
pub open spec fn fan_hue(primary_hue: int, shift: int, len: int, i: int) -> int
    recommends
        len > 1,
{
    wrapped_hue(primary_hue - shift + fan_step(shift, len) * i)
}

/// The hue-shift fan: as many colours as came in, all with the saturation and
/// value of the first, their hues spread evenly from `shift` below its hue to
/// `shift` above. A single colour is left as it is.
pub open spec fn hue_fan(colors: Seq<HsvColor>, shift: int) -> Seq<HsvColor>
    recommends
        colors.len() > 0,
{
    if colors.len() == 1 {
        colors
    } else {
        Seq::new(
            colors.len(),
            |i: int|
                HsvColor {
                    hue: fan_hue(colors[0].hue as int, shift, colors.len() as int, i) as i64,
                    saturation: colors[0].saturation,
                    value: colors[0].value,
                },
        )
    }
}

/// Whether the hues of the fan can be computed without leaving the range of
/// the hue field.
pub open spec fn fan_fits(colors: Seq<HsvColor>, shift: int) -> bool {
    colors.len() > 1 ==> {
        &&& -HUE_LIMIT <= colors[0].hue <= HUE_LIMIT
        &&& -HUE_LIMIT <= shift <= HUE_LIMIT
    }
}

/// The offsets of a fan stay within twice the shift.
pub proof fn lemma_fan_offset_bound(shift: int, len: int, i: int)
    requires
        len > 1,
        0 <= i < len,
    ensures
        shift >= 0 ==> 0 <= fan_step(shift, len) * i <= 2 * shift,
        shift < 0 ==> 2 * shift <= fan_step(shift, len) * i <= 0,
{
    let m: int = if shift >= 0 { 2 * shift } else { -(2 * shift) };
    let q: int = m / (len - 1);
    assert(0 <= q * (len - 1) <= m) by {
        vstd::arithmetic::div_mod::lemma_fundamental_div_mod(m, len - 1);
        vstd::arithmetic::div_mod::lemma_mod_bound(m, len - 1);
        assert(q * (len - 1) == (len - 1) * q) by (nonlinear_arith);
        vstd::arithmetic::div_mod::lemma_div_pos_is_pos(m, len - 1);
        assert(0 <= q * (len - 1)) by (nonlinear_arith)
            requires
                q >= 0,
                len > 1,
        ;
    }
    assert(0 <= q * i <= q * (len - 1)) by (nonlinear_arith)
        requires
            q >= 0,
            0 <= i < len,
    ;
    if shift < 0 {
        assert((-q) * i == -(q * i)) by (nonlinear_arith);
    }
}

/// Every hue of a fan lies within a turn of the span that the shift opens
/// around the primary hue.
pub proof fn lemma_fan_hue_bound(primary_hue: int, shift: int, len: int, i: int)
    requires
        len > 1,
        0 <= i < len,
    ensures
        shift >= 0 ==> primary_hue - shift - FULL_TURN <= fan_hue(primary_hue, shift, len, i)
            <= primary_hue + shift + FULL_TURN,
        shift < 0 ==> primary_hue + shift - FULL_TURN <= fan_hue(primary_hue, shift, len, i)
            <= primary_hue - shift + FULL_TURN,
{
    lemma_fan_offset_bound(shift, len, i);
}

/// Brings a hue back by one turn where it left the range from zero to a
/// full turn.
pub fn wrap_hue(hue: i64) -> (r: i64)
    ensures
        r == wrapped_hue(hue as int),
        0 <= hue <= FULL_TURN ==> r == hue,
        -FULL_TURN <= hue <= 2 * FULL_TURN ==> 0 <= r <= FULL_TURN,
{
    if hue < 0 {
        hue + FULL_TURN
    } else if hue > FULL_TURN {
        hue - FULL_TURN
    } else {
        hue
    }
}

fn spread_hues(colors: &Vec<HsvColor>, hue_shift: i64) -> (r: Vec<HsvColor>)
    requires
        colors.len() > 0,
        fan_fits(colors@, hue_shift as int),
    ensures
        r@ == hue_fan(colors@, hue_shift as int),
{
    let len: usize = colors.len();
    if len == 1 {
        return colors.clone();
    }
    let primary: HsvColor = colors[0];
    let lower: i64 = primary.hue - hue_shift;
    let span: u64 = if hue_shift >= 0 {
        2 * (hue_shift as u64)
    } else {
        2 * ((-hue_shift) as u64)
    };
    let step_size: u64 = span / ((len - 1) as u64);
    let step: i64 = if hue_shift >= 0 {
        step_size as i64
    } else {
        -(step_size as i64)
    };
    assert(step == fan_step(hue_shift as int, len as int));
    let mut out: Vec<HsvColor> = Vec::new();
    let mut i: usize = 0;
    while i < len
        invariant
            i <= len,
            len == colors.len(),
            len > 1,
            primary == colors@[0],
            fan_fits(colors@, hue_shift as int),
            lower == primary.hue - hue_shift,
            step == fan_step(hue_shift as int, len as int),
            out@.len() == i,
            forall|j: int| 0 <= j < i ==> out@[j] == hue_fan(colors@, hue_shift as int)[j],
        decreases len - i,
    {
        proof {
            lemma_fan_offset_bound(hue_shift as int, len as int, i as int);
        }
        let offset: i128 = (step as i128) * (i as i128);
        let hue: i64 = wrap_hue((lower as i128 + offset) as i64);
        out.push(HsvColor { hue, saturation: primary.saturation, value: primary.value });
        i += 1;
    }
    assert(out@ =~= hue_fan(colors@, hue_shift as int));
    out
}

/// The colours as a selection mode arranges them.
pub open spec fn corrected(colors: Seq<HsvColor>, mode: ColorSelectionMode, shift: int) -> Seq<
    HsvColor,
>
    recommends
        colors.len() > 0,
{
    match mode {
        ColorSelectionMode::Default => colors,
        ColorSelectionMode::Brightness => brightness_ordered(colors),
        ColorSelectionMode::HueShift => hue_fan(colors, shift),
    }
}

/// Arranges a palette by the selection mode.
///
/// `Default` hands the palette back. `Brightness` puts first the first colour
/// whose value is above the threshold, or, where none is, the first among
/// those of greatest value, and lets the colours that differ from it follow
/// in their order. `HueShift` replaces the palette by a fan of hues around
/// its first colour.
pub fn correct(colors: Vec<HsvColor>, mode: &ColorSelectionMode, hue_shift: i64) -> (r: Vec<
    HsvColor,
>)
    requires
        colors.len() > 0,
        *mode == ColorSelectionMode::HueShift ==> fan_fits(colors@, hue_shift as int),
    ensures
        r@ == corrected(colors@, *mode, hue_shift as int),
        *mode == ColorSelectionMode::Default ==> r@ == colors@,
{
    match mode {
        ColorSelectionMode::Default => colors,
        ColorSelectionMode::Brightness => order_by_brightness(&colors),
        ColorSelectionMode::HueShift => spread_hues(&colors, hue_shift),
    }
}

/// A value multiplied by a factor in millionths and capped at one.
pub open spec fn scaled_value(value: u32, factor: u32) -> u32 {
    if (value * factor) / (UNIT as int) >= UNIT {
        UNIT
    } else {
        ((value * factor) / (UNIT as int)) as u32
    }
}

/// A colour with its value scaled.
pub open spec fn scaled_color(color: HsvColor, factor: u32) -> HsvColor {
    HsvColor { value: scaled_value(color.value, factor), ..color }
}

/// The palette with every value scaled; with a factor of exactly one, the
/// palette itself.
pub open spec fn scaled(colors: Seq<HsvColor>, factor: u32) -> Seq<HsvColor> {
    if factor == UNIT {
        colors
    } else {
        Seq::new(colors.len(), |i: int| scaled_color(colors[i], factor))
    }
}

fn scale_value(value: u32, factor: u32) -> (r: u32)
    ensures
        r == scaled_value(value, factor),
{
    assert(value * factor <= 0xffff_ffff * 0xffff_ffff) by (nonlinear_arith)
        requires
            value <= 0xffff_ffff,
            factor <= 0xffff_ffff,
    ;
    let product: u64 = (value as u64) * (factor as u64);
    let quotient: u64 = product / (UNIT as u64);
    if quotient >= UNIT as u64 {
        UNIT
    } else {
        quotient as u32
    }
}

/// Multiplies the value of every colour by `factor`, a factor in millionths,
/// capping at one. A factor of exactly one hands the palette back.
pub fn scale(colors: Vec<HsvColor>, factor: u32) -> (r: Vec<HsvColor>)
    ensures
        r@ == scaled(colors@, factor),
        factor == UNIT ==> r@ == colors@,
{
    if factor == UNIT {
        return colors;
    }
    let mut out: Vec<HsvColor> = Vec::new();
    let mut i: usize = 0;
    while i < colors.len()
        invariant
            i <= colors.len(),
            factor != UNIT,
            out@.len() == i,
            forall|j: int| 0 <= j < i ==> out@[j] == scaled_color(colors@[j], factor),
        decreases colors.len() - i,
    {
        let c: HsvColor = colors[i];
        out.push(HsvColor { hue: c.hue, saturation: c.saturation, value: scale_value(c.value, factor) });
        i += 1;
    }
    assert(out@ =~= scaled(colors@, factor));
    out
}

/// Arranges a palette by the selection mode, then scales its brightness.
pub fn apply_color_correction(
    colors: Vec<HsvColor>,
    mode: &ColorSelectionMode,
    hue_shift: &i64,
    brightness_factor: &u32,
) -> (r: Vec<HsvColor>)
    requires
        colors.len() > 0,
        *mode == ColorSelectionMode::HueShift ==> fan_fits(colors@, *hue_shift as int),
    ensures
        r@ == scaled(corrected(colors@, *mode, *hue_shift as int), *brightness_factor),
{
    scale(correct(colors, mode, *hue_shift), *brightness_factor)
}

/// The test that keeps every colour of 8-bit channels but `primary`.
pub open spec fn differs_from_rgb(primary: RgbColor) -> spec_fn(RgbColor) -> bool {
    |c: RgbColor| c != primary
}

/// The primary colour of brightness mode on 8-bit colours: the first colour
/// whose value is above the threshold, or, where none is, the first among
/// those of greatest value.
pub open spec fn primary_rgb(colors: Seq<RgbColor>) -> RgbColor
    recommends
        colors.len() > 0,
{
    colors[primary_index(hsv_all(colors))]
}

/// The 8-bit colours as a selection mode arranges them.
pub open spec fn mode_applied(colors: Seq<RgbColor>, mode: ColorSelectionMode, shift: int) -> Seq<
    RgbColor,
>
    recommends
        colors.len() > 0,
{
    match mode {
        ColorSelectionMode::Default => colors,
        ColorSelectionMode::Brightness => seq![primary_rgb(colors)] + colors.filter(
            differs_from_rgb(primary_rgb(colors)),
        ),
        ColorSelectionMode::HueShift => if colors.len() == 1 {
            colors
        } else {
            rgb_all(hue_fan(hsv_all(colors), shift))
        },
    }
}

fn order_rgb_by_brightness(colors: &Vec<RgbColor>) -> (r: Vec<RgbColor>)
    requires
        colors.len() > 0,
    ensures
        r@ == mode_applied(colors@, ColorSelectionMode::Brightness, 0),
{
    let values: Vec<HsvColor> = to_hsv_all(colors);
    let p: usize = find_primary(&values);
    let primary: RgbColor = colors[p];
    let mut out: Vec<RgbColor> = Vec::new();
    out.push(primary);
    let mut i: usize = 0;
    assert(colors@.take(0).filter(differs_from_rgb(primary)) =~= Seq::<RgbColor>::empty()) by {
        reveal(Seq::filter);
    }
    while i < colors.len()
        invariant
            i <= colors.len(),
            out@ == seq![primary] + colors@.take(i as int).filter(differs_from_rgb(primary)),
        decreases colors.len() - i,
    {
        let ghost before = colors@.take(i as int);
        let ghost after = colors@.take(i + 1);
        assert(after.drop_last() =~= before);
        assert(after.last() == colors@[i as int]);
        assert(after.filter(differs_from_rgb(primary)) == if colors@[i as int] != primary {
            before.filter(differs_from_rgb(primary)).push(colors@[i as int])
        } else {
            before.filter(differs_from_rgb(primary))
        }) by {
            reveal(Seq::filter);
        }
        let c: RgbColor = colors[i];
        if c != primary {
            out.push(c);
        }
        i += 1;
        assert(out@ =~= seq![primary] + colors@.take(i as int).filter(differs_from_rgb(primary)));
    }
    assert(colors@.take(i as int) =~= colors@);
    out
}

/// Arranges a palette of 8-bit colours by the selection mode, judging
/// brightness and spreading hues by way of hue, saturation and value.
pub fn apply_color_mode(colors: Vec<RgbColor>, mode: &ColorSelectionMode, hue_shift: &i64) -> (r:
    Vec<RgbColor>)
    requires
        colors.len() > 0,
        *mode == ColorSelectionMode::HueShift ==> -HUE_LIMIT <= *hue_shift <= HUE_LIMIT,
    ensures
        r@ == mode_applied(colors@, *mode, *hue_shift as int),
        *mode == ColorSelectionMode::Default ==> r@ == colors@,
{
    match mode {
        ColorSelectionMode::Default => colors,
        ColorSelectionMode::Brightness => {
            let r: Vec<RgbColor> = order_rgb_by_brightness(&colors);
            r
        },
        ColorSelectionMode::HueShift => {
            if colors.len() == 1 {
                return colors;
            }
            let values: Vec<HsvColor> = to_hsv_all(&colors);
            let fan: Vec<HsvColor> = spread_hues(&values, *hue_shift);
            to_rgb_all(&fan)
        },
    }
}

/// Around a primary hue within one turn, a shift of at most one turn gives
/// hues from nothing to a full turn; a full turn itself is left as it is.
pub proof fn lemma_fan_hue_normal(primary_hue: int, shift: int, len: int, i: int)
    requires
        len > 1,
        0 <= i < len,
        0 <= primary_hue < FULL_TURN,
        -FULL_TURN <= shift <= FULL_TURN,
    ensures
        0 <= fan_hue(primary_hue, shift, len, i) <= FULL_TURN,
{
    lemma_fan_offset_bound(shift, len, i);
}

/// Default mode and hue shift keep the number of colours; brightness mode
/// keeps at least the primary and never adds a colour. Scaling keeps the
/// number.
pub proof fn lemma_corrected_len(
    colors: Seq<HsvColor>,
    mode: ColorSelectionMode,
    shift: int,
    factor: u32,
)
    requires
        colors.len() > 0,
    ensures
        1 <= corrected(colors, mode, shift).len() <= colors.len(),
        mode != ColorSelectionMode::Brightness ==> corrected(colors, mode, shift).len()
            == colors.len(),
        scaled(corrected(colors, mode, shift), factor).len() == corrected(
            colors,
            mode,
            shift,
        ).len(),
{
    if mode == ColorSelectionMode::Brightness {
        lemma_primary_index_in_range(colors);
        let p = primary_index(colors);
        let primary = colors[p];
        let before = colors.take(p);
        let after = colors.skip(p);
        assert(colors =~= before + after);
        Seq::filter_distributes_over_add(before, after, differs_from(primary));
        before.lemma_filter_len(differs_from(primary));
        let rest = after.skip(1);
        assert(after =~= seq![primary] + rest);
        Seq::filter_distributes_over_add(seq![primary], rest, differs_from(primary));
        rest.lemma_filter_len(differs_from(primary));
        assert(seq![primary].filter(differs_from(primary)).len() == 0) by {
            reveal_with_fuel(Seq::filter, 2);
            assert(seq![primary].drop_last() =~= Seq::<HsvColor>::empty());
        }
    }
}

} // verus!
