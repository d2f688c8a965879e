//! Conversion between 8-bit RGB and fixed-point HSV.

use vstd::prelude::*;
use vstd::string::StringExecFns;
use crate::colors::{
    push_rgb_token, rgb_token, HomeAssistantHsbColor, HomeAssistantRgbColor,
    HomeAssistantRgbbColor, HsvColor, RgbColor, RgbFraction,
};
use crate::config::ColorFormat;
use crate::text::{push_three_places, push_two_hex, three_places, two_hex};
use crate::units::{round_float, rounded, FULL_TURN, SEXTANT, UNIT};

verus! {

/// The product of one whole and one hue segment: the denominator of the
/// channels that rise and fall within a segment.
pub const SEGMENT_SCALE: u64 = 60_000_000_000_000;

/// An 8-bit channel as a fraction of one in millionths, rounded down: 0 is
/// exactly nothing and 255 exactly one.
pub open spec fn channel_fraction(component: u8) -> u32 {
    ((component as int * UNIT as int) / 255) as u32
}

/// A fraction of one in millionths as an 8-bit channel: nothing or less gives
/// 0, one or more gives 255, and what lies between is multiplied by 255 and
/// cut off, not rounded.
pub open spec fn fraction_channel(fraction: int) -> u8 {
    if fraction <= 0 {
        0u8
    } else if fraction >= UNIT {
        255u8
    } else {
        ((fraction * 255) / (UNIT as int)) as u8
    }
}

pub open spec fn max3(a: int, b: int, c: int) -> int {
    if a >= b && a >= c {
        a
    } else if b >= c {
        b
    } else {
        c
    }
}

pub open spec fn min3(a: int, b: int, c: int) -> int {
    if a <= b && a <= c {
        a
    } else if b <= c {
        b
    } else {
        c
    }
}

/// `difference / chroma` of a hue segment in millionths of a degree, rounded
/// down; `difference` may be negative.
pub open spec fn segment_offset(difference: int, chroma: int) -> int
    recommends
        chroma > 0,
{
    if difference >= 0 {
        (SEXTANT * difference) / chroma
    } else {
        -((SEXTANT * (-difference) + chroma - 1) / chroma)
    }
}

/// The hue of a colour: nothing for a grey, otherwise the angle on the colour
/// wheel at which the greatest channel stands, moved towards the greater of
/// the other two.
pub open spec fn hue_of(rgb: RgbColor) -> int {
    let r = rgb.red as int;
    let g = rgb.green as int;
    let b = rgb.blue as int;
    let top = max3(r, g, b);
    let chroma = top - min3(r, g, b);
    if chroma == 0 {
        0
    } else if top == r {
        if g >= b {
            segment_offset(g - b, chroma)
        } else {
            FULL_TURN + segment_offset(g - b, chroma)
        }
    } else if top == g {
        2 * SEXTANT + segment_offset(b - r, chroma)
    } else {
        4 * SEXTANT + segment_offset(r - g, chroma)
    }
}

/// The saturation of a colour: the share of the greatest channel by which the
/// least falls short of it.
pub open spec fn saturation_of(rgb: RgbColor) -> int {
    let top = max3(rgb.red as int, rgb.green as int, rgb.blue as int);
    let chroma = top - min3(rgb.red as int, rgb.green as int, rgb.blue as int);
    if top == 0 {
        0
    } else {
        (chroma * UNIT) / top
    }
}

/// The value of a colour: its greatest channel as a fraction of one.
pub open spec fn value_of(rgb: RgbColor) -> u32 {
    channel_fraction(max3(rgb.red as int, rgb.green as int, rgb.blue as int) as u8)
}

/// A colour of 8-bit channels by hue, saturation and value.
pub open spec fn hsv_of(rgb: RgbColor) -> HsvColor {
    HsvColor {
        hue: hue_of(rgb) as i64,
        saturation: saturation_of(rgb) as u32,
        value: value_of(rgb),
    }
}

/// A saturation or value confined to one.
pub open spec fn capped(x: u32) -> int {
    if x > UNIT {
        UNIT as int
    } else {
        x as int
    }
}

/// The least channel of a colour of saturation `s` and value `v`.
pub open spec fn low_fraction(s: int, v: int) -> int {
    (v * (UNIT - s)) / (UNIT as int)
}

/// The middle channel in a segment through which it falls, `f` into the segment.
pub open spec fn falling_fraction(s: int, v: int, f: int) -> int {
    (v * (SEGMENT_SCALE - s * f)) / (SEGMENT_SCALE as int)
}

/// The middle channel in a segment through which it rises, `f` into the segment.
pub open spec fn rising_fraction(s: int, v: int, f: int) -> int {
    (v * (SEGMENT_SCALE - s * (SEXTANT - f))) / (SEGMENT_SCALE as int)
}

/// The channels of a colour given by hue, saturation and value, as fractions
/// of one. The hue is taken within one turn, saturation and value are
/// confined to one.
pub open spec fn fractions_of(hsv: HsvColor) -> RgbFraction {
    let s = capped(hsv.saturation);
    let v = capped(hsv.value);
    let h = (hsv.hue as int) % (FULL_TURN as int);
    let segment = h / (SEXTANT as int);
    let f = h % (SEXTANT as int);
    let low = low_fraction(s, v) as i64;
    let fall = falling_fraction(s, v, f) as i64;
    let rise = rising_fraction(s, v, f) as i64;
    let top = v as i64;
    if segment == 0 {
        RgbFraction { red: top, green: rise, blue: low }
    } else if segment == 1 {
        RgbFraction { red: fall, green: top, blue: low }
    } else if segment == 2 {
        RgbFraction { red: low, green: top, blue: rise }
    } else if segment == 3 {
        RgbFraction { red: low, green: fall, blue: top }
    } else if segment == 4 {
        RgbFraction { red: rise, green: low, blue: top }
    } else {
        RgbFraction { red: top, green: low, blue: fall }
    }
}

/// Fractions of one as 8-bit channels.
pub open spec fn quantized(rgb: RgbFraction) -> RgbColor {
    RgbColor {
        red: fraction_channel(rgb.red as int),
        green: fraction_channel(rgb.green as int),
        blue: fraction_channel(rgb.blue as int),
    }
}

/// A colour given by hue, saturation and value in 8-bit channels.
pub open spec fn rgb_of(hsv: HsvColor) -> RgbColor {
    quantized(fractions_of(hsv))
}

/// Turns an 8-bit channel into a fraction of one, in millionths.
pub fn u8_to_f64(component: u8) -> (r: u32)
    ensures
        r == channel_fraction(component),
        r <= UNIT,
        component == 0 ==> r == 0,
        component == 255 ==> r == UNIT,
{
    assert(component * UNIT == component * 1_000_000) by (nonlinear_arith)
        requires
            UNIT == 1_000_000,
    ;
    let wide: u64 = (component as u64) * (UNIT as u64);
    let fraction: u64 = wide / 255;
    fraction as u32
}

/// Turns a fraction of one, in millionths, into an 8-bit channel.
pub fn f64_to_u8(component: i64) -> (r: u8)
    ensures
        r == fraction_channel(component as int),
{
    if component <= 0 {
        0
    } else if component >= UNIT as i64 {
        255
    } else {
        ((component * 255) / (UNIT as i64)) as u8
    }
}

/// Turns fractions of one into 8-bit channels.
pub fn rgb_f64_to_rgb_u8(rgb: &RgbFraction) -> (r: RgbColor)
    ensures
        r == quantized(*rgb),
{
    RgbColor { red: f64_to_u8(rgb.red), green: f64_to_u8(rgb.green), blue: f64_to_u8(rgb.blue) }
}

fn offset_in_segment(difference: i64, chroma: i64) -> (r: i64)
    requires
        0 < chroma <= 255,
        -chroma <= difference <= chroma,
    ensures
        r == segment_offset(difference as int, chroma as int),
        -SEXTANT <= r <= SEXTANT,
        difference >= 0 ==> r >= 0,
        difference < 0 ==> r < 0,
{
    if difference >= 0 {
        let scaled: i64 = SEXTANT * difference;
        let r: i64 = scaled / chroma;
        proof {
            vstd::arithmetic::div_mod::lemma_fundamental_div_mod(scaled as int, chroma as int);
            vstd::arithmetic::div_mod::lemma_mod_bound(scaled as int, chroma as int);
            assert(r <= SEXTANT) by (nonlinear_arith)
                requires
                    chroma * r <= scaled,
                    scaled <= SEXTANT * chroma,
                    chroma > 0,
            ;
        }
        r
    } else {
        let scaled: i64 = SEXTANT * (-difference) + chroma - 1;
        let r: i64 = scaled / chroma;
        proof {
            vstd::arithmetic::div_mod::lemma_fundamental_div_mod(scaled as int, chroma as int);
            vstd::arithmetic::div_mod::lemma_mod_bound(scaled as int, chroma as int);
            assert(r <= SEXTANT) by (nonlinear_arith)
                requires
                    chroma * r <= scaled,
                    scaled < SEXTANT * chroma + chroma,
                    chroma > 0,
            ;
            assert(r >= 1) by (nonlinear_arith)
                requires
                    scaled < chroma * r + chroma,
                    scaled >= chroma,
                    chroma > 0,
            ;
        }
        -r
    }
}

/// Converts a colour of 8-bit channels to hue, saturation and value.
pub fn rgb_to_hsv(rgb: &RgbColor) -> (r: HsvColor)
    ensures
        r == hsv_of(*rgb),
        0 <= r.hue < FULL_TURN,
        r.saturation <= UNIT,
        r.value <= UNIT,
{
    let red: i64 = rgb.red as i64;
    let green: i64 = rgb.green as i64;
    let blue: i64 = rgb.blue as i64;
    let top: i64 = if red >= green && red >= blue {
        red
    } else if green >= blue {
        green
    } else {
        blue
    };
    let bottom: i64 = if red <= green && red <= blue {
        red
    } else if green <= blue {
        green
    } else {
        blue
    };
    let chroma: i64 = top - bottom;
    let hue: i64 = if chroma == 0 {
        0
    } else if top == red {
        let offset: i64 = offset_in_segment(green - blue, chroma);
        if green >= blue {
            offset
        } else {
            FULL_TURN + offset
        }
    } else if top == green {
        2 * SEXTANT + offset_in_segment(blue - red, chroma)
    } else {
        4 * SEXTANT + offset_in_segment(red - green, chroma)
    };
    let saturation: u32 = if top == 0 {
        0
    } else {
        let s: i64 = (chroma * (UNIT as i64)) / top;
        proof {
            vstd::arithmetic::div_mod::lemma_fundamental_div_mod(chroma * UNIT, top as int);
            vstd::arithmetic::div_mod::lemma_mod_bound(chroma * UNIT, top as int);
            assert(0 <= s <= UNIT) by (nonlinear_arith)
                requires
                    top * s <= chroma * UNIT,
                    chroma * UNIT < top * s + top,
                    0 <= chroma <= top,
                    top > 0,
            ;
        }
        s as u32
    };
    let value: u32 = u8_to_f64(top as u8);
    HsvColor { hue, saturation, value }
}

/// A share `num / den` of `v`, rounded down, with `num` at most `den`.
fn share(v: u64, num: u64, den: u64) -> (r: u64)
    requires
        v <= UNIT,
        0 < den <= SEGMENT_SCALE,
        num <= den,
    ensures
        r == (v * num) / (den as int),
        r <= v,
{
    assert(v * num <= v * den <= UNIT * SEGMENT_SCALE) by (nonlinear_arith)
        requires
            v <= UNIT,
            num <= den,
            den <= SEGMENT_SCALE,
    ;
    assert(UNIT * SEGMENT_SCALE == 60_000_000_000_000_000_000) by (nonlinear_arith)
        requires
            UNIT == 1_000_000,
            SEGMENT_SCALE == 60_000_000_000_000,
    ;
    let product: u128 = (v as u128) * (num as u128);
    let r: u128 = product / (den as u128);
    proof {
        vstd::arithmetic::div_mod::lemma_fundamental_div_mod(product as int, den as int);
        vstd::arithmetic::div_mod::lemma_mod_bound(product as int, den as int);
        assert(r <= v) by (nonlinear_arith)
            requires
                den * r <= product,
                product <= v * den,
                den > 0,
        ;
    }
    r as u64
}

fn hsv_fractions(hsv: &HsvColor) -> (r: RgbFraction)
    ensures
        r == fractions_of(*hsv),
{
    let s: u64 = if hsv.saturation > UNIT {
        UNIT as u64
    } else {
        hsv.saturation as u64
    };
    let v: u64 = if hsv.value > UNIT {
        UNIT as u64
    } else {
        hsv.value as u64
    };
    proof {
        vstd::arithmetic::div_mod::lemma_mod_bound(hsv.hue as int, FULL_TURN as int);
    }
    let h: i64 = match hsv.hue.checked_rem_euclid(FULL_TURN) {
        Some(h) => h,
        None => 0,
    };
    let segment: i64 = h / SEXTANT;
    let f: u64 = (h % SEXTANT) as u64;
    assert(s * f <= SEGMENT_SCALE && s * (SEXTANT - f) <= SEGMENT_SCALE) by (nonlinear_arith)
        requires
            s <= 1_000_000,
            0 <= f < 60_000_000,
            SEXTANT == 60_000_000,
            SEGMENT_SCALE == 60_000_000_000_000,
    ;
    let low: i64 = share(v, UNIT as u64 - s, UNIT as u64) as i64;
    let fall: i64 = share(v, SEGMENT_SCALE - s * f, SEGMENT_SCALE) as i64;
    let rise: i64 = share(v, SEGMENT_SCALE - s * (SEXTANT as u64 - f), SEGMENT_SCALE) as i64;
    let top: i64 = v as i64;
    if segment == 0 {
        RgbFraction { red: top, green: rise, blue: low }
    } else if segment == 1 {
        RgbFraction { red: fall, green: top, blue: low }
    } else if segment == 2 {
        RgbFraction { red: low, green: top, blue: rise }
    } else if segment == 3 {
        RgbFraction { red: low, green: fall, blue: top }
    } else if segment == 4 {
        RgbFraction { red: rise, green: low, blue: top }
    } else {
        RgbFraction { red: top, green: low, blue: fall }
    }
}

/// Converts a colour given by hue, saturation and value to 8-bit channels.
pub fn hsv_to_rgb(hsv: &HsvColor) -> (r: RgbColor)
    ensures
        r == rgb_of(*hsv),
{
    rgb_f64_to_rgb_u8(&hsv_fractions(hsv))
}

/// A colour that has a form in 8-bit channels.
pub trait ToRgb {
    spec fn rgb(&self) -> RgbColor;

    fn to_rgb(&self) -> (r: RgbColor)
        ensures
            r == self.rgb(),
    ;
}

/// A colour that has a form in hue, saturation and value.
pub trait ToHsv {
    spec fn hsv(&self) -> HsvColor;

    fn to_hsv(&self) -> (r: HsvColor)
        ensures
            r == self.hsv(),
    ;
}

/// A colour that can be written as six hexadecimal digits.
pub trait ToHexValue {
    spec fn hex_value(&self) -> Seq<char>;

    fn to_hex_value(&self) -> (r: String)
        ensures
            r@ == self.hex_value(),
    ;
}

/// A colour that can be written as six hexadecimal digits.
pub trait ToHex {
    spec fn hex(&self) -> Seq<char>;

    fn to_hex(&self) -> (r: String)
        ensures
            r@ == self.hex(),
    ;
}

/// A colour that can be handed out as an array of its three channels.
pub trait ToRgbVec {
    spec fn rgb_vec(&self) -> Seq<u8>;

    fn to_rgb_vec(&self) -> (r: [u8; 3])
        ensures
            r@ == self.rgb_vec(),
    ;
}

/// A colour that can be shown in the way of a payload format.
pub trait DisplayForColorFormat {
    spec fn display(&self, color_format: ColorFormat) -> Seq<char>;

    fn display_for_color_format(&self, color_format: &ColorFormat) -> (r: String)
        ensures
            r@ == self.display(*color_format),
    ;
}

/// The channels of a colour as two hexadecimal digits each, in lower case and
/// without a prefix.
pub open spec fn hex_of(rgb: RgbColor) -> Seq<char> {
    two_hex(rgb.red) + two_hex(rgb.green) + two_hex(rgb.blue)
}

/// A percentage in millionths as a fraction of one in millionths, confined to
/// what a saturation or value can hold.
pub open spec fn percent_fraction(percent: i64) -> u32 {
    if percent <= 0 {
        0u32
    } else if percent / 100 > u32::MAX {
        u32::MAX
    } else {
        (percent / 100) as u32
    }
}

/// A colour as it is shown in the way of a payload format.
pub open spec fn displayed(rgb: RgbColor, color_format: ColorFormat) -> Seq<char> {
    match color_format {
        ColorFormat::Rgb => "RGB("@ + decimal_list(rgb) + ")"@,
        ColorFormat::Rgbb => "RGBB("@ + rgb_token(rgb.red, rgb.green, rgb.blue) + ","@
            + three_places(hsv_of(rgb).value * 100) + ")"@,
        ColorFormat::Hsb => "H: "@ + three_places(hsv_of(rgb).hue as int) + "\u{b0}, S: "@
            + three_places(hsv_of(rgb).saturation as int) + ", B: "@ + three_places(
            hsv_of(rgb).value as int,
        ),
    }
}

/// The three channels in decimal, separated by a comma and a blank.
pub open spec fn decimal_list(rgb: RgbColor) -> Seq<char> {
    crate::text::decimal(rgb.red as nat) + ", "@ + crate::text::decimal(rgb.green as nat) + ", "@
        + crate::text::decimal(rgb.blue as nat)
}

impl ToRgb for RgbColor {
    open spec fn rgb(&self) -> RgbColor {
        *self
    }

    fn to_rgb(&self) -> (r: RgbColor) {
        *self
    }
}

impl ToRgb for RgbFraction {
    open spec fn rgb(&self) -> RgbColor {
        quantized(*self)
    }

    fn to_rgb(&self) -> (r: RgbColor) {
        rgb_f64_to_rgb_u8(self)
    }
}

impl ToRgb for HomeAssistantRgbbColor {
    open spec fn rgb(&self) -> RgbColor {
        RgbColor { red: self.red, green: self.green, blue: self.blue }
    }

    fn to_rgb(&self) -> (r: RgbColor) {
        RgbColor::new(self.red, self.green, self.blue)
    }
}

impl ToRgb for HsvColor {
    open spec fn rgb(&self) -> RgbColor {
        rgb_of(*self)
    }

    fn to_rgb(&self) -> (r: RgbColor) {
        hsv_to_rgb(self)
    }
}

impl<T: ToRgb> ToHsv for T {
    open spec fn hsv(&self) -> HsvColor {
        hsv_of(self.rgb())
    }

    fn to_hsv(&self) -> (r: HsvColor) {
        let rgb: RgbColor = self.to_rgb();
        rgb_to_hsv(&rgb)
    }
}

impl ToHsv for HomeAssistantHsbColor {
    open spec fn hsv(&self) -> HsvColor {
        HsvColor {
            hue: self.hue,
            saturation: percent_fraction(self.saturation),
            value: percent_fraction(self.brightness),
        }
    }

    fn to_hsv(&self) -> (r: HsvColor) {
        HsvColor::new(
            self.hue,
            fraction_of_percent(self.saturation),
            fraction_of_percent(self.brightness),
        )
    }
}

fn fraction_of_percent(percent: i64) -> (r: u32)
    ensures
        r == percent_fraction(percent),
{
    if percent <= 0 {
        0
    } else if percent / 100 > 0xffff_ffff {
        0xffff_ffff
    } else {
        (percent / 100) as u32
    }
}

impl<T: ToRgb> ToHexValue for T {
    open spec fn hex_value(&self) -> Seq<char> {
        hex_of(self.rgb())
    }

    fn to_hex_value(&self) -> (r: String) {
        let rgb: RgbColor = self.to_rgb();
        let mut out: String = String::new();
        push_two_hex(&mut out, rgb.red);
        push_two_hex(&mut out, rgb.green);
        push_two_hex(&mut out, rgb.blue);
        assert(out@ =~= hex_of(rgb));
        out
    }
}

impl<T: ToRgb> ToHex for T {
    open spec fn hex(&self) -> Seq<char> {
        hex_of(self.rgb())
    }

    fn to_hex(&self) -> (r: String) {
        self.to_hex_value()
    }
}

impl ToRgbVec for RgbColor {
    open spec fn rgb_vec(&self) -> Seq<u8> {
        seq![self.red, self.green, self.blue]
    }

    fn to_rgb_vec(&self) -> (r: [u8; 3]) {
        let r: [u8; 3] = [self.red, self.green, self.blue];
        assert(r@ =~= seq![self.red, self.green, self.blue]);
        r
    }
}

impl ToRgbVec for RgbFraction {
    open spec fn rgb_vec(&self) -> Seq<u8> {
        quantized(*self).rgb_vec()
    }

    fn to_rgb_vec(&self) -> (r: [u8; 3]) {
        rgb_f64_to_rgb_u8(self).to_rgb_vec()
    }
}

impl<T: ToRgb> DisplayForColorFormat for T {
    open spec fn display(&self, color_format: ColorFormat) -> Seq<char> {
        displayed(self.rgb(), color_format)
    }

    fn display_for_color_format(&self, color_format: &ColorFormat) -> (r: String) {
        let rgb: RgbColor = self.to_rgb();
        let hsv: HsvColor = rgb_to_hsv(&rgb);
        let mut out: String = String::new();
        match color_format {
            ColorFormat::Rgb => {
                out.append("RGB(");
                crate::text::push_decimal(&mut out, rgb.red as u64);
                out.append(", ");
                crate::text::push_decimal(&mut out, rgb.green as u64);
                out.append(", ");
                crate::text::push_decimal(&mut out, rgb.blue as u64);
                out.append(")");
            },
            ColorFormat::Rgbb => {
                out.append("RGBB(");
                push_rgb_token(&mut out, rgb.red, rgb.green, rgb.blue);
                out.append(",");
                push_three_places(&mut out, (hsv.value as i64) * 100);
                out.append(")");
            },
            ColorFormat::Hsb => {
                out.append("H: ");
                push_three_places(&mut out, hsv.hue);
                out.append("\u{b0}, S: ");
                push_three_places(&mut out, hsv.saturation as i64);
                out.append(", B: ");
                push_three_places(&mut out, hsv.value as i64);
            },
        }
        assert(out@ =~= displayed(rgb, *color_format));
        out
    }
}

impl HomeAssistantRgbColor {
    /// The colour with the same channels.
    pub fn from_rgb(rgb: RgbColor) -> (r: Self)
        ensures
            r == (HomeAssistantRgbColor { red: rgb.red, green: rgb.green, blue: rgb.blue }),
    {
        Self::new(rgb.red, rgb.green, rgb.blue)
    }

    /// The colour with the channels to which hue, saturation and value convert.
    pub fn from_hsv(hsv: HsvColor) -> (r: Self)
        ensures
            r == (HomeAssistantRgbColor {
                red: rgb_of(hsv).red,
                green: rgb_of(hsv).green,
                blue: rgb_of(hsv).blue,
            }),
    {
        Self::from_rgb(hsv_to_rgb(&hsv))
    }
}

impl HomeAssistantRgbbColor {
    /// The colour with the same channels, and for brightness its value as a percentage.
    pub fn from_rgb(rgb: RgbColor) -> (r: Self)
        ensures
            r == (HomeAssistantRgbbColor {
                red: rgb.red,
                green: rgb.green,
                blue: rgb.blue,
                brightness: (hsv_of(rgb).value * 100) as i64,
            }),
    {
        let hsv: HsvColor = rgb_to_hsv(&rgb);
        Self::new(rgb.red, rgb.green, rgb.blue, (hsv.value as i64) * 100)
    }

    /// What `from_rgb` makes of the channels to which hue, saturation and value convert.
    pub fn from_hsv(hsv: HsvColor) -> (r: Self)
        ensures
            r == (HomeAssistantRgbbColor {
                red: rgb_of(hsv).red,
                green: rgb_of(hsv).green,
                blue: rgb_of(hsv).blue,
                brightness: (hsv_of(rgb_of(hsv)).value * 100) as i64,
            }),
    {
        Self::from_rgb(hsv_to_rgb(&hsv))
    }
}

impl HomeAssistantHsbColor {
    /// The hue and the saturation as a percentage, both rounded to three
    /// decimal places, and the value as a percentage.
    pub fn from_hsv(hsv: HsvColor) -> (r: Self)
        requires
            i64::MIN + UNIT <= hsv.hue <= i64::MAX - UNIT,
        ensures
            r == (HomeAssistantHsbColor {
                hue: rounded(3, hsv.hue as int) as i64,
                saturation: rounded(3, hsv.saturation * 100) as i64,
                brightness: (hsv.value * 100) as i64,
            }),
    {
        Self::new(
            round_float(3, hsv.hue),
            round_float(3, (hsv.saturation as i64) * 100),
            (hsv.value as i64) * 100,
        )
    }

    /// What `from_hsv` makes of the hue, saturation and value of the channels.
    pub fn from_rgb(rgb: RgbColor) -> (r: Self)
        ensures
            r == (HomeAssistantHsbColor {
                hue: rounded(3, hsv_of(rgb).hue as int) as i64,
                saturation: rounded(3, hsv_of(rgb).saturation * 100) as i64,
                brightness: (hsv_of(rgb).value * 100) as i64,
            }),
    {
        Self::from_hsv(rgb_to_hsv(&rgb))
    }
}

/// Each colour of a palette by hue, saturation and value.
pub open spec fn hsv_all(palette: Seq<RgbColor>) -> Seq<HsvColor> {
    Seq::new(palette.len(), |i: int| hsv_of(palette[i]))
}

/// Each colour of a palette in 8-bit channels.
pub open spec fn rgb_all(palette: Seq<HsvColor>) -> Seq<RgbColor> {
    Seq::new(palette.len(), |i: int| rgb_of(palette[i]))
}

/// Converts each colour of a palette to hue, saturation and value.
pub fn to_hsv_all(palette: &Vec<RgbColor>) -> (r: Vec<HsvColor>)
    ensures
        r@ == hsv_all(palette@),
{
    let mut out: Vec<HsvColor> = Vec::new();
    let mut i: usize = 0;
    while i < palette.len()
        invariant
            i <= palette.len(),
            out@.len() == i,
            forall|j: int| 0 <= j < i ==> out@[j] == hsv_of(palette@[j]),
        decreases palette.len() - i,
    {
        out.push(rgb_to_hsv(&palette[i]));
        i += 1;
    }
    assert(out@ =~= hsv_all(palette@));
    out
}

/// Converts each colour of a palette to 8-bit channels.
pub fn to_rgb_all(palette: &Vec<HsvColor>) -> (r: Vec<RgbColor>)
    ensures
        r@ == rgb_all(palette@),
{
    let mut out: Vec<RgbColor> = Vec::new();
    let mut i: usize = 0;
    while i < palette.len()
        invariant
            i <= palette.len(),
            out@.len() == i,
            forall|j: int| 0 <= j < i ==> out@[j] == rgb_of(palette@[j]),
        decreases palette.len() - i,
    {
        out.push(hsv_to_rgb(&palette[i]));
        i += 1;
    }
    assert(out@ =~= rgb_all(palette@));
    out
}

} // verus!
