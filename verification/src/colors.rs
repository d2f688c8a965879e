//! Colour values.

use vstd::prelude::*;
use crate::text::{decimal, push_decimal, push_three_places, three_places};

verus! {

/// A colour of three 8-bit channels.
#[derive(Clone, Copy, Debug, PartialEq, Eq, Structural)]
pub struct RgbColor {
    pub red: u8,
    pub green: u8,
    pub blue: u8,
}

impl RgbColor {
    pub fn new(red: u8, green: u8, blue: u8) -> (r: Self)
        ensures
            r == (RgbColor { red, green, blue }),
    {
        RgbColor { red, green, blue }
    }

    pub fn red(&self) -> (r: u8)
        ensures
            r == self.red,
    {
        self.red
    }

    pub fn green(&self) -> (r: u8)
        ensures
            r == self.green,
    {
        self.green
    }

    pub fn blue(&self) -> (r: u8)
        ensures
            r == self.blue,
    {
        self.blue
    }
}

/// A colour by hue, saturation and value, in fixed point.
///
/// `hue` is in millionths of a degree and is not confined to one turn;
/// `saturation` and `value` are in millionths of one. Two colours are equal
/// when all three fields are.
#[derive(Clone, Copy, Debug, PartialEq, Eq, Structural)]
pub struct HsvColor {
    pub hue: i64,
    pub saturation: u32,
    pub value: u32,
}

impl HsvColor {
    pub fn new(hue: i64, saturation: u32, value: u32) -> (r: Self)
        ensures
            r == (HsvColor { hue, saturation, value }),
    {
        HsvColor { hue, saturation, value }
    }

    pub fn hue(&self) -> (r: i64)
        ensures
            r == self.hue,
    {
        self.hue
    }

    pub fn saturation(&self) -> (r: u32)
        ensures
            r == self.saturation,
    {
        self.saturation
    }

    pub fn value(&self) -> (r: u32)
        ensures
            r == self.value,
    {
        self.value
    }

    pub fn set_saturation(&mut self, saturation: u32)
        ensures
            *final(self) == (HsvColor { saturation, ..*old(self) }),
    {
        self.saturation = saturation;
    }

    pub fn set_value(&mut self, value: u32)
        ensures
            *final(self) == (HsvColor { value, ..*old(self) }),
    {
        self.value = value;
    }
}

/// A colour of three channels held as fractions of one, in millionths. A
/// channel may lie outside the range from nothing to one.
#[derive(Clone, Copy, Debug, PartialEq, Eq, Structural)]
pub struct RgbFraction {
    pub red: i64,
    pub green: i64,
    pub blue: i64,
}

impl RgbFraction {
    pub fn new(red: i64, green: i64, blue: i64) -> (r: Self)
        ensures
            r == (RgbFraction { red, green, blue }),
    {
        RgbFraction { red, green, blue }
    }
}

/// A colour that can be written as one token of the actuator's payload.
pub trait DesktopDyePayload {
    /// The token, character by character.
    spec fn payload(&self) -> Seq<char>;

    fn to_desktop_dye_payload(&self) -> (r: String)
        ensures
            r@ == self.payload(),
    ;
}

/// The three channels in decimal, separated by commas.
pub open spec fn rgb_token(red: u8, green: u8, blue: u8) -> Seq<char> {
    decimal(red as nat) + seq![','] + decimal(green as nat) + seq![','] + decimal(blue as nat)
}

/// The three channels in decimal and the brightness with three decimal
/// places, separated by commas.
pub open spec fn rgbb_token(red: u8, green: u8, blue: u8, brightness: int) -> Seq<char> {
    rgb_token(red, green, blue) + seq![','] + three_places(brightness)
}

/// Hue, saturation and brightness, each with three decimal places, separated
/// by commas.
pub open spec fn hsb_token(hue: int, saturation: int, brightness: int) -> Seq<char> {
    three_places(hue) + seq![','] + three_places(saturation) + seq![','] + three_places(
        brightness,
    )
}

/// Appends the three channels in decimal, separated by commas.
pub fn push_rgb_token(s: &mut String, red: u8, green: u8, blue: u8)
    ensures
        final(s)@ == old(s)@ + rgb_token(red, green, blue),
{
    push_decimal(s, red as u64);
    s.push(',');
    push_decimal(s, green as u64);
    s.push(',');
    push_decimal(s, blue as u64);
    assert(s@ =~= old(s)@ + rgb_token(red, green, blue));
}

/// A colour as the actuator takes it in its RGB format.
#[derive(Clone, Copy, Debug, PartialEq, Eq, Structural)]
pub struct HomeAssistantRgbColor {
    pub red: u8,
    pub green: u8,
    pub blue: u8,
}

impl HomeAssistantRgbColor {
    pub fn new(red: u8, green: u8, blue: u8) -> (r: Self)
        ensures
            r == (HomeAssistantRgbColor { red, green, blue }),
    {
        Self { red, green, blue }
    }
}

impl DesktopDyePayload for HomeAssistantRgbColor {
    open spec fn payload(&self) -> Seq<char> {
        rgb_token(self.red, self.green, self.blue)
    }

    fn to_desktop_dye_payload(&self) -> (r: String) {
        let mut out: String = String::new();
        push_rgb_token(&mut out, self.red, self.green, self.blue);
        out
    }
}

/// A colour as the actuator takes it in its RGBB format: three channels and a
/// brightness in millionths of a percent.
#[derive(Clone, Copy, Debug, PartialEq, Eq, Structural)]
pub struct HomeAssistantRgbbColor {
    pub red: u8,
    pub green: u8,
    pub blue: u8,
    pub brightness: i64,
}

impl HomeAssistantRgbbColor {
    pub fn new(red: u8, green: u8, blue: u8, brightness: i64) -> (r: Self)
        ensures
            r == (HomeAssistantRgbbColor { red, green, blue, brightness }),
    {
        Self { red, green, blue, brightness }
    }
}

impl DesktopDyePayload for HomeAssistantRgbbColor {
    open spec fn payload(&self) -> Seq<char> {
        rgbb_token(self.red, self.green, self.blue, self.brightness as int)
    }

    fn to_desktop_dye_payload(&self) -> (r: String) {
        let mut out: String = String::new();
        push_rgb_token(&mut out, self.red, self.green, self.blue);
        out.push(',');
        push_three_places(&mut out, self.brightness);
        assert(out@ =~= self.payload());
        out
    }
}

/// A colour as the actuator takes it in its HSB format: hue in millionths of
/// a degree, saturation and brightness in millionths of a percent.
#[derive(Clone, Copy, Debug, PartialEq, Eq, Structural)]
pub struct HomeAssistantHsbColor {
    pub hue: i64,
    pub saturation: i64,
    pub brightness: i64,
}

impl HomeAssistantHsbColor {
    pub fn new(hue: i64, saturation: i64, brightness: i64) -> (r: Self)
        ensures
            r == (HomeAssistantHsbColor { hue, saturation, brightness }),
    {
        Self { hue, saturation, brightness }
    }
}

impl DesktopDyePayload for HomeAssistantHsbColor {
    open spec fn payload(&self) -> Seq<char> {
        hsb_token(self.hue as int, self.saturation as int, self.brightness as int)
    }

    fn to_desktop_dye_payload(&self) -> (r: String) {
        let mut out: String = String::new();
        push_three_places(&mut out, self.hue);
        out.push(',');
        push_three_places(&mut out, self.saturation);
        out.push(',');
        push_three_places(&mut out, self.brightness);
        assert(out@ =~= self.payload());
        out
    }
}

} // verus!
