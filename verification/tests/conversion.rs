use desktop_dye::color_conversion::{
    f64_to_u8, hsv_to_rgb, rgb_f64_to_rgb_u8, rgb_to_hsv, to_hsv_all, to_rgb_all, u8_to_f64,
    DisplayForColorFormat, ToHex, ToHexValue, ToHsv, ToRgb, ToRgbVec,
};
use desktop_dye::colors::{
    HomeAssistantHsbColor, HomeAssistantRgbColor, HomeAssistantRgbbColor, HsvColor, RgbColor,
    RgbFraction,
};
use desktop_dye::config::ColorFormat;
use desktop_dye::units::{power_of_ten, round_float, round_to_count};

fn hsv(hue: i64, saturation: u32, value: u32) -> HsvColor {
    HsvColor::new(hue, saturation, value)
}

#[test]
fn channel_to_fraction_is_exact_at_the_ends() {
    assert_eq!(u8_to_f64(0), 0);
    assert_eq!(u8_to_f64(255), 1_000_000);
}

#[test]
fn channel_to_fraction_rounds_down() {
    assert_eq!(u8_to_f64(128), 501_960);
    assert_eq!(u8_to_f64(1), 3_921);
    assert_eq!(u8_to_f64(254), 996_078);
}

#[test]
fn fraction_to_channel_clamps() {
    assert_eq!(f64_to_u8(0), 0);
    assert_eq!(f64_to_u8(-5), 0);
    assert_eq!(f64_to_u8(i64::MIN), 0);
    assert_eq!(f64_to_u8(1_000_000), 255);
    assert_eq!(f64_to_u8(2_000_000), 255);
    assert_eq!(f64_to_u8(i64::MAX), 255);
}

#[test]
fn fraction_to_channel_truncates() {
    assert_eq!(f64_to_u8(999_999), 254);
    assert_eq!(f64_to_u8(501_960), 127);
    assert_eq!(f64_to_u8(501_961), 128);
    assert_eq!(f64_to_u8(3_921), 0);
    assert_eq!(f64_to_u8(3_922), 1);
}

#[test]
fn fractions_to_channels() {
    let rgb = rgb_f64_to_rgb_u8(&RgbFraction::new(1_500_000, 500_000, -1));
    assert_eq!(rgb, RgbColor::new(255, 127, 0));
}

#[test]
fn primaries_to_hsv() {
    assert_eq!(rgb_to_hsv(&RgbColor::new(255, 0, 0)), hsv(0, 1_000_000, 1_000_000));
    assert_eq!(rgb_to_hsv(&RgbColor::new(0, 255, 0)), hsv(120_000_000, 1_000_000, 1_000_000));
    assert_eq!(rgb_to_hsv(&RgbColor::new(0, 0, 255)), hsv(240_000_000, 1_000_000, 1_000_000));
}

#[test]
fn secondaries_to_hsv() {
    assert_eq!(rgb_to_hsv(&RgbColor::new(255, 255, 0)), hsv(60_000_000, 1_000_000, 1_000_000));
    assert_eq!(rgb_to_hsv(&RgbColor::new(0, 255, 255)), hsv(180_000_000, 1_000_000, 1_000_000));
    assert_eq!(rgb_to_hsv(&RgbColor::new(255, 0, 255)), hsv(300_000_000, 1_000_000, 1_000_000));
}

#[test]
fn greys_have_neither_hue_nor_saturation() {
    assert_eq!(rgb_to_hsv(&RgbColor::new(0, 0, 0)), hsv(0, 0, 0));
    assert_eq!(rgb_to_hsv(&RgbColor::new(255, 255, 255)), hsv(0, 0, 1_000_000));
    assert_eq!(rgb_to_hsv(&RgbColor::new(90, 90, 90)), hsv(0, 0, 352_941));
}

#[test]
fn mixed_colours_to_hsv() {
    assert_eq!(rgb_to_hsv(&RgbColor::new(128, 64, 32)), hsv(20_000_000, 750_000, 501_960));
    assert_eq!(rgb_to_hsv(&RgbColor::new(10, 200, 30)), hsv(126_315_789, 950_000, 784_313));
    assert_eq!(rgb_to_hsv(&RgbColor::new(1, 2, 3)), hsv(210_000_000, 666_666, 11_764));
    assert_eq!(rgb_to_hsv(&RgbColor::new(200, 30, 40)), hsv(356_470_588, 850_000, 784_313));
    assert_eq!(rgb_to_hsv(&RgbColor::new(255, 128, 0)), hsv(30_117_647, 1_000_000, 1_000_000));
}

#[test]
fn hsv_to_channels() {
    assert_eq!(hsv_to_rgb(&hsv(0, 1_000_000, 1_000_000)), RgbColor::new(255, 0, 0));
    assert_eq!(hsv_to_rgb(&hsv(120_000_000, 1_000_000, 1_000_000)), RgbColor::new(0, 255, 0));
    assert_eq!(hsv_to_rgb(&hsv(240_000_000, 1_000_000, 1_000_000)), RgbColor::new(0, 0, 255));
    assert_eq!(hsv_to_rgb(&hsv(200_000_000, 400_000, 700_000)), RgbColor::new(107, 154, 178));
    assert_eq!(hsv_to_rgb(&hsv(120_000_000, 500_000, 900_000)), RgbColor::new(114, 229, 114));
    assert_eq!(hsv_to_rgb(&hsv(0, 500_000, 500_000)), RgbColor::new(127, 63, 63));
    assert_eq!(hsv_to_rgb(&hsv(0, 0, 123_456)), RgbColor::new(31, 31, 31));
}

#[test]
fn hsv_to_channels_in_every_segment() {
    assert_eq!(hsv_to_rgb(&hsv(30_000_000, 1_000_000, 1_000_000)), RgbColor::new(255, 127, 0));
    assert_eq!(hsv_to_rgb(&hsv(90_000_000, 1_000_000, 1_000_000)), RgbColor::new(127, 255, 0));
    assert_eq!(hsv_to_rgb(&hsv(150_000_000, 1_000_000, 1_000_000)), RgbColor::new(0, 255, 127));
    assert_eq!(hsv_to_rgb(&hsv(210_000_000, 1_000_000, 1_000_000)), RgbColor::new(0, 127, 255));
    assert_eq!(hsv_to_rgb(&hsv(270_000_000, 1_000_000, 1_000_000)), RgbColor::new(127, 0, 255));
    assert_eq!(hsv_to_rgb(&hsv(330_000_000, 1_000_000, 1_000_000)), RgbColor::new(255, 0, 127));
}

#[test]
fn hue_outside_one_turn_is_taken_within_it() {
    let inside = hsv_to_rgb(&hsv(350_000_000, 1_000_000, 1_000_000));
    assert_eq!(inside, RgbColor::new(255, 0, 42));
    assert_eq!(hsv_to_rgb(&hsv(-10_000_000, 1_000_000, 1_000_000)), inside);
    assert_eq!(hsv_to_rgb(&hsv(710_000_000, 1_000_000, 1_000_000)), inside);
    assert_eq!(hsv_to_rgb(&hsv(360_000_000, 1_000_000, 1_000_000)), RgbColor::new(255, 0, 0));
    assert_eq!(hsv_to_rgb(&hsv(i64::MIN, 1_000_000, 1_000_000)).red > 0, true);
    assert_eq!(hsv_to_rgb(&hsv(i64::MAX, 1_000_000, 1_000_000)).red > 0, true);
}

#[test]
fn saturation_and_value_above_one_are_confined() {
    assert_eq!(
        hsv_to_rgb(&hsv(750_000_000, 2_000_000, 3_000_000)),
        hsv_to_rgb(&hsv(30_000_000, 1_000_000, 1_000_000))
    );
    assert_eq!(hsv_to_rgb(&hsv(0, u32::MAX, u32::MAX)), RgbColor::new(255, 0, 0));
}

#[test]
fn round_trip_shows_the_truncation_bias() {
    let back = hsv_to_rgb(&rgb_to_hsv(&RgbColor::new(128, 64, 32)));
    assert_eq!(back, RgbColor::new(127, 63, 31));
    let back = hsv_to_rgb(&rgb_to_hsv(&RgbColor::new(10, 200, 30)));
    assert_eq!(back, RgbColor::new(9, 199, 29));
}

#[test]
fn round_trip_stays_within_one_per_channel() {
    let mut r: u16 = 0;
    while r < 256 {
        let mut g: u16 = 0;
        while g < 256 {
            let mut b: u16 = 0;
            while b < 256 {
                let rgb = RgbColor::new(r as u8, g as u8, b as u8);
                let back = hsv_to_rgb(&rgb_to_hsv(&rgb));
                assert!(back.red <= rgb.red && rgb.red - back.red <= 1, "{:?}", rgb);
                assert!(back.green <= rgb.green && rgb.green - back.green <= 1, "{:?}", rgb);
                assert!(back.blue <= rgb.blue && rgb.blue - back.blue <= 1, "{:?}", rgb);
                b += 3;
            }
            g += 3;
        }
        r += 3;
    }
}

#[test]
fn round_trip_on_greys_and_edges() {
    let mut c: u16 = 0;
    while c < 256 {
        let channel = c as u8;
        for rgb in [
            RgbColor::new(channel, channel, channel),
            RgbColor::new(channel, 0, 0),
            RgbColor::new(0, channel, 255),
            RgbColor::new(255, channel, 255 - channel),
            RgbColor::new(channel, 255, channel),
            RgbColor::new(254, channel, 1),
        ] {
            let back = hsv_to_rgb(&rgb_to_hsv(&rgb));
            assert!(back.red <= rgb.red && rgb.red - back.red <= 1, "{:?}", rgb);
            assert!(back.green <= rgb.green && rgb.green - back.green <= 1, "{:?}", rgb);
            assert!(back.blue <= rgb.blue && rgb.blue - back.blue <= 1, "{:?}", rgb);
        }
        c += 1;
    }
}

#[test]
fn rounding_goes_half_away_from_zero() {
    assert_eq!(round_float(3, 1_234_500), 1_235_000);
    assert_eq!(round_float(3, -1_234_500), -1_235_000);
    assert_eq!(round_float(3, 1_234_499), 1_234_000);
    assert_eq!(round_float(3, -1_234_499), -1_234_000);
    assert_eq!(round_float(3, 499), 0);
    assert_eq!(round_float(3, -499), 0);
    assert_eq!(round_float(3, 500), 1_000);
}

#[test]
fn rounding_to_other_places() {
    assert_eq!(round_float(0, 1_500_000), 2_000_000);
    assert_eq!(round_float(0, -2_500_000), -3_000_000);
    assert_eq!(round_float(2, 1_234_999), 1_230_000);
    assert_eq!(round_float(5, 1_234_567), 1_234_570);
    assert_eq!(round_float(6, 1_234_567), 1_234_567);
    assert_eq!(round_float(9, 1_234_567), 1_234_567);
}

#[test]
fn rounding_counts_whole_quanta() {
    assert_eq!(round_to_count(1_500, 1_000), 2);
    assert_eq!(round_to_count(-1_500, 1_000), -2);
    assert_eq!(round_to_count(1_499, 1_000), 1);
    assert_eq!(round_to_count(i64::MAX, 1), i64::MAX);
    assert_eq!(round_to_count(i64::MIN, 1), i64::MIN);
    assert_eq!(round_to_count(i64::MIN, 1_000), -9_223_372_036_854_776);
    assert_eq!(round_to_count(7, 3), 2);
    assert_eq!(round_to_count(8, 3), 3);
}

#[test]
fn powers_of_ten() {
    assert_eq!(power_of_ten(0), 1);
    assert_eq!(power_of_ten(3), 1_000);
    assert_eq!(power_of_ten(6), 1_000_000);
}

#[test]
fn hex_is_lower_case_without_prefix() {
    assert_eq!(RgbColor::new(255, 0, 171).to_hex_value(), "ff00ab");
    assert_eq!(RgbColor::new(1, 2, 3).to_hex_value(), "010203");
    assert_eq!(RgbColor::new(0, 0, 0).to_hex(), "000000");
    assert_eq!(hsv(120_000_000, 1_000_000, 1_000_000).to_hex_value(), "00ff00");
    assert_eq!(RgbFraction::new(1_000_000, 0, 500_000).to_hex(), "ff007f");
}

#[test]
fn channels_as_an_array() {
    assert_eq!(RgbColor::new(1, 2, 3).to_rgb_vec(), [1, 2, 3]);
    assert_eq!(RgbFraction::new(1_000_000, 0, 500_000).to_rgb_vec(), [255, 0, 127]);
}

#[test]
fn to_rgb_of_each_kind() {
    assert_eq!(RgbColor::new(1, 2, 3).to_rgb(), RgbColor::new(1, 2, 3));
    assert_eq!(RgbFraction::new(-3, 400_000, 9_000_000).to_rgb(), RgbColor::new(0, 102, 255));
    assert_eq!(HomeAssistantRgbbColor::new(4, 5, 6, 7).to_rgb(), RgbColor::new(4, 5, 6));
    assert_eq!(hsv(240_000_000, 1_000_000, 1_000_000).to_rgb(), RgbColor::new(0, 0, 255));
}

#[test]
fn to_hsv_of_each_kind() {
    assert_eq!(RgbColor::new(128, 64, 32).to_hsv(), hsv(20_000_000, 750_000, 501_960));
    assert_eq!(
        HomeAssistantHsbColor::new(200_000_000, 40_000_000, 70_000_000).to_hsv(),
        hsv(200_000_000, 400_000, 700_000)
    );
    assert_eq!(HomeAssistantHsbColor::new(-5, -1, 0).to_hsv(), hsv(-5, 0, 0));
    assert_eq!(HomeAssistantHsbColor::new(0, i64::MAX, 99).to_hsv(), hsv(0, u32::MAX, 0));
    assert_eq!(
        hsv(20_000_000, 750_000, 501_960).to_hsv(),
        rgb_to_hsv(&RgbColor::new(127, 63, 31))
    );
}

#[test]
fn actuator_colours_from_rgb() {
    let rgb = RgbColor::new(128, 64, 32);
    assert_eq!(HomeAssistantRgbColor::from_rgb(rgb), HomeAssistantRgbColor::new(128, 64, 32));
    assert_eq!(
        HomeAssistantRgbbColor::from_rgb(rgb),
        HomeAssistantRgbbColor::new(128, 64, 32, 50_196_000)
    );
    assert_eq!(
        HomeAssistantHsbColor::from_rgb(rgb),
        HomeAssistantHsbColor::new(20_000_000, 75_000_000, 50_196_000)
    );
    assert_eq!(
        HomeAssistantHsbColor::from_rgb(RgbColor::new(1, 2, 3)),
        HomeAssistantHsbColor::new(210_000_000, 66_667_000, 1_176_400)
    );
}

#[test]
fn actuator_colours_from_hsv() {
    let color = hsv(200_000_000, 400_000, 700_000);
    assert_eq!(HomeAssistantRgbColor::from_hsv(color), HomeAssistantRgbColor::new(107, 154, 178));
    assert_eq!(
        HomeAssistantRgbbColor::from_hsv(color),
        HomeAssistantRgbbColor::new(107, 154, 178, 69_803_900)
    );
    assert_eq!(
        HomeAssistantHsbColor::from_hsv(hsv(126_315_789, 123_456, 784_313)),
        HomeAssistantHsbColor::new(126_316_000, 12_346_000, 78_431_300)
    );
}

#[test]
fn display_in_each_format() {
    let rgb = RgbColor::new(128, 64, 32);
    assert_eq!(rgb.display_for_color_format(&ColorFormat::Rgb), "RGB(128, 64, 32)");
    assert_eq!(rgb.display_for_color_format(&ColorFormat::Rgbb), "RGBB(128,64,32,50.196)");
    assert_eq!(
        rgb.display_for_color_format(&ColorFormat::Hsb),
        "H: 20.000\u{b0}, S: 0.750, B: 0.502"
    );
}

#[test]
fn whole_palettes_are_converted() {
    let palette = vec![RgbColor::new(128, 64, 32), RgbColor::new(0, 0, 255)];
    let values = to_hsv_all(&palette);
    assert_eq!(values, vec![hsv(20_000_000, 750_000, 501_960), hsv(240_000_000, 1_000_000, 1_000_000)]);
    assert_eq!(to_rgb_all(&values), vec![RgbColor::new(127, 63, 31), RgbColor::new(0, 0, 255)]);
    assert_eq!(to_hsv_all(&Vec::new()), Vec::<HsvColor>::new());
}
