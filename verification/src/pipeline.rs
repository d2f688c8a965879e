//! One cycle: from pixel samples to the final colours and their payload.

use vstd::prelude::*;
use crate::color_conversion::{hsv_all, hsv_of, hsv_to_rgb, rgb_of, rgb_to_hsv};
use crate::colors::{hsb_token, push_rgb_token, rgb_token, rgbb_token, HsvColor, RgbColor};
use crate::config::{
    ColorFormat, ColorSelectionMode, DesktopDyeConfig, DominantColorAlgorithm,
};
use crate::correction::{
    apply_color_correction, apply_color_mode, boost, boosted, boosted_all, corrected,
    mode_applied, scaled, HUE_LIMIT,
};
use crate::errors::PipelineError;
use crate::extraction::{
    calculate_dominant_colors, clustered_palette, clustering_outcome, clusters_view, lab_values,
    quantized_palette, Extraction, MAX_PIXELS,
};
use crate::text::push_three_places;

verus! {

/// Whether the colours of this cycle differ from those of the last: always
/// where there was no last cycle, otherwise where the two sequences differ in
/// length or in any field of any colour.
pub open spec fn differs(previous: Option<Seq<HsvColor>>, current: Seq<HsvColor>) -> bool {
    match previous {
        None => true,
        Some(last) => last != current,
    }
}

/// The colours of the last cycle as a sequence, if there was one.
pub open spec fn last_colors(previous: Option<&Vec<HsvColor>>) -> Option<Seq<HsvColor>> {
    match previous {
        None => None,
        Some(last) => Some(last@),
    }
}

/// Tells whether the colours have changed since the last cycle. Neither
/// sequence is touched.
pub fn has_changed(previous: Option<&Vec<HsvColor>>, current: &Vec<HsvColor>) -> (r: bool)
    ensures
        r == differs(last_colors(previous), current@),
{
    match previous {
        None => true,
        Some(last) => {
            if last.len() != current.len() {
                return true;
            }
            let mut i: usize = 0;
            while i < last.len()
                invariant
                    i <= last.len(),
                    last.len() == current.len(),
                    previous == Some(last),
                    forall|j: int| 0 <= j < i ==> last@[j] == current@[j],
                decreases last.len() - i,
            {
                if last[i] != current[i] {
                    assert(last@[i as int] != current@[i as int]);
                    return true;
                }
                i += 1;
            }
            assert(last@ =~= current@);
            false
        },
    }
}

/// Without a last cycle the colours count as changed.
pub proof fn lemma_first_cycle_changes(current: Seq<HsvColor>)
    ensures
        differs(None, current),
{
}

/// The same colours again count as unchanged.
pub proof fn lemma_same_colors_unchanged(colors: Seq<HsvColor>)
    ensures
        !differs(Some(colors), colors),
{
}

/// One colour that differs in one field makes the colours count as changed.
pub proof fn lemma_any_difference_changes(last: Seq<HsvColor>, current: Seq<HsvColor>, i: int)
    requires
        0 <= i < last.len(),
        0 <= i < current.len(),
        last[i].hue != current[i].hue || last[i].saturation != current[i].saturation
            || last[i].value != current[i].value,
    ensures
        differs(Some(last), current),
{
}

/// Sequences of different length count as changed.
pub proof fn lemma_length_difference_changes(last: Seq<HsvColor>, current: Seq<HsvColor>)
    requires
        last.len() != current.len(),
    ensures
        differs(Some(last), current),
{
}

/// The token of one colour in a payload format.
pub open spec fn token(color: HsvColor, format: ColorFormat) -> Seq<char> {
    match format {
        ColorFormat::Rgb => rgb_token(rgb_of(color).red, rgb_of(color).green, rgb_of(color).blue),
        ColorFormat::Rgbb => rgbb_token(
            rgb_of(color).red,
            rgb_of(color).green,
            rgb_of(color).blue,
            color.value * 100,
        ),
        ColorFormat::Hsb => hsb_token(
            color.hue as int,
            color.saturation * 100,
            color.value * 100,
        ),
    }
}

/// The payload: the tokens of the colours with one blank between neighbours,
/// nothing before the first or behind the last, and nothing at all for no
/// colours.
pub open spec fn encoded(colors: Seq<HsvColor>, format: ColorFormat) -> Seq<char>
    decreases colors.len(),
{
    if colors.len() == 0 {
        Seq::empty()
    } else if colors.len() == 1 {
        token(colors[0], format)
    } else {
        encoded(colors.drop_last(), format) + seq![' '] + token(colors.last(), format)
    }
}

fn push_token(s: &mut String, color: &HsvColor, format: &ColorFormat)
    ensures
        final(s)@ == old(s)@ + token(*color, *format),
{
    match format {
        ColorFormat::Rgb => {
            let rgb: RgbColor = hsv_to_rgb(color);
            push_rgb_token(s, rgb.red, rgb.green, rgb.blue);
        },
        ColorFormat::Rgbb => {
            let rgb: RgbColor = hsv_to_rgb(color);
            push_rgb_token(s, rgb.red, rgb.green, rgb.blue);
            s.push(',');
            push_three_places(s, (color.value as i64) * 100);
            assert(s@ =~= old(s)@ + token(*color, *format));
        },
        ColorFormat::Hsb => {
            push_three_places(s, color.hue);
            s.push(',');
            push_three_places(s, (color.saturation as i64) * 100);
            s.push(',');
            push_three_places(s, (color.value as i64) * 100);
            assert(s@ =~= old(s)@ + token(*color, *format));
        },
    }
}

/// Writes the colours as the payload for the actuator.
pub fn encode(colors: &Vec<HsvColor>, format: &ColorFormat) -> (r: String)
    ensures
        r@ == encoded(colors@, *format),
{
    let mut out: String = String::new();
    let mut i: usize = 0;
    while i < colors.len()
        invariant
            i <= colors.len(),
            out@ == encoded(colors@.take(i as int), *format),
        decreases colors.len() - i,
    {
        let ghost before = colors@.take(i as int);
        let ghost after = colors@.take(i + 1);
        assert(after.drop_last() =~= before);
        assert(after.last() == colors@[i as int]);
        if i > 0 {
            out.push(' ');
        }
        push_token(&mut out, &colors[i], format);
        i += 1;
        assert(out@ =~= encoded(after, *format));
    }
    assert(colors@.take(i as int) =~= colors@);
    out
}

/// What a cycle hands to its caller.
pub struct FinalColors {
    /// The final colours, in the order in which the actuator gets them.
    pub colors: Vec<HsvColor>,
    /// The payload for the actuator.
    pub payload: String,
    /// Whether the colours differ from those of the last cycle.
    pub changed: bool,
}

/// The final colours that the settings make of a palette: converted,
/// boosted, arranged by the mode and scaled in brightness.
pub open spec fn final_colors(palette: Seq<RgbColor>, config: DesktopDyeConfig) -> Seq<HsvColor> {
    scaled(
        corrected(boosted_all(hsv_all(palette)), config.mode, config.hue_shift as int),
        config.brightness_factor,
    )
}

/// Whether `result` is what a cycle makes of a palette.
pub open spec fn completes_cycle(
    result: FinalColors,
    palette: Seq<RgbColor>,
    config: DesktopDyeConfig,
    previous: Option<Seq<HsvColor>>,
) -> bool {
    &&& result.colors@ == final_colors(palette, config)
    &&& result.payload@ == encoded(result.colors@, config.color_format)
    &&& result.changed == differs(previous, result.colors@)
}

/// Converts a palette and boosts each colour.
pub fn vivid_colors(palette: &Vec<RgbColor>) -> (r: Vec<HsvColor>)
    ensures
        r@ == boosted_all(hsv_all(palette@)),
{
    let mut out: Vec<HsvColor> = Vec::new();
    let mut i: usize = 0;
    while i < palette.len()
        invariant
            i <= palette.len(),
            out@.len() == i,
            forall|j: int| 0 <= j < i ==> out@[j] == boosted(hsv_of(palette@[j])),
        decreases palette.len() - i,
    {
        out.push(boost(rgb_to_hsv(&palette[i])));
        i += 1;
    }
    assert(out@ =~= boosted_all(hsv_all(palette@)));
    out
}

/// Finishes a cycle from the palette that the extraction gave: fails where
/// the palette is empty, and otherwise makes the final colours, their
/// payload and the answer whether they changed.
pub fn finish_cycle(
    palette: &Vec<RgbColor>,
    config: &DesktopDyeConfig,
    previous: Option<&Vec<HsvColor>>,
) -> (r: Result<FinalColors, PipelineError>)
    requires
        config.is_valid(),
    ensures
        match r {
            Ok(result) => palette.len() > 0 && completes_cycle(
                result,
                palette@,
                *config,
                last_colors(previous),
            ),
            Err(e) => palette.len() == 0 && e == PipelineError::ExtractionFailed,
        },
{
    if palette.len() == 0 {
        return Err(PipelineError::ExtractionFailed);
    }
    let vivid: Vec<HsvColor> = vivid_colors(palette);
    let colors: Vec<HsvColor> = apply_color_correction(
        vivid,
        &config.mode,
        &config.hue_shift,
        &config.brightness_factor,
    );
    let payload: String = encode(&colors, &config.color_format);
    let changed: bool = has_changed(previous, &colors);
    Ok(FinalColors { colors, payload, changed })
}

/// How far a cycle has come.
pub enum PipelineStep {
    /// It has ended, with the final colours or with a failure.
    Finished(Result<FinalColors, PipelineError>),
    /// The clustering routine is to be run on these colours for this many
    /// centres; `resume_pipeline` ends the cycle with what it finds.
    Cluster { colors: Vec<pigmnts::color::LAB>, centres: u8 },
}

/// Whether `outcome` is what a cycle makes of the outcome of an extraction:
/// a failure of the failure and of an empty palette, otherwise the final
/// colours of the palette.
pub open spec fn ends_cycle(
    outcome: Result<FinalColors, PipelineError>,
    extracted: Result<Seq<RgbColor>, PipelineError>,
    config: DesktopDyeConfig,
    previous: Option<Seq<HsvColor>>,
) -> bool {
    match extracted {
        Ok(palette) => if palette.len() == 0 {
            outcome matches Err(e) && e == PipelineError::ExtractionFailed
        } else {
            outcome matches Ok(result) && completes_cycle(result, palette, config, previous)
        },
        Err(_) => outcome matches Err(e) && e == PipelineError::ExtractionFailed,
    }
}

/// Whether `step` is how a cycle on `pixels` goes on from the extraction.
///
/// With median cut the cycle ends at once, with what it makes of the palette
/// that is named. With clustering it fails at once without pixels; otherwise
/// the routine is to be run on the pixels, in their order, for as many
/// centres as the settings ask colours.
pub open spec fn proceeds(
    step: PipelineStep,
    pixels: Seq<RgbColor>,
    config: DesktopDyeConfig,
    previous: Option<Seq<HsvColor>>,
) -> bool {
    match config.algorithm {
        DominantColorAlgorithm::ColorThief => step matches PipelineStep::Finished(outcome)
            && ends_cycle(
            outcome,
            quantized_palette(pixels, config.sample_size),
            config,
            previous,
        ),
        DominantColorAlgorithm::Pigmnts => if pixels.len() == 0 {
            step matches PipelineStep::Finished(Err(e)) && e == PipelineError::ExtractionFailed
        } else {
            step matches PipelineStep::Cluster { colors, centres } && colors@ == lab_values(pixels)
                && centres == config.sample_size
        },
    }
}

/// Runs one cycle on the pixels of a capture, as far as the library can
/// take it.
///
/// With median cut that is to the end. With clustering the cycle stops
/// where the routine is to be run; `resume_pipeline` takes it from there.
pub fn run_pipeline(
    pixels: &Vec<RgbColor>,
    config: &DesktopDyeConfig,
    previous_result: Option<&Vec<HsvColor>>,
) -> (r: PipelineStep)
    requires
        config.is_valid(),
        config.algorithm == DominantColorAlgorithm::ColorThief ==> pixels.len() <= MAX_PIXELS,
    ensures
        proceeds(r, pixels@, *config, last_colors(previous_result)),
{
    match calculate_dominant_colors(pixels, &config.algorithm, &config.sample_size) {
        Extraction::Finished(Ok(palette)) => PipelineStep::Finished(
            finish_cycle(&palette, config, previous_result),
        ),
        Extraction::Finished(Err(e)) => PipelineStep::Finished(Err(e)),
        Extraction::Cluster { colors, centres } => PipelineStep::Cluster { colors, centres },
    }
}

/// Ends a cycle that stopped for the clustering: with the clusters that the
/// routine handed back it makes their palette and finishes the cycle from
/// it; without any, or with none in them, it fails.
pub fn resume_pipeline(
    clusters: Option<&Vec<(pigmnts::color::LAB, u32)>>,
    config: &DesktopDyeConfig,
    previous_result: Option<&Vec<HsvColor>>,
) -> (r: Result<FinalColors, PipelineError>)
    requires
        config.is_valid(),
    ensures
        ends_cycle(
            r,
            clustering_outcome(clusters_view(clusters)),
            *config,
            last_colors(previous_result),
        ),
{
    match clustered_palette(clusters) {
        Ok(palette) => finish_cycle(&palette, config, previous_result),
        Err(e) => Err(e),
    }
}

/// What a cycle on 8-bit colours hands to its caller.
pub struct FinalRgbColors {
    /// The final colours, in the order in which the actuator gets them.
    pub colors: Vec<RgbColor>,
    /// The payload for the actuator.
    pub payload: String,
    /// Whether the colours differ from those of the last cycle.
    pub changed: bool,
}

/// Each colour of a palette boosted by way of hue, saturation and value.
pub open spec fn vivid_rgb(palette: Seq<RgbColor>) -> Seq<RgbColor> {
    Seq::new(palette.len(), |i: int| rgb_of(boosted(hsv_of(palette[i]))))
}

/// The payload of 8-bit colours: three channels in decimal for each, one
/// blank between neighbours.
pub open spec fn encoded_rgb(colors: Seq<RgbColor>) -> Seq<char>
    decreases colors.len(),
{
    if colors.len() == 0 {
        Seq::empty()
    } else if colors.len() == 1 {
        rgb_token(colors[0].red, colors[0].green, colors[0].blue)
    } else {
        encoded_rgb(colors.drop_last()) + seq![' '] + rgb_token(
            colors.last().red,
            colors.last().green,
            colors.last().blue,
        )
    }
}

/// Whether 8-bit colours differ from those of the last cycle.
pub open spec fn differs_rgb(previous: Option<Seq<RgbColor>>, current: Seq<RgbColor>) -> bool {
    match previous {
        None => true,
        Some(last) => last != current,
    }
}

/// The 8-bit colours of the last cycle as a sequence, if there was one.
pub open spec fn last_rgb_colors(previous: Option<&Vec<RgbColor>>) -> Option<Seq<RgbColor>> {
    match previous {
        None => None,
        Some(last) => Some(last@),
    }
}

/// Boosts each colour of a palette by way of hue, saturation and value.
pub fn boost_rgb(palette: &Vec<RgbColor>) -> (r: Vec<RgbColor>)
    ensures
        r@ == vivid_rgb(palette@),
{
    let mut out: Vec<RgbColor> = Vec::new();
    let mut i: usize = 0;
    while i < palette.len()
        invariant
            i <= palette.len(),
            out@.len() == i,
            forall|j: int| 0 <= j < i ==> out@[j] == rgb_of(boosted(hsv_of(palette@[j]))),
        decreases palette.len() - i,
    {
        let vivid: HsvColor = boost(rgb_to_hsv(&palette[i]));
        out.push(hsv_to_rgb(&vivid));
        i += 1;
    }
    assert(out@ =~= vivid_rgb(palette@));
    out
}

/// Writes 8-bit colours as the payload for the actuator.
pub fn encode_rgb(colors: &Vec<RgbColor>) -> (r: String)
    ensures
        r@ == encoded_rgb(colors@),
{
    let mut out: String = String::new();
    let mut i: usize = 0;
    while i < colors.len()
        invariant
            i <= colors.len(),
            out@ == encoded_rgb(colors@.take(i as int)),
        decreases colors.len() - i,
    {
        let ghost before = colors@.take(i as int);
        let ghost after = colors@.take(i + 1);
        assert(after.drop_last() =~= before);
        assert(after.last() == colors@[i as int]);
        if i > 0 {
            out.push(' ');
        }
        push_rgb_token(&mut out, colors[i].red, colors[i].green, colors[i].blue);
        i += 1;
        assert(out@ =~= encoded_rgb(after));
    }
    assert(colors@.take(i as int) =~= colors@);
    out
}

/// Tells whether 8-bit colours have changed since the last cycle.
pub fn has_changed_rgb(previous: Option<&Vec<RgbColor>>, current: &Vec<RgbColor>) -> (r: bool)
    ensures
        r == differs_rgb(last_rgb_colors(previous), current@),
{
    match previous {
        None => true,
        Some(last) => {
            if last.len() != current.len() {
                return true;
            }
            let mut i: usize = 0;
            while i < last.len()
                invariant
                    i <= last.len(),
                    last.len() == current.len(),
                    previous == Some(last),
                    forall|j: int| 0 <= j < i ==> last@[j] == current@[j],
                decreases last.len() - i,
            {
                if last[i] != current[i] {
                    assert(last@[i as int] != current@[i as int]);
                    return true;
                }
                i += 1;
            }
            assert(last@ =~= current@);
            false
        },
    }
}

/// Finishes a cycle on 8-bit colours from the palette that the extraction
/// gave: fails where the palette is empty, and otherwise boosts the colours,
/// arranges them by the mode, writes their payload and tells whether they
/// changed.
pub fn finish_rgb_cycle(
    palette: &Vec<RgbColor>,
    mode: &ColorSelectionMode,
    hue_shift: i64,
    previous: Option<&Vec<RgbColor>>,
) -> (r: Result<FinalRgbColors, PipelineError>)
    requires
        *mode == ColorSelectionMode::HueShift ==> -HUE_LIMIT <= hue_shift <= HUE_LIMIT,
    ensures
        match r {
            Ok(result) => {
                &&& palette.len() > 0
                &&& result.colors@ == mode_applied(vivid_rgb(palette@), *mode, hue_shift as int)
                &&& result.payload@ == encoded_rgb(result.colors@)
                &&& result.changed == differs_rgb(last_rgb_colors(previous), result.colors@)
            },
            Err(e) => palette.len() == 0 && e == PipelineError::ExtractionFailed,
        },
{
    if palette.len() == 0 {
        return Err(PipelineError::ExtractionFailed);
    }
    let vivid: Vec<RgbColor> = boost_rgb(palette);
    let colors: Vec<RgbColor> = apply_color_mode(vivid, mode, &hue_shift);
    let payload: String = encode_rgb(&colors);
    let changed: bool = has_changed_rgb(previous, &colors);
    Ok(FinalRgbColors { colors, payload, changed })
}

} // verus!
