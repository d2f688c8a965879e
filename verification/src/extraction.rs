//! Reduction of pixel samples to a palette of dominant colours.

use vstd::prelude::*;
use crate::colors::RgbColor;
use crate::config::DominantColorAlgorithm;
use crate::errors::PipelineError;

verus! {

/// The most pixels of which a palette is computed.
pub const MAX_PIXELS: usize = 16_777_216;

/// The smallest palette that the median-cut routine can be asked for.
pub const MIN_QUANTIZED: u8 = 2;

/// The sampling step handed to the median-cut routine.
pub const QUALITY: u8 = 1;

#[verifier::external_type_specification]
#[verifier::external_body]
pub struct ExQuantizeError(color_thief::Error);

#[verifier::external_type_specification]
#[verifier::external_body]
pub struct ExLab(pigmnts::color::LAB);

/// The palette that `color_thief::get_palette` computes from samples laid out
/// as red, green and blue bytes, or `None` where it reports an error.
pub uninterp spec fn median_cut_palette(samples: Seq<u8>, quality: u8, max_colors: u8) -> Option<
    Seq<RgbColor>,
>;

/// Calls `color_thief::get_palette` on samples laid out as red, green and
/// blue bytes.
///
/// The routine refuses a quality outside 1 to 10 and fewer than two colours,
/// and counts in 32-bit integers, hence the bounds. It is a function of its
/// arguments alone; its result is named, not spelled out. It starts from one
/// box, never drops a box, and cuts the list down to `max_colors`, so a
/// palette holds at least one colour and at most `max_colors`.
#[verifier::external_body]
fn median_cut(samples: &Vec<u8>, quality: u8, max_colors: u8) -> (r: Result<
    Vec<RgbColor>,
    color_thief::Error,
>)
    requires
        1 <= quality <= 10,
        2 <= max_colors,
        samples.len() <= 3 * MAX_PIXELS,
    ensures
        match r {
            Ok(palette) => {
                &&& median_cut_palette(samples@, quality, max_colors) == Some(palette@)
                &&& 1 <= palette.len() <= max_colors
            },
            Err(_) => median_cut_palette(samples@, quality, max_colors) is None,
        },
{
    let palette = color_thief::get_palette(
        samples,
        color_thief::ColorFormat::Rgb,
        quality,
        max_colors,
    )?;
    Ok(palette.into_iter().map(|c| RgbColor::new(c.r, c.g, c.b)).collect())
}

/// The colour in the perceptual space of the clustering that
/// `pigmnts::color::LAB::from_rgb` gives for a colour of 8-bit channels.
pub uninterp spec fn rgb_lab(rgb: RgbColor) -> pigmnts::color::LAB;

/// The colour of 8-bit channels that `lab::Lab::to_rgb` gives for a colour
/// in the perceptual space.
pub uninterp spec fn lab_color(color: pigmnts::color::LAB) -> RgbColor;

/// Calls `pigmnts::color::LAB::from_rgb`, which places a colour in the
/// perceptual space in which the clustering works. It computes from the
/// three channels alone; its result is named, not spelled out.
#[verifier::external_body]
fn lab_of_rgb(rgb: &RgbColor) -> (r: pigmnts::color::LAB)
    ensures
        r == rgb_lab(*rgb),
{
    pigmnts::color::LAB::from_rgb(rgb.red, rgb.green, rgb.blue)
}

/// Calls `lab::Lab::to_rgb`, which brings a colour back from the perceptual
/// space to 8-bit channels. It computes from the three coordinates alone;
/// its result is named, not spelled out.
#[verifier::external_body]
fn rgb_of_lab(color: &pigmnts::color::LAB) -> (r: RgbColor)
    ensures
        r == lab_color(*color),
{
    let [red, green, blue] = lab::Lab { l: color.l, a: color.a, b: color.b }.to_rgb();
    RgbColor::new(red, green, blue)
}

/// The channel of a pixel that stands at place `i` of the byte layout.
pub open spec fn sample_byte(pixels: Seq<RgbColor>, i: int) -> u8 {
    let pixel = pixels[i / 3];
    if i % 3 == 0 {
        pixel.red
    } else if i % 3 == 1 {
        pixel.green
    } else {
        pixel.blue
    }
}

/// The pixels laid out as bytes: red, green and blue of each in turn.
pub open spec fn sample_bytes(pixels: Seq<RgbColor>) -> Seq<u8> {
    Seq::new(3 * pixels.len(), |i: int| sample_byte(pixels, i))
}

/// Lays the pixels out as bytes.
pub fn flatten(pixels: &Vec<RgbColor>) -> (r: Vec<u8>)
    ensures
        r@ == sample_bytes(pixels@),
{
    let mut out: Vec<u8> = Vec::new();
    let mut i: usize = 0;
    while i < pixels.len()
        invariant
            i <= pixels.len(),
            out@.len() == 3 * i,
            forall|j: int| 0 <= j < 3 * i ==> out@[j] == sample_byte(pixels@, j),
        decreases pixels.len() - i,
    {
        let pixel: RgbColor = pixels[i];
        out.push(pixel.red);
        out.push(pixel.green);
        out.push(pixel.blue);
        i += 1;
    }
    assert(out@ =~= sample_bytes(pixels@));
    out
}

/// What the median-cut extraction makes of the pixels: the first `k` colours
/// of the palette computed for `k` colours, or for two where `k` is one.
pub open spec fn quantized_palette(pixels: Seq<RgbColor>, k: u8) -> Result<
    Seq<RgbColor>,
    PipelineError,
> {
    let asked = if k < MIN_QUANTIZED {
        MIN_QUANTIZED
    } else {
        k
    };
    match median_cut_palette(sample_bytes(pixels), QUALITY, asked) {
        Some(palette) => Ok(first_colors(palette, k as int)),
        None => Err(PipelineError::ExtractionFailed),
    }
}

/// The first `k` colours of a palette, or all of it where it holds fewer.
pub open spec fn first_colors(palette: Seq<RgbColor>, k: int) -> Seq<RgbColor> {
    if palette.len() <= k {
        palette
    } else {
        palette.take(k)
    }
}

/// Cuts a palette down to its first `k` colours.
pub fn keep_first(palette: Vec<RgbColor>, k: usize) -> (r: Vec<RgbColor>)
    ensures
        r@ == first_colors(palette@, k as int),
{
    if palette.len() <= k {
        return palette;
    }
    let mut out: Vec<RgbColor> = Vec::new();
    let mut i: usize = 0;
    while i < k
        invariant
            i <= k < palette.len(),
            out@ == palette@.take(i as int),
        decreases k - i,
    {
        out.push(palette[i]);
        i += 1;
        assert(out@ =~= palette@.take(i as int));
    }
    out
}

/// Extracts a palette by median cut. The routine cannot be asked for a single
/// colour: for one colour it is asked for two and the first is kept.
fn color_thief_alg(pixels: &Vec<RgbColor>, sample_size: u8) -> (r: Result<
    Vec<RgbColor>,
    PipelineError,
>)
    requires
        1 <= sample_size,
        pixels.len() <= MAX_PIXELS,
    ensures
        outcome_view(r) == quantized_palette(pixels@, sample_size),
        r matches Ok(palette) ==> 1 <= palette.len() <= sample_size,
        r matches Err(e) ==> e == PipelineError::ExtractionFailed,
{
    let samples: Vec<u8> = flatten(pixels);
    let asked: u8 = if sample_size < MIN_QUANTIZED {
        MIN_QUANTIZED
    } else {
        sample_size
    };
    match median_cut(&samples, QUALITY, asked) {
        Ok(palette) => Ok(keep_first(palette, sample_size as usize)),
        Err(_) => Err(PipelineError::ExtractionFailed),
    }
}

/// A colour with the weight of its cluster.
pub struct WeightedColor {
    pub color: RgbColor,
    pub weight: u32,
}

/// `item` put into a list in ascending order of weight, behind every entry
/// that weighs no more.
pub open spec fn inserted(sorted: Seq<WeightedColor>, item: WeightedColor) -> Seq<WeightedColor>
    decreases sorted.len(),
{
    if sorted.len() == 0 {
        seq![item]
    } else if sorted.last().weight <= item.weight {
        sorted.push(item)
    } else {
        inserted(sorted.drop_last(), item).push(sorted.last())
    }
}

/// The entries in ascending order of weight, entries of equal weight in the
/// order in which they came.
pub open spec fn by_weight(entries: Seq<WeightedColor>) -> Seq<WeightedColor>
    decreases entries.len(),
{
    if entries.len() == 0 {
        entries
    } else {
        inserted(by_weight(entries.drop_last()), entries.last())
    }
}

/// The colours of the entries, in their order.
pub open spec fn colors_of(entries: Seq<WeightedColor>) -> Seq<RgbColor> {
    Seq::new(entries.len(), |i: int| entries[i].color)
}

/// Whether the weights never fall from one entry to the next.
pub open spec fn ascending(entries: Seq<WeightedColor>) -> bool {
    forall|i: int, j: int| 0 <= i <= j < entries.len() ==> entries[i].weight <= entries[j].weight
}

/// Putting an entry into an ascending list at the place where the weights
/// first exceed its own gives what `inserted` describes.
proof fn lemma_inserted_at(sorted: Seq<WeightedColor>, item: WeightedColor, place: int)
    requires
        0 <= place <= sorted.len(),
        forall|j: int| place <= j < sorted.len() ==> sorted[j].weight > item.weight,
        place > 0 ==> sorted[place - 1].weight <= item.weight,
    ensures
        inserted(sorted, item) == sorted.insert(place, item),
    decreases sorted.len() - place,
{
    if place == sorted.len() {
        assert(sorted.insert(place, item) =~= sorted.push(item));
    } else {
        let rest = sorted.drop_last();
        lemma_inserted_at(rest, item, place);
        assert(rest.insert(place, item).push(sorted.last()) =~= sorted.insert(place, item));
    }
}

/// Putting an entry into an ascending list leaves it ascending, one longer,
/// and holding what it held and the entry.
pub proof fn lemma_inserted(sorted: Seq<WeightedColor>, item: WeightedColor)
    requires
        ascending(sorted),
    ensures
        ascending(inserted(sorted, item)),
        inserted(sorted, item).len() == sorted.len() + 1,
        inserted(sorted, item).to_multiset() == sorted.to_multiset().insert(item),
    decreases sorted.len(),
{
    broadcast use vstd::seq_lib::group_to_multiset_ensures;

    if sorted.len() == 0 {
    } else if sorted.last().weight <= item.weight {
    } else {
        let rest = sorted.drop_last();
        lemma_inserted(rest, item);
        let head = inserted(rest, item);
        assert(sorted =~= rest.push(sorted.last()));
        assert forall|i: int, j: int| 0 <= i <= j < head.push(sorted.last()).len() implies head.push(
            sorted.last(),
        )[i].weight <= head.push(sorted.last())[j].weight by {
            if j == head.len() && i < head.len() {
                assert(head.to_multiset().contains(head[i]));
                if head[i] != item {
                    assert(rest.to_multiset().contains(head[i]));
                    let w = choose|w: int| 0 <= w < rest.len() && rest[w] == head[i];
                    assert(sorted[w].weight <= sorted[sorted.len() - 1].weight);
                }
            }
        }
    }
}

/// `by_weight` gives an ascending list of the same entries.
pub proof fn lemma_by_weight(entries: Seq<WeightedColor>)
    ensures
        ascending(by_weight(entries)),
        by_weight(entries).len() == entries.len(),
        by_weight(entries).to_multiset() == entries.to_multiset(),
    decreases entries.len(),
{
    broadcast use vstd::seq_lib::group_to_multiset_ensures;

    if entries.len() > 0 {
        lemma_by_weight(entries.drop_last());
        lemma_inserted(by_weight(entries.drop_last()), entries.last());
        assert(entries =~= entries.drop_last().push(entries.last()));
    }
}

/// Entries that are in ascending order of weight already are left as they
/// are, entries of equal weight included.
pub proof fn lemma_by_weight_of_ascending(entries: Seq<WeightedColor>)
    requires
        ascending(entries),
    ensures
        by_weight(entries) == entries,
    decreases entries.len(),
{
    if entries.len() > 0 {
        let head = entries.drop_last();
        lemma_by_weight_of_ascending(head);
        if head.len() > 0 {
            assert(head.last() == entries[entries.len() - 2]);
        }
        assert(head.push(entries.last()) =~= entries);
    }
}

/// The test that keeps the entries of one weight.
pub open spec fn weighs(weight: u32) -> spec_fn(WeightedColor) -> bool {
    |entry: WeightedColor| entry.weight == weight
}

/// Putting an entry into a list leaves the entries of each weight in their
/// order, the new entry behind those of its own weight.
pub proof fn lemma_inserted_stable(sorted: Seq<WeightedColor>, item: WeightedColor, weight: u32)
    ensures
        inserted(sorted, item).filter(weighs(weight)) == if item.weight == weight {
            sorted.filter(weighs(weight)).push(item)
        } else {
            sorted.filter(weighs(weight))
        },
    decreases sorted.len(),
{
    reveal(Seq::filter);
    if sorted.len() == 0 {
        assert(seq![item].drop_last() =~= sorted);
    } else if sorted.last().weight <= item.weight {
        assert(sorted.push(item).drop_last() =~= sorted);
    } else {
        let rest = sorted.drop_last();
        lemma_inserted_stable(rest, item, weight);
        assert(inserted(rest, item).push(sorted.last()).drop_last() =~= inserted(rest, item));
    }
}

/// Ordering by weight leaves the entries of each weight in the order in
/// which they came.
pub proof fn lemma_by_weight_stable(entries: Seq<WeightedColor>, weight: u32)
    ensures
        by_weight(entries).filter(weighs(weight)) == entries.filter(weighs(weight)),
    decreases entries.len(),
{
    reveal(Seq::filter);
    if entries.len() > 0 {
        lemma_by_weight_stable(entries.drop_last(), weight);
        lemma_inserted_stable(by_weight(entries.drop_last()), entries.last(), weight);
    }
}

/// Orders weighted colours by ascending weight, the lightest first and
/// colours of equal weight in the order in which they came, and hands out
/// the colours without their weights.
pub fn order_by_dominance(entries: &Vec<WeightedColor>) -> (r: Vec<RgbColor>)
    ensures
        r@ == colors_of(by_weight(entries@)),
        r.len() == entries.len(),
{
    let mut sorted: Vec<WeightedColor> = Vec::new();
    let mut i: usize = 0;
    while i < entries.len()
        invariant
            i <= entries.len(),
            sorted@ == by_weight(entries@.take(i as int)),
            sorted.len() == i,
        decreases entries.len() - i,
    {
        let item: WeightedColor = WeightedColor {
            color: entries[i].color,
            weight: entries[i].weight,
        };
        assert(entries@.take(i + 1).drop_last() =~= entries@.take(i as int));
        let mut place: usize = sorted.len();
        while place > 0 && sorted[place - 1].weight > item.weight
            invariant
                place <= sorted.len(),
                forall|j: int| place <= j < sorted.len() ==> sorted@[j].weight > item.weight,
            decreases place,
        {
            place -= 1;
        }
        proof {
            lemma_inserted_at(sorted@, item, place as int);
        }
        sorted.insert(place, item);
        i += 1;
    }
    assert(entries@.take(i as int) =~= entries@);
    let mut out: Vec<RgbColor> = Vec::new();
    let mut j: usize = 0;
    while j < sorted.len()
        invariant
            j <= sorted.len(),
            out@ == colors_of(sorted@.take(j as int)),
        decreases sorted.len() - j,
    {
        out.push(sorted[j].color);
        j += 1;
        assert(out@ =~= colors_of(sorted@.take(j as int)));
    }
    assert(sorted@.take(j as int) =~= sorted@);
    out
}

/// The pixels in the perceptual space of the clustering, in their order.
pub open spec fn lab_values(pixels: Seq<RgbColor>) -> Seq<pigmnts::color::LAB> {
    Seq::new(pixels.len(), |i: int| rgb_lab(pixels[i]))
}

/// The clusters as weighted colours of 8-bit channels, in their order.
pub open spec fn weighted(clusters: Seq<(pigmnts::color::LAB, u32)>) -> Seq<WeightedColor> {
    Seq::new(
        clusters.len(),
        |i: int| WeightedColor { color: lab_color(clusters[i].0), weight: clusters[i].1 },
    )
}

/// Places every pixel in the perceptual space of the clustering.
pub fn to_lab_all(pixels: &Vec<RgbColor>) -> (r: Vec<pigmnts::color::LAB>)
    ensures
        r@ == lab_values(pixels@),
{
    let mut out: Vec<pigmnts::color::LAB> = Vec::new();
    let mut i: usize = 0;
    while i < pixels.len()
        invariant
            i <= pixels.len(),
            out@.len() == i,
            forall|j: int| 0 <= j < i ==> out@[j] == rgb_lab(pixels@[j]),
        decreases pixels.len() - i,
    {
        out.push(lab_of_rgb(&pixels[i]));
        i += 1;
    }
    assert(out@ =~= lab_values(pixels@));
    out
}

/// Makes the palette of the clusters that the clustering found: their
/// colours in 8-bit channels, the least dominant first and clusters of equal
/// weight in the order in which they came. The weight of a cluster is a
/// whole number that orders as its share of the pixels does.
pub fn palette_of_clusters(clusters: &Vec<(pigmnts::color::LAB, u32)>) -> (r: Vec<RgbColor>)
    ensures
        r@ == colors_of(by_weight(weighted(clusters@))),
        r.len() == clusters.len(),
{
    let mut entries: Vec<WeightedColor> = Vec::new();
    let mut j: usize = 0;
    while j < clusters.len()
        invariant
            j <= clusters.len(),
            entries@.len() == j,
            forall|i: int| 0 <= i < j ==> entries@[i] == weighted(clusters@)[i],
        decreases clusters.len() - j,
    {
        entries.push(WeightedColor { color: rgb_of_lab(&clusters[j].0), weight: clusters[j].1 });
        j += 1;
    }
    assert(entries@ =~= weighted(clusters@));
    order_by_dominance(&entries)
}

/// What the clustering came to: its palette, or the failure where the
/// routine gave up.
pub open spec fn clustering_outcome(clusters: Option<Seq<(pigmnts::color::LAB, u32)>>) -> Result<
    Seq<RgbColor>,
    PipelineError,
> {
    match clusters {
        Some(found) => Ok(colors_of(by_weight(weighted(found)))),
        None => Err(PipelineError::ExtractionFailed),
    }
}

/// The clusters handed back as a sequence, if any were.
pub open spec fn clusters_view(clusters: Option<&Vec<(pigmnts::color::LAB, u32)>>) -> Option<
    Seq<(pigmnts::color::LAB, u32)>,
> {
    match clusters {
        Some(found) => Some(found@),
        None => None,
    }
}

/// Ends an extraction by clustering: with the clusters that the routine
/// handed back it gives their palette, without any it fails.
pub fn clustered_palette(clusters: Option<&Vec<(pigmnts::color::LAB, u32)>>) -> (r: Result<
    Vec<RgbColor>,
    PipelineError,
>)
    ensures
        outcome_view(r) == clustering_outcome(clusters_view(clusters)),
{
    match clusters {
        Some(found) => Ok(palette_of_clusters(found)),
        None => Err(PipelineError::ExtractionFailed),
    }
}

/// How far an extraction has come.
pub enum Extraction {
    /// It has ended, with a palette or with a failure.
    Finished(Result<Vec<RgbColor>, PipelineError>),
    /// The clustering routine is to be run on these colours for this many
    /// centres; `clustered_palette` ends the extraction with what it finds.
    /// The routine picks at random and may give up, so the caller runs it.
    Cluster { colors: Vec<pigmnts::color::LAB>, centres: u8 },
}

/// Prepares an extraction by clustering: without pixels there is nothing to
/// cluster and the extraction fails; otherwise every pixel is placed in the
/// perceptual space and the routine is asked for `sample_size` centres.
fn pigmnts_alg(pixels: &Vec<RgbColor>, sample_size: u8) -> (r: Extraction)
    ensures
        begins(pixels@, DominantColorAlgorithm::Pigmnts, sample_size, r),
{
    if pixels.len() == 0 {
        return Extraction::Finished(Err(PipelineError::ExtractionFailed));
    }
    Extraction::Cluster { colors: to_lab_all(pixels), centres: sample_size }
}

/// The outcome of an extraction with the palette taken as a sequence.
pub open spec fn outcome_view(r: Result<Vec<RgbColor>, PipelineError>) -> Result<
    Seq<RgbColor>,
    PipelineError,
> {
    match r {
        Ok(palette) => Ok(palette@),
        Err(e) => Err(e),
    }
}

/// Whether `step` is how the extraction of a palette of `sample_size`
/// colours from `pixels` begins.
///
/// Median cut ends at once, with the outcome that is named. Clustering fails
/// at once without pixels; otherwise the routine is to be run on the pixels,
/// in their order, for `sample_size` centres.
pub open spec fn begins(
    pixels: Seq<RgbColor>,
    alg: DominantColorAlgorithm,
    sample_size: u8,
    step: Extraction,
) -> bool {
    match alg {
        DominantColorAlgorithm::ColorThief => step matches Extraction::Finished(outcome)
            && outcome_view(outcome) == quantized_palette(pixels, sample_size),
        DominantColorAlgorithm::Pigmnts => if pixels.len() == 0 {
            step matches Extraction::Finished(outcome) && outcome_view(outcome) == Err::<
                Seq<RgbColor>,
                PipelineError,
            >(PipelineError::ExtractionFailed)
        } else {
            step matches Extraction::Cluster { colors, centres } && colors@ == lab_values(pixels)
                && centres == sample_size
        },
    }
}

/// Begins to reduce the pixels to a palette of at most `sample_size`
/// dominant colours by the chosen routine.
pub fn calculate_dominant_colors(
    pixels: &Vec<RgbColor>,
    alg: &DominantColorAlgorithm,
    sample_size: &u8,
) -> (r: Extraction)
    requires
        1 <= *sample_size <= 10,
        *alg == DominantColorAlgorithm::ColorThief ==> pixels.len() <= MAX_PIXELS,
    ensures
        begins(pixels@, *alg, *sample_size, r),
        r matches Extraction::Finished(Ok(palette)) ==> 1 <= palette.len() <= *sample_size,
{
    match alg {
        DominantColorAlgorithm::Pigmnts => pigmnts_alg(pixels, *sample_size),
        DominantColorAlgorithm::ColorThief => Extraction::Finished(
            color_thief_alg(pixels, *sample_size),
        ),
    }
}

} // verus!
