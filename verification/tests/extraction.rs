use desktop_dye::colors::RgbColor;
use desktop_dye::config::DominantColorAlgorithm;
use desktop_dye::errors::PipelineError;
use desktop_dye::extraction::{
    calculate_dominant_colors, clustered_palette, flatten, keep_first, order_by_dominance,
    palette_of_clusters, to_lab_all, Extraction, WeightedColor,
};
use pigmnts::color::LAB;

fn weighted(red: u8, weight: u32) -> WeightedColor {
    WeightedColor { color: RgbColor::new(red, 0, 0), weight }
}

fn two_tone_pixels() -> Vec<RgbColor> {
    let mut pixels = Vec::new();
    for i in 0..3000 {
        if i % 4 == 0 {
            pixels.push(RgbColor::new(20, 40, 220));
        } else {
            pixels.push(RgbColor::new(200, 30, 40));
        }
    }
    pixels
}

fn median_cut(pixels: &Vec<RgbColor>, k: u8) -> Result<Vec<RgbColor>, PipelineError> {
    match calculate_dominant_colors(pixels, &DominantColorAlgorithm::ColorThief, &k) {
        Extraction::Finished(outcome) => outcome,
        Extraction::Cluster { .. } => panic!("median cut asks for no clustering"),
    }
}

fn back_from(lab: &LAB) -> RgbColor {
    let [red, green, blue] = lab::Lab { l: lab.l, a: lab.a, b: lab.b }.to_rgb();
    RgbColor::new(red, green, blue)
}

fn direct_palette(pixels: &Vec<RgbColor>, max_colors: u8) -> Vec<RgbColor> {
    let bytes = flatten(pixels);
    color_thief::get_palette(&bytes, color_thief::ColorFormat::Rgb, 1, max_colors)
        .unwrap()
        .into_iter()
        .map(|c| RgbColor::new(c.r, c.g, c.b))
        .collect()
}

#[test]
fn pixels_are_laid_out_channel_by_channel() {
    let pixels = vec![RgbColor::new(1, 2, 3), RgbColor::new(4, 5, 6)];
    assert_eq!(flatten(&pixels), vec![1, 2, 3, 4, 5, 6]);
    assert_eq!(flatten(&Vec::new()), Vec::<u8>::new());
}

#[test]
fn palette_is_cut_to_its_first_colours() {
    let palette = vec![RgbColor::new(1, 1, 1), RgbColor::new(2, 2, 2), RgbColor::new(3, 3, 3)];
    assert_eq!(keep_first(palette.clone(), 2), vec![RgbColor::new(1, 1, 1), RgbColor::new(2, 2, 2)]);
    assert_eq!(keep_first(palette.clone(), 3), palette);
    assert_eq!(keep_first(palette.clone(), 7), palette);
    assert_eq!(keep_first(palette, 0), Vec::<RgbColor>::new());
}

#[test]
fn least_dominant_colour_comes_first() {
    let entries = vec![weighted(1, 30), weighted(2, 10), weighted(3, 20)];
    assert_eq!(
        order_by_dominance(&entries),
        vec![RgbColor::new(2, 0, 0), RgbColor::new(3, 0, 0), RgbColor::new(1, 0, 0)]
    );
}

#[test]
fn colours_of_equal_dominance_keep_their_order() {
    let entries = vec![
        weighted(1, 30),
        weighted(2, 10),
        weighted(3, 20),
        weighted(4, 10),
        weighted(5, 30),
        weighted(6, 10),
    ];
    let reds: Vec<u8> = order_by_dominance(&entries).iter().map(|c| c.red).collect();
    assert_eq!(reds, vec![2, 4, 6, 3, 1, 5]);
}

#[test]
fn ordering_by_dominance_of_few_entries() {
    assert_eq!(order_by_dominance(&Vec::new()), Vec::<RgbColor>::new());
    assert_eq!(order_by_dominance(&vec![weighted(9, 0)]), vec![RgbColor::new(9, 0, 0)]);
    let entries = vec![weighted(1, u32::MAX), weighted(2, 0)];
    assert_eq!(order_by_dominance(&entries), vec![RgbColor::new(2, 0, 0), RgbColor::new(1, 0, 0)]);
}

#[test]
fn weights_order_as_the_shares_they_stand_for() {
    let shares: [f32; 5] = [0.0, 0.001, 0.25, 0.5, 1.0];
    let mut entries = Vec::new();
    for (i, share) in shares.iter().enumerate().rev() {
        entries.push(weighted(i as u8, share.to_bits()));
    }
    let reds: Vec<u8> = order_by_dominance(&entries).iter().map(|c| c.red).collect();
    assert_eq!(reds, vec![0, 1, 2, 3, 4]);
}

#[test]
fn median_cut_gives_what_the_routine_gives() {
    let pixels = two_tone_pixels();
    for k in 2..=10u8 {
        let palette = median_cut(&pixels, k).unwrap();
        assert_eq!(palette, direct_palette(&pixels, k));
        assert!(palette.len() >= 1 && palette.len() <= k as usize);
    }
}

#[test]
fn median_cut_finds_the_colour_of_a_plain_image() {
    let pixels = vec![RgbColor::new(200, 30, 40); 600];
    let palette = median_cut(&pixels, 3).unwrap();
    assert_eq!(palette[0], RgbColor::new(204, 28, 44));
}

#[test]
fn median_cut_for_one_colour_keeps_the_first_of_two() {
    let pixels = two_tone_pixels();
    let palette = median_cut(&pixels, 1).unwrap();
    assert_eq!(palette, vec![direct_palette(&pixels, 2)[0]]);
}

#[test]
fn median_cut_without_pixels() {
    let pixels = Vec::new();
    let palette = median_cut(&pixels, 3).unwrap();
    assert_eq!(palette, direct_palette(&pixels, 3));
    assert!(palette.len() >= 1);
}

#[test]
fn clustering_without_pixels_fails() {
    let step = calculate_dominant_colors(&Vec::new(), &DominantColorAlgorithm::Pigmnts, &3);
    assert!(matches!(step, Extraction::Finished(Err(PipelineError::ExtractionFailed))));
}

#[test]
fn clustering_is_asked_for_on_every_pixel_in_order() {
    let pixels = vec![RgbColor::new(10, 200, 30), RgbColor::new(1, 2, 3), RgbColor::new(255, 0, 9)];
    for k in [1u8, 4, 10] {
        match calculate_dominant_colors(&pixels, &DominantColorAlgorithm::Pigmnts, &k) {
            Extraction::Cluster { colors, centres } => {
                assert_eq!(centres, k);
                assert_eq!(colors.len(), 3);
                for (color, pixel) in colors.iter().zip(pixels.iter()) {
                    assert!(*color == LAB::from_rgb(pixel.red, pixel.green, pixel.blue));
                }
            }
            Extraction::Finished(_) => panic!("clustering is still to be done"),
        }
    }
}

#[test]
fn clustering_takes_more_pixels_than_median_cut() {
    let pixels = vec![RgbColor::new(1, 2, 3); 16_777_217];
    let step = calculate_dominant_colors(&pixels, &DominantColorAlgorithm::Pigmnts, &2);
    assert!(matches!(step, Extraction::Cluster { centres: 2, .. }));
}

#[test]
fn pixels_are_placed_in_the_space_of_the_clustering() {
    let pixels = vec![RgbColor::new(10, 200, 30), RgbColor::new(0, 0, 0)];
    let colors = to_lab_all(&pixels);
    assert_eq!(colors.len(), 2);
    assert!(colors[0] == LAB::from_rgb(10, 200, 30));
    assert!(colors[1] == LAB::from_rgb(0, 0, 0));
    assert_eq!(to_lab_all(&Vec::new()).len(), 0);
}

#[test]
fn palette_of_clusters_has_the_least_dominant_first() {
    let red = LAB::from_rgb(200, 30, 40);
    let green = LAB::from_rgb(10, 200, 30);
    let blue = LAB::from_rgb(20, 40, 220);
    let clusters = vec![
        (red.clone(), 0.5f32.to_bits()),
        (green.clone(), 0.125f32.to_bits()),
        (blue.clone(), 0.375f32.to_bits()),
    ];
    assert_eq!(
        palette_of_clusters(&clusters),
        vec![back_from(&green), back_from(&blue), back_from(&red)]
    );
    assert_eq!(palette_of_clusters(&Vec::new()), Vec::<RgbColor>::new());
}

#[test]
fn palette_of_clusters_of_equal_weight_keeps_their_order() {
    let red = LAB::from_rgb(200, 30, 40);
    let green = LAB::from_rgb(10, 200, 30);
    let blue = LAB::from_rgb(20, 40, 220);
    let clusters = vec![(red.clone(), 7), (green.clone(), 3), (blue.clone(), 7), (green.clone(), 7)];
    assert_eq!(
        palette_of_clusters(&clusters),
        vec![back_from(&green), back_from(&red), back_from(&blue), back_from(&green)]
    );
}

#[test]
fn clustering_ends_with_the_palette_of_what_was_found() {
    let found = vec![(LAB::from_rgb(9, 9, 9), 1), (LAB::from_rgb(200, 30, 40), 0)];
    assert_eq!(
        clustered_palette(Some(&found)),
        Ok(vec![back_from(&found[1].0), back_from(&found[0].0)])
    );
    assert_eq!(clustered_palette(Some(&Vec::new())), Ok(Vec::new()));
}

#[test]
fn clustering_that_gave_up_fails() {
    assert_eq!(clustered_palette(None), Err(PipelineError::ExtractionFailed));
}
