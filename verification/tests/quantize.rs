use material_theme::color::Argb;
use material_theme::error::InvalidInput;
use material_theme::cluster::{cluster, combine, least_index, move_centres, refine, Sums, ROUNDS};
use material_theme::histogram::histogram;
use material_theme::quantize::{downsample, quantize};
use material_theme::weighted::{rank, WeightedColor};

const RED: Argb = Argb { alpha: 255, red: 255, green: 0, blue: 0 };
const BLUE: Argb = Argb { alpha: 255, red: 0, green: 0, blue: 255 };
const CYAN: Argb = Argb { alpha: 255, red: 0, green: 255, blue: 255 };
const NEAR_RED: Argb = Argb { alpha: 255, red: 240, green: 16, blue: 16 };

fn w(color: Argb, weight: u64) -> WeightedColor {
    WeightedColor { color, weight }
}

fn scattered(n: u32, colors: u32) -> Vec<Argb> {
    (0..n)
        .map(|i| {
            let k = (i.wrapping_mul(2654435761) >> 7) % colors;
            Argb::from_u32(0xff00_0000 | (k.wrapping_mul(0x9e3779b1) & 0x00ff_ffff))
        })
        .collect()
}

#[test]
fn an_image_without_pixels_is_refused() {
    assert_eq!(quantize(&vec![], 2), Err(InvalidInput::EmptyImage));
    assert_eq!(quantize(&vec![], 128), Err(InvalidInput::EmptyImage));
}

#[test]
fn three_red_and_one_blue() {
    let colors = quantize(&vec![RED, RED, BLUE, RED], 2);
    assert_eq!(colors, Ok(vec![w(RED, 3), w(BLUE, 1)]));
    let blue_first = quantize(&vec![BLUE, RED, RED, RED], 2);
    assert_eq!(blue_first, Ok(vec![w(RED, 3), w(BLUE, 1)]));
}

#[test]
fn a_hundred_pixels_of_one_color() {
    let c = Argb::opaque(10, 200, 30);
    assert_eq!(quantize(&vec![c; 100], 128), Ok(vec![w(c, 100)]));
    assert_eq!(quantize(&vec![c; 100], 1), Ok(vec![w(c, 100)]));
}

#[test]
fn fewer_colors_than_asked_for_are_all_returned() {
    let colors = quantize(&vec![CYAN, RED, CYAN, BLUE, CYAN, RED], 128).unwrap();
    assert_eq!(colors, vec![w(CYAN, 3), w(RED, 2), w(BLUE, 1)]);
    let exactly = quantize(&vec![CYAN, RED, CYAN, BLUE, CYAN, RED], 3).unwrap();
    assert_eq!(exactly, colors);
}

#[test]
fn equal_weights_go_by_packed_value() {
    let colors = quantize(&vec![RED, CYAN, BLUE], 3).unwrap();
    assert_eq!(colors, vec![w(BLUE, 1), w(CYAN, 1), w(RED, 1)]);
}

#[test]
fn colors_beyond_the_limit_gather_round_centres() {
    let pixels = vec![RED, BLUE, RED, NEAR_RED, BLUE, RED, CYAN];
    assert_eq!(quantize(&pixels, 2), Ok(vec![w(Argb::opaque(201, 54, 54), 5), w(BLUE, 2)]));
    assert_eq!(quantize(&pixels, 1), Ok(vec![w(Argb::opaque(143, 38, 111), 7)]));
    let dark_blue = Argb::opaque(0, 0, 120);
    let pixels = vec![RED, RED, BLUE, BLUE, BLUE, dark_blue];
    assert_eq!(quantize(&pixels, 2), Ok(vec![w(Argb::opaque(0, 0, 221), 4), w(RED, 2)]));
}

#[test]
fn gathering_may_change_the_ranking() {
    let pixels = vec![RED, RED, RED, BLUE, BLUE, Argb::opaque(0, 0, 250), Argb::opaque(0, 0, 245)];
    assert_eq!(quantize(&pixels, 2), Ok(vec![w(Argb::opaque(0, 0, 251), 4), w(RED, 3)]));
}

#[test]
fn distance_is_measured_in_lab() {
    let yellow = Argb::opaque(255, 255, 0);
    let white = Argb::opaque(255, 255, 255);
    let pale = Argb::opaque(255, 255, 128);
    let pixels = vec![yellow, yellow, yellow, white, white, pale];
    assert_eq!(quantize(&pixels, 2), Ok(vec![w(Argb::opaque(255, 255, 32), 4), w(white, 2)]));
}

#[test]
fn no_pixel_is_lost() {
    for (n, colors, max) in [(1000u32, 300u32, 16usize), (5000, 5000, 128), (777, 10, 3), (64, 64, 1), (500, 2, 128)] {
        let pixels = scattered(n, colors);
        let found = quantize(&pixels, max).unwrap();
        let total: u64 = found.iter().map(|c| c.weight).sum();
        assert_eq!(total, n as u64);
        assert!(!found.is_empty() && found.len() <= max);
        for pair in found.windows(2) {
            assert!(pair[0].weight >= pair[1].weight);
        }
    }
}

#[test]
fn the_order_of_pixels_does_not_matter() {
    let pixels = scattered(3000, 700);
    let expected = quantize(&pixels, 32).unwrap();
    let mut reversed = pixels.clone();
    reversed.reverse();
    assert_eq!(quantize(&reversed, 32).unwrap(), expected);
    let mut rotated = pixels.clone();
    rotated.rotate_left(1234);
    assert_eq!(quantize(&rotated, 32).unwrap(), expected);
    let mut sorted = pixels.clone();
    sorted.sort_by_key(|c| c.to_u32());
    assert_eq!(quantize(&sorted, 32).unwrap(), expected);
}

#[test]
fn a_histogram_counts_each_color() {
    assert_eq!(histogram(&vec![]), vec![]);
    assert_eq!(histogram(&vec![RED, BLUE, RED, RED, CYAN, BLUE]), vec![w(RED, 3), w(BLUE, 2), w(CYAN, 1)]);
}

#[test]
fn ranking_puts_the_heaviest_first() {
    let ranked = rank(vec![w(RED, 1), w(BLUE, 5), w(CYAN, 5), w(NEAR_RED, 9), w(RED, 1)]);
    assert_eq!(ranked, vec![w(NEAR_RED, 9), w(BLUE, 5), w(CYAN, 5), w(RED, 1), w(RED, 1)]);
    assert_eq!(rank(vec![]), vec![]);
}

#[test]
fn the_least_value_is_found_and_the_first_of_equals() {
    assert_eq!(least_index(&vec![7]), 0);
    assert_eq!(least_index(&vec![7, 3, 9, 3]), 1);
    assert_eq!(least_index(&vec![5, 5, 5]), 0);
    assert_eq!(least_index(&vec![9, 8, 7, 0]), 3);
    assert_eq!(least_index(&vec![u64::MAX, u64::MAX - 1]), 1);
}

#[test]
fn cells_are_eight_wide() {
    assert_eq!(downsample(Argb { alpha: 7, red: 0, green: 7, blue: 8 }), Argb::opaque(4, 4, 12));
    assert_eq!(downsample(Argb::opaque(255, 248, 247)), Argb::opaque(252, 252, 244));
    assert_eq!(downsample(Argb::opaque(4, 12, 252)), Argb::opaque(4, 12, 252));
}

#[test]
fn the_first_centres_are_the_heaviest_cells() {
    let crowd: Vec<Argb> = (0..8u8).map(|i| Argb::opaque(200 + i, 16, 16)).collect();
    let mut pixels = vec![BLUE, BLUE, BLUE, CYAN, CYAN];
    pixels.extend(crowd.iter());
    let found = quantize(&pixels, 2).unwrap();
    assert_eq!(found, vec![w(Argb::opaque(162, 63, 63), 10), w(BLUE, 3)]);
}

#[test]
fn the_mean_of_a_cluster() {
    let sums = Sums { weight: 4, alpha: 1020, red: 1005, green: 0, blue: 3 };
    assert_eq!(sums.mean_color(BLUE), Argb { alpha: 255, red: 251, green: 0, blue: 0 });
    let one = Sums { weight: 1, alpha: 255, red: 255, green: 255, blue: 255 };
    assert_eq!(one.mean_color(BLUE), Argb::opaque(255, 255, 255));
    let none = Sums { weight: 0, alpha: 0, red: 0, green: 0, blue: 0 };
    assert_eq!(none.mean_color(BLUE), BLUE);
}

#[test]
fn centres_move_to_the_mean_of_their_colors() {
    let entries = vec![w(RED, 3), w(BLUE, 2), w(NEAR_RED, 1), w(CYAN, 1)];
    assert_eq!(move_centres(&entries, &vec![RED, BLUE]), vec![Argb::opaque(201, 54, 54), BLUE]);
    assert_eq!(move_centres(&entries, &vec![BLUE]), vec![Argb::opaque(143, 38, 111)]);
    assert_eq!(move_centres(&entries, &vec![RED, BLUE, NEAR_RED, CYAN]), vec![RED, BLUE, NEAR_RED, CYAN]);
}

#[test]
fn a_centre_without_colors_stays() {
    let entries = vec![w(RED, 3), w(NEAR_RED, 1)];
    assert_eq!(move_centres(&entries, &vec![RED, BLUE]), vec![Argb::opaque(251, 4, 4), BLUE]);
    assert_eq!(move_centres(&vec![], &vec![RED, BLUE]), vec![RED, BLUE]);
}

#[test]
fn of_equal_centres_the_first_takes_all() {
    let entries = vec![w(RED, 3), w(NEAR_RED, 1)];
    assert_eq!(cluster(&entries, &vec![RED, RED]), vec![w(RED, 4), w(RED, 0)]);
}

#[test]
fn refinement_runs_its_rounds() {
    assert_eq!(ROUNDS, 10);
    let entries = vec![w(RED, 3), w(BLUE, 2), w(NEAR_RED, 1), w(CYAN, 1)];
    assert_eq!(refine(&entries, vec![RED, BLUE], 0), vec![RED, BLUE]);
    let once = move_centres(&entries, &vec![RED, BLUE]);
    assert_eq!(refine(&entries, vec![RED, BLUE], 1), once);
    let twice = move_centres(&entries, &once);
    assert_eq!(refine(&entries, vec![RED, BLUE], 2), twice);
    let mut centres = vec![CYAN, BLUE];
    for _ in 0..ROUNDS {
        centres = move_centres(&entries, &centres);
    }
    assert_eq!(refine(&entries, vec![CYAN, BLUE], ROUNDS), centres);
}

#[test]
fn clusters_hold_the_weight_of_their_colors() {
    let entries = vec![w(RED, 3), w(BLUE, 2), w(NEAR_RED, 1), w(CYAN, 1)];
    assert_eq!(cluster(&entries, &vec![RED, BLUE]), vec![w(RED, 5), w(BLUE, 2)]);
    assert_eq!(cluster(&entries, &vec![CYAN, RED, BLUE]), vec![w(CYAN, 1), w(RED, 4), w(BLUE, 2)]);
    assert_eq!(cluster(&vec![], &vec![CYAN, RED]), vec![w(CYAN, 0), w(RED, 0)]);
}

#[test]
fn combining_brings_equal_colors_together() {
    let entries = vec![w(RED, 2), w(BLUE, 0), w(RED, 3), w(CYAN, 5), w(NEAR_RED, 1)];
    assert_eq!(combine(&entries), vec![w(CYAN, 5), w(RED, 5), w(NEAR_RED, 1)]);
    assert_eq!(combine(&vec![w(RED, 0)]), vec![]);
    assert_eq!(combine(&vec![]), vec![]);
}
