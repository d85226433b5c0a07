//! Unit checks for the forward model, geometry, display conversion, the
//! parameter-line parser and the batch scorer.

use lightsim::display::{arr_to_img, find_min_max, img_from_srgb8, score_diff};
use lightsim::fixed::SCALE;
use lightsim::geometry::{get_actual_location, get_circle_center, get_patch, within_bound};
use lightsim::median::filter_single_value;
use lightsim::parse::parse_args;
use lightsim::pipeline::LightSimApp;
use lightsim::render::{Image, Noise};
use lightsim::scene::{cos_cubed, decide_light, get_light};

fn default_albedo() -> Vec<i64> {
    vec![
        571_000, 684_000, 893_600, 764_600, 808_900, 640_400, 1_000_000, 624_500, 768_400,
    ]
}

#[test]
fn patch_partition_is_exact() {
    // Patch cells cover the grid without gaps: spot-check band edges.
    assert_eq!(get_patch(0, 0, 300), (0, 0));
    assert_eq!(get_patch(299, 299, 300), (0, 0));
    assert_eq!(get_patch(299, 300, 300), (1, 0));
    assert_eq!(get_patch(300, 299, 300), (0, 1));
    assert_eq!(get_patch(899, 899, 300), (2, 2));
    assert_eq!(get_patch(450, 750, 300), (2, 1));
}

#[test]
fn bounds_check() {
    assert!(within_bound((0, 0), 300));
    assert!(within_bound((899, 899), 300));
    assert!(!within_bound((900, 10), 300));
    assert!(!within_bound((10, 900), 300));
    assert!(!within_bound((-1, 10), 300));
}

#[test]
fn actual_location_combines_cell_and_offset() {
    assert_eq!(get_actual_location((100, 100), (1, 1), 200), (300, 300));
    assert_eq!(get_actual_location((-50, 20), (0, 2), 300), (550, 20));
}

#[test]
fn circumcenter_of_known_circle() {
    // (0,0), (2,0), (1,1) lie on the circle centered at (1,0), radius 1.
    let (ok, c) = get_circle_center(&(0, 0), &(2, 0), &(1, 1));
    assert!(ok);
    assert_eq!(c, (1, 0));
    // A circle centered at (5,5): points (0,5), (10,5), (5,0).
    let (ok2, c2) = get_circle_center(&(0, 5), &(10, 5), &(5, 0));
    assert!(ok2);
    assert_eq!(c2, (5, 5));
}

#[test]
fn collinear_triples_are_rejected() {
    let (ok, _) = get_circle_center(&(0, 0), &(1, 1), &(2, 2));
    assert!(!ok);
    let (ok2, _) = get_circle_center(&(3, 7), &(3, 9), &(3, 50));
    assert!(!ok2);
}

#[test]
fn falloff_is_cosine_cubed() {
    // d = 0: cos = 1, so cos^3 = 1.
    assert_eq!(cos_cubed(0, 500), SCALE);
    // d = h: cos = 1/sqrt(2), cos^3 = 0.353553...
    let c = cos_cubed(500 * 500, 500);
    assert!((c - 353_553).abs() <= 2, "c {}", c);
    // d = 2h: cos = 1/sqrt(5), cos^3 = 0.0894427...
    let c2 = cos_cubed(4 * 500 * 500, 500);
    assert!((c2 - 89_442).abs() <= 2, "c2 {}", c2);
}

#[test]
fn light_respects_albedo_and_height_zero() {
    let albedo = default_albedo();
    // Height zero is the degenerate ground-level light: no intensity.
    assert_eq!(get_light((100, 100), (1, 1), 0, 200, 300, 300, &albedo), 0);
    // Directly under the light the falloff is 1, so intensity = albedo.
    let v = get_light((100, 100), (1, 1), 500, 200, 300, 300, &albedo);
    assert_eq!(v, albedo[3 * (300 / 200) + (300 / 200)]);
}

#[test]
fn compositing_clamps_and_gates_noise() {
    assert_eq!(decide_light(SCALE, SCALE, 0, false), SCALE);
    assert_eq!(decide_light(SCALE / 2, SCALE / 2, 0, false), SCALE / 4);
    // Noise only applies when switched on.
    assert_eq!(decide_light(SCALE, SCALE, -5_000, false), SCALE);
    assert_eq!(decide_light(SCALE, SCALE, -5_000, true), SCALE - 5_000);
    // Clamped at both ends.
    assert_eq!(decide_light(SCALE, SCALE, 5_000, true), SCALE);
    assert_eq!(decide_light(0, SCALE, -5_000, true), 0);
}

/// Identical configuration renders to bit-identical arrays (the determinism
/// guarantee, exercised on two independently built pipelines).
#[test]
fn rendering_is_deterministic() {
    let mut a = LightSimApp::init(40, default_albedo());
    a.light_source.coordinates = (20, 20);
    a.light_source.location = (1, 1);
    a.light_source.height = 100;
    a.light_source.is_on = true;
    let mut b = LightSimApp::init(40, default_albedo());
    b.light_source.coordinates = (20, 20);
    b.light_source.location = (1, 1);
    b.light_source.height = 100;
    b.light_source.is_on = true;
    a.update_no_reverse_solve();
    b.update_no_reverse_solve();
    assert_eq!(a.scene_arr.data, b.scene_arr.data);
    // Re-rendering the same state changes nothing either.
    let first = a.scene_arr.data.clone();
    a.update_no_reverse_solve();
    assert_eq!(first, a.scene_arr.data);
}

/// With the same injected noise field and configuration, the whole noisy
/// cycle (render, then median filter) is bit-identical across runs.
#[test]
fn noisy_cycle_is_deterministic() {
    // A fixed, reproducible pseudo-noise field.
    let values: Vec<i64> = (0..9 * 30 * 30)
        .map(|i: i64| (i * 37 + 11) % 20_001 - 10_000)
        .collect();
    let build = || {
        let mut a = LightSimApp::init(30, default_albedo());
        a.noise = Noise::from_samples(30, values.clone(), 10_000, 5_000, 1337, true)
            .expect("valid field");
        a.light_source.coordinates = (15, 15);
        a.light_source.location = (1, 1);
        a.light_source.height = 80;
        a.light_source.is_on = true;
        a
    };
    let mut a = build();
    let mut b = build();
    a.update_no_reverse_solve();
    b.update_no_reverse_solve();
    assert_eq!(a.scene_arr.data, b.scene_arr.data);
}

#[test]
fn display_auto_exposure_maps_brightest_to_255() {
    let mut a = LightSimApp::init(20, default_albedo());
    a.light_source.coordinates = (10, 10);
    a.light_source.location = (1, 1);
    a.light_source.height = 60;
    a.light_source.is_on = true;
    a.update_no_reverse_solve();
    let bytes = arr_to_img(&a.scene_arr);
    assert_eq!(bytes.len(), a.scene_arr.data.len());
    assert_eq!(*bytes.iter().max().unwrap(), 255u8);
}

#[test]
fn image_ingestion_round_trips_through_bytes() {
    let data: Vec<i64> = (0..9).map(|i| i * (SCALE / 9)).collect();
    let img = Image { size: 1, data };
    let bytes = arr_to_img(&img);
    let back = img_from_srgb8(&bytes, 1).expect("matching extent");
    assert_eq!(back.data.len(), 9);
    // Wrong extent is rejected.
    assert!(img_from_srgb8(&bytes, 2).is_none());
}

#[test]
fn min_max_scan() {
    let v: Vec<i64> = vec![5, 3, 9, 1, 7];
    assert_eq!(find_min_max(&v), (1, 9));
}

#[test]
fn median_of_nine() {
    let w: Vec<i64> = vec![90, 10, 50, 70, 30, 80, 20, 60, 40];
    // Upper median: index 5 of the sorted window.
    assert_eq!(filter_single_value(&w), 60);
    let all_same: Vec<i64> = vec![7; 9];
    assert_eq!(filter_single_value(&all_same), 7);
}

#[test]
fn scorer_counts_squared_linear_difference() {
    let a: Vec<u8> = vec![0, 255, 128];
    assert_eq!(score_diff(&a, &a), 0);
    let b: Vec<u8> = vec![0, 0, 128];
    // Only the middle byte differs: (1.0 - 0.0)^2 in SCALE^2 units.
    assert_eq!(score_diff(&a, &b), (SCALE as u128) * (SCALE as u128));
}

#[test]
fn parse_accepts_the_batch_line() {
    let line = b"300 250 500 0.5 0.6 0.7 0.6 0.8 0.5 0.4 0.9 1.0".to_vec();
    let (pos, h, albedo) = parse_args(&line).expect("valid line");
    assert_eq!(pos, (300, 250));
    assert_eq!(h, 500);
    assert_eq!(
        albedo,
        vec![500_000i64, 600_000, 700_000, 600_000, 800_000, 500_000, 400_000, 900_000, 1_000_000]
    );
}

#[test]
fn parse_accepts_negative_coordinates_and_deep_fractions() {
    let line = b"-120 -7 42 0.5710 0.6840 0.8936 0.7646 0.8089 0.6404 1.0000 0.6245 0.7684"
        .to_vec();
    let (pos, h, albedo) = parse_args(&line).expect("valid line");
    assert_eq!(pos, (-120, -7));
    assert_eq!(h, 42);
    assert_eq!(albedo[0], 571_000);
    assert_eq!(albedo[6], 1_000_000);
}

#[test]
fn parse_rejects_malformed_lines() {
    // Too few fields.
    assert!(parse_args(&b"1 2 3 0.5".to_vec()).is_none());
    // Double space.
    assert!(parse_args(&b"1 2  3 0.5 0.5 0.5 0.5 0.5 0.5 0.5 0.5 0.5".to_vec()).is_none());
    // Albedo above one.
    assert!(parse_args(&b"1 2 3 1.5 0.5 0.5 0.5 0.5 0.5 0.5 0.5 0.5".to_vec()).is_none());
    // Negative height.
    assert!(parse_args(&b"1 2 -3 0.5 0.5 0.5 0.5 0.5 0.5 0.5 0.5 0.5".to_vec()).is_none());
    // Trailing garbage.
    assert!(parse_args(&b"1 2 3 0.5 0.5 0.5 0.5 0.5 0.5 0.5 0.5 0.5 x".to_vec()).is_none());
    // Not a number.
    assert!(parse_args(&b"a 2 3 0.5 0.5 0.5 0.5 0.5 0.5 0.5 0.5 0.5".to_vec()).is_none());
}

#[test]
fn noise_field_is_validated() {
    assert!(Noise::from_samples(10, vec![0i64; 900], 10_000, 5_000, 1337, true).is_some());
    // Wrong extent.
    assert!(Noise::from_samples(10, vec![0i64; 899], 10_000, 5_000, 1337, true).is_none());
    // A sample outside the unit range.
    let mut v = vec![0i64; 900];
    v[5] = 2 * SCALE;
    assert!(Noise::from_samples(10, v, 10_000, 5_000, 1337, true).is_none());
}
