//! End-to-end estimation scenarios: location recovery by circumcenter
//! voting, height recovery by boundary ray casting, and albedo-ratio
//! recovery by border-ratio propagation.

use lightsim::albedo::{build_albedo_matrix, count_diff_albedo};
use lightsim::display::{arr_to_img, score_diff};
use lightsim::fixed::SCALE;
use lightsim::height::solve_height;
use lightsim::parse::parse_args;
use lightsim::pipeline::LightSimApp;

fn p5_albedo() -> Vec<i64> {
    vec![
        500_000i64, 600_000, 700_000, 600_000, 800_000, 500_000, 400_000, 900_000, 1_000_000,
    ]
}

/// Renders the canonical scenario: 3x3 grid of 200-pixel patches, light at
/// the center patch's center (absolute (300, 300)), height 500, no noise.
fn p5_app() -> LightSimApp {
    let mut app = LightSimApp::init(200, p5_albedo());
    app.light_source.coordinates = (100, 100);
    app.light_source.location = (1, 1);
    app.light_source.height = 500;
    app.light_source.is_on = true;
    app
}

/// Location recovery: noiseless rendering over distinct patch albedos puts
/// the vote peak within two pixels of the true ground position.
#[test]
fn location_recovered_within_two_pixels() {
    let mut app = p5_app();
    app.update_();
    let loc = app.reverse_solution_location;
    assert!(
        (loc.0 - 300).abs() <= 2 && (loc.1 - 300).abs() <= 2,
        "estimated location {:?}",
        loc
    );
}

/// Location recovery away from the image center.
#[test]
fn location_recovered_off_center() {
    let mut app = LightSimApp::init(200, p5_albedo());
    app.light_source.coordinates = (50, 120);
    app.light_source.location = (0, 1);
    app.light_source.height = 400;
    app.light_source.is_on = true;
    app.update_();
    // Absolute ground position: (location.1 * size + x, location.0 * size + y).
    let expected = (250, 120);
    let loc = app.reverse_solution_location;
    assert!(
        (loc.0 - expected.0).abs() <= 2 && (loc.1 - expected.1).abs() <= 2,
        "estimated location {:?}",
        loc
    );
}

/// Height recovery from the exact location: within 5% relative error when a
/// patch boundary has a strong discontinuity.
#[test]
fn height_recovered_within_five_percent() {
    let mut app = p5_app();
    app.update_no_reverse_solve();
    let h = solve_height(&app.scene_arr, (300, 300), app.config.min_boundary_diff)
        .expect("strong boundaries exist");
    assert!((h - 500).abs() * 100 <= 500 * 5, "estimated height {}", h);
}

/// With every patch albedo equal there is no reflectance boundary: every
/// crossing's straddle contrast stays under the minimum and the height
/// stage reports no estimate.
#[test]
fn equal_albedos_give_no_height_estimate() {
    let mut app = LightSimApp::init(200, vec![700_000i64; 9]);
    app.light_source.coordinates = (100, 100);
    app.light_source.location = (1, 1);
    app.light_source.height = 500;
    app.light_source.is_on = true;
    app.update_no_reverse_solve();
    assert!(solve_height(&app.scene_arr, (300, 300), app.config.min_boundary_diff).is_none());
}

/// Pairwise ratios: two adjacent patches with true ratio k measure ratio
/// about k one way and about 1/k the other way.
#[test]
fn adjacent_ratio_and_its_reciprocal() {
    let mut app = p5_app();
    app.update_no_reverse_solve();
    // Border midpoint between patch 0 (albedo 0.5) and patch 1 (0.6):
    // pixels straddling the row-200 boundary at column 100.
    let r01 = count_diff_albedo(&app.scene_arr, (300, 300), 500, (199, 100), (200, 100));
    let r10 = count_diff_albedo(&app.scene_arr, (300, 300), 500, (200, 100), (199, 100));
    let k = SCALE * 5 / 6;  // 0.5 / 0.6
    assert!((r01 - k).abs() * 100 <= k * 3, "r01 {}", r01);
    let ik = SCALE * 6 / 5;
    assert!((r10 - ik).abs() * 100 <= ik * 3, "r10 {}", r10);
}

/// The full ratio matrix is reciprocal-consistent: ratio[i][j] times
/// ratio[j][i] is about one for every pair, noiselessly.
#[test]
fn ratio_matrix_is_reciprocal() {
    let mut app = p5_app();
    app.update_no_reverse_solve();
    let m = build_albedo_matrix(&app.scene_arr, (300, 300), 500);
    let unit = (SCALE as i128) * (SCALE as i128);
    for i in 0..9 {
        for j in 0..9 {
            let a = m[i * 9 + j] as i128;
            let b = m[j * 9 + i] as i128;
            assert!(a > 0 && b > 0, "unmeasured cell {} {}", i, j);
            let prod = a * b;
            assert!(
                (prod - unit).abs() * 20 <= unit,
                "cells ({}, {}): product {}",
                i,
                j,
                prod
            );
        }
    }
}

/// The end-to-end scenario: render, then re-solve.  Location lands within
/// two pixels, height within ten percent, and the albedo vector names patch
/// 8 brightest (ratio about one) and patch 6 dimmest (ratio about 0.4).
#[test]
fn end_to_end_recovery() {
    let mut app = p5_app();
    app.update_();
    let loc = app.reverse_solution_location;
    assert!(
        (loc.0 - 300).abs() <= 2 && (loc.1 - 300).abs() <= 2,
        "estimated location {:?}",
        loc
    );
    let h = app.reverse_solution_height as i64;
    assert!((h - 500).abs() * 100 <= 500 * 10, "estimated height {}", h);
    let sol = &app.reverse_solution_albedo;
    let brightest = (0..9).max_by_key(|&i| sol[i]).unwrap();
    let dimmest = (0..9).min_by_key(|&i| sol[i]).unwrap();
    assert_eq!(brightest, 8, "albedo vector {:?}", sol);
    assert_eq!(dimmest, 6, "albedo vector {:?}", sol);
    assert!((sol[8] - SCALE).abs() * 100 <= SCALE * 10, "sol[8] {}", sol[8]);
    assert!((sol[6] - 400_000).abs() * 100 <= 400_000 * 15, "sol[6] {}", sol[6]);
}

/// A cycle without any valid estimate leaves the previous estimates
/// untouched: with the light off the working array is constant, so neither
/// voting nor ray casting produces anything.
#[test]
fn no_estimate_keeps_previous_values() {
    let mut app = LightSimApp::init(50, p5_albedo());
    app.reverse_solution_location = (7, 9);
    app.reverse_solution_height = 123;
    // Light stays off: the rendered array is the constant base array.
    app.update_no_reverse_solve();
    app.solve_loc();
    app.solve_height();
    assert_eq!(app.reverse_solution_location, (7, 9));
    assert_eq!(app.reverse_solution_height, 123);
}

/// The batch-scorer flow: a parsed parameter line configures a render whose
/// distance to itself is zero, while a different height scores positive.
#[test]
fn batch_flow_scores_renders() {
    let line = b"30 30 150 0.5 0.6 0.7 0.6 0.8 0.5 0.4 0.9 1.0".to_vec();
    let ((x, y), h, albedo) = parse_args(&line).expect("valid line");
    let render = |height: u32| {
        let mut app = LightSimApp::init(50, albedo.clone());
        app.light_source.coordinates = (x, y);
        app.light_source.location = (0, 0);
        app.light_source.height = height;
        app.light_source.is_on = true;
        app.update_no_reverse_solve();
        arr_to_img(&app.scene_arr)
    };
    let a = render(h);
    let b = render(h + 60);
    assert_eq!(score_diff(&a, &a), 0);
    assert!(score_diff(&a, &b) > 0);
}
