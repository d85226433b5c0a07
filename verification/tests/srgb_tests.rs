//! Round-trip and exactness checks for the fixed-point sRGB transfer pair.

use lightsim::fixed::SCALE;
use lightsim::srgb::{clinear_to_srgb, srgb_to_clinear};

/// Every 8-bit code decodes and re-encodes to its own level, within a small
/// tolerance, except possibly right at the transfer-function threshold.
#[test]
fn round_trip_all_codes() {
    for n in 0u16..=255 {
        let lin = srgb_to_clinear(n as u8);
        assert!((0..=SCALE).contains(&lin));
        let enc = clinear_to_srgb(lin);
        // enc / SCALE should be n / 255: compare at 255 * SCALE resolution.
        let lhs = 255i64 * enc;
        let rhs = n as i64 * SCALE;
        let tol = 3 * SCALE / 255;  // three 8-bit steps of slack
        assert!(
            (lhs - rhs).abs() <= tol,
            "code {} decoded {} re-encoded {}",
            n,
            lin,
            enc
        );
    }
}

/// The reverse direction: a linear intensity encodes and decodes back to
/// itself within a small tolerance (one 8-bit step), except at the
/// threshold.
#[test]
fn round_trip_linear_values() {
    for i in 0..=100 {
        let x: i64 = i * (SCALE / 100);
        let enc = clinear_to_srgb(x);
        // Quantize to 8 bits as the display pipeline would at full exposure.
        let byte = ((255 * enc + SCALE / 2) / SCALE) as u8;
        let back = srgb_to_clinear(byte);
        let tol = SCALE / 100;
        assert!((back - x).abs() <= tol, "x {} enc {} byte {} back {}", x, enc, byte, back);
    }
}

#[test]
fn endpoints_are_exact() {
    assert_eq!(srgb_to_clinear(0), 0);
    assert_eq!(srgb_to_clinear(255), SCALE);
    assert_eq!(clinear_to_srgb(0), 0);
    assert_eq!(clinear_to_srgb(SCALE), SCALE);
}

/// Below the threshold the encoding is the linear 12.92 scale.
#[test]
fn linear_branch_values() {
    // x = 0.003: 12.92 * 0.003 = 0.03876.
    assert_eq!(clinear_to_srgb(3_000), 38_760);
    // Code 5: (5 / 255) / 12.92 = 0.0015176...
    let lin = srgb_to_clinear(5);
    assert!((lin - 1_517).abs() <= 2, "lin {}", lin);
}

/// Above the threshold the encoding follows 1.055 x^(1/2.4) - 0.055.
#[test]
fn gamma_branch_values() {
    // x = 0.5: 1.055 * 0.5^(1/2.4) - 0.055 = 0.735356...
    let enc = clinear_to_srgb(SCALE / 2);
    assert!((enc - 735_356).abs() <= 30, "enc {}", enc);
    // Code 128: ((128/255 + 0.055)/1.055)^2.4 = 0.215861...
    let lin = srgb_to_clinear(128);
    assert!((lin - 215_861).abs() <= 30, "lin {}", lin);
}
