use eee::countdown::{
    fill_width, percent, percent_label, progress_after, seconds_left, subtitle, HOLD_NANOS,
};
use std::time::Duration;

/// The fraction of a hold in double precision.
fn fraction(nanos: u64) -> f64 {
    (Duration::from_nanos(nanos).as_secs_f64() / 10.0).min(1.0)
}

/// Every tenth of a millisecond, every half percent, and their neighbours.
fn samples() -> Vec<u64> {
    let mut all = Vec::new();
    for i in 0..=100_000u64 {
        for d in [-1i64, 0, 1] {
            let nanos = (i * 100_000) as i64 + d;
            if nanos >= 0 && nanos as u64 <= HOLD_NANOS {
                all.push(nanos as u64);
            }
        }
    }
    all
}

#[test]
fn progress_is_cut_at_a_full_hold() {
    assert_eq!(progress_after(0), 0);
    assert_eq!(progress_after(9_999_999_999), 9_999_999_999);
    assert_eq!(progress_after(10_000_000_000), HOLD_NANOS);
    assert_eq!(progress_after(u128::MAX), HOLD_NANOS);
}

#[test]
fn percentage_counts_hundredths() {
    assert_eq!(percent(0), 0);
    assert_eq!(percent(99_999_999), 0);
    assert_eq!(percent(100_000_000), 1);
    assert_eq!(percent(5_000_000_000), 50);
    assert_eq!(percent(9_999_999_999), 99);
    assert_eq!(percent(HOLD_NANOS), 100);
}

#[test]
fn percentage_is_late_at_some_marks() {
    assert_eq!(percent(2_899_999_999), 28);
    assert_eq!(percent(2_900_000_000), 28);
    assert_eq!(percent(2_900_000_001), 29);
}

#[test]
fn percentage_agrees_with_double_precision() {
    for nanos in samples() {
        assert_eq!(percent(nanos), (fraction(nanos) * 100.0) as u32, "{}", nanos);
    }
}

#[test]
fn percent_label_has_a_sign() {
    assert_eq!(percent_label(0), "0%");
    assert_eq!(percent_label(4_250_000_000), "42%");
    assert_eq!(percent_label(HOLD_NANOS), "100%");
}

#[test]
fn seconds_left_are_rounded() {
    assert_eq!(seconds_left(0), 10);
    assert_eq!(seconds_left(499_999_999), 10);
    assert_eq!(seconds_left(500_000_001), 9);
    assert_eq!(seconds_left(3_000_000_000), 7);
    assert_eq!(seconds_left(HOLD_NANOS), 0);
}

#[test]
fn seconds_left_break_ties_to_even() {
    assert_eq!(seconds_left(500_000_000), 10);
    assert_eq!(seconds_left(1_500_000_000), 8);
    assert_eq!(seconds_left(7_500_000_000), 2);
    assert_eq!(seconds_left(8_500_000_000), 2);
    assert_eq!(seconds_left(9_500_000_000), 1);
}

#[test]
fn subtitle_counts_down_and_then_restarts() {
    assert_eq!(subtitle(0), "10 seconds remaining \u{2014} release keys to cancel");
    assert_eq!(subtitle(9_900_000_000), "0 seconds remaining \u{2014} release keys to cancel");
    assert_eq!(subtitle(9_900_000_001), "Restarting now...");
    assert_eq!(subtitle(HOLD_NANOS), "Restarting now...");
}

#[test]
fn subtitle_agrees_with_double_precision() {
    for nanos in samples() {
        let remaining = ((1.0 - fraction(nanos)) * 10.0).max(0.0);
        let expected = if remaining > 0.1 {
            format!("{:.0} seconds remaining \u{2014} release keys to cancel", remaining)
        } else {
            "Restarting now...".to_string()
        };
        assert_eq!(subtitle(nanos), expected, "{}", nanos);
    }
}

#[test]
fn bar_fills_with_the_hold() {
    assert_eq!(fill_width(332, 0), 0);
    assert_eq!(fill_width(332, 30_120_481), 0);
    assert_eq!(fill_width(332, 30_120_482), 1);
    assert_eq!(fill_width(332, 5_000_000_000), 166);
    assert_eq!(fill_width(332, 9_999_999_999), 331);
    assert_eq!(fill_width(332, HOLD_NANOS), 332);
}

#[test]
fn bar_of_the_overlay_agrees_with_double_precision() {
    for nanos in samples() {
        assert_eq!(fill_width(332, nanos), (332f64 * fraction(nanos)) as i32, "{}", nanos);
    }
    for pixel in 0..=332u64 {
        let nanos = pixel * HOLD_NANOS / 332;
        for near in [nanos.saturating_sub(1), nanos, (nanos + 1).min(HOLD_NANOS)] {
            assert_eq!(fill_width(332, near), (332f64 * fraction(near)) as i32, "{}", near);
        }
    }
}

#[test]
fn bar_is_late_at_some_marks() {
    assert_eq!(fill_width(100, 700_000_000), 6);
    assert_eq!(fill_width(100, 700_000_001), 7);
    assert_eq!(fill_width(-100, 700_000_000), -6);
}

#[test]
fn bars_of_other_widths_agree_with_double_precision() {
    let widths = [1, 2, 3, 7, 10, 48, 99, 100, 101, 300, 1000, 1920, 9999, 65_535, 1 << 20];
    for nanos in samples().into_iter().step_by(7) {
        for width in widths {
            let expected = (width as f64 * fraction(nanos)) as i32;
            assert_eq!(fill_width(width, nanos), expected, "{} {}", width, nanos);
            assert_eq!(fill_width(-width, nanos), -expected, "{} {}", width, nanos);
        }
    }
}

#[test]
fn bars_of_any_width_agree_with_double_precision() {
    let mut seed: u64 = 0x9E37_79B9_7F4A_7C15;
    for _ in 0..100_000 {
        seed ^= seed << 13;
        seed ^= seed >> 7;
        seed ^= seed << 17;
        let width = (seed >> 32) as u32 as i32;
        let nanos = seed.wrapping_mul(0x2545_F491_4F6C_DD1D) % (HOLD_NANOS + 1);
        let expected = (width as f64 * fraction(nanos)) as i32;
        assert_eq!(fill_width(width, nanos), expected, "{} {}", width, nanos);
    }
    for width in [i32::MIN, i32::MIN + 1, -1, 0, 1, i32::MAX] {
        for nanos in [0, 1, 4_999_999_999, 9_999_999_999, HOLD_NANOS] {
            let expected = (width as f64 * fraction(nanos)) as i32;
            assert_eq!(fill_width(width, nanos), expected, "{} {}", width, nanos);
        }
    }
}

#[test]
fn bars_are_exact_between_marks() {
    for nanos in samples().into_iter().step_by(11) {
        for width in [1u64, 100, 332, 9_999] {
            let exact = (width * nanos / HOLD_NANOS) as i32;
            let shown = fill_width(width as i32, nanos);
            if width == 332 || width * nanos % HOLD_NANOS != 0 {
                assert_eq!(shown, exact, "{} {}", width, nanos);
            } else {
                assert!(shown == exact || shown == exact - 1, "{} {}", width, nanos);
            }
        }
    }
}

#[test]
fn bar_without_room_is_rounded_towards_zero() {
    assert_eq!(fill_width(-48, 5_000_000_000), -24);
    assert_eq!(fill_width(-1, 5_000_000_000), 0);
    assert_eq!(fill_width(i32::MIN, HOLD_NANOS), i32::MIN);
    assert_eq!(fill_width(i32::MAX, HOLD_NANOS), i32::MAX);
}

#[test]
fn display_never_goes_back() {
    let mut last = (0, 0, 10);
    for nanos in samples() {
        let shown = (fill_width(332, nanos), percent(nanos), seconds_left(nanos));
        if nanos > 0 && nanos % 100_000 == 0 {
            assert!(shown.0 >= last.0 && shown.1 >= last.1 && shown.2 <= last.2);
            last = shown;
        }
    }
    assert_eq!(last, (332, 100, 0));
}
