use dither_lib::{classify, Tone, LUMA_ONE};

#[test]
fn luma_one_is_two_to_the_thirty_two() {
    assert_eq!(LUMA_ONE, 4_294_967_296);
}

#[test]
fn luminance_equal_to_one_minus_threshold_is_shadow() {
    // Threshold 0/4: one minus it is 1, and a luminance of 1 does not exceed it.
    assert_eq!(classify(LUMA_ONE, 0, 4), Tone::Shadow);
    // Threshold 2/4: one minus it is 1/2.
    assert_eq!(classify(LUMA_ONE / 2, 2, 4), Tone::Shadow);
    // Threshold 1/4: one minus it is 3/4.
    assert_eq!(classify(3 * (LUMA_ONE / 4), 1, 4), Tone::Shadow);
}

#[test]
fn luminance_just_above_one_minus_threshold_is_highlight() {
    assert_eq!(classify(LUMA_ONE / 2 + 1, 2, 4), Tone::Highlight);
    assert_eq!(classify(3 * (LUMA_ONE / 4) + 1, 1, 4), Tone::Highlight);
    assert_eq!(classify(LUMA_ONE + 1, 0, 4), Tone::Highlight);
}

#[test]
fn luminance_just_below_one_minus_threshold_is_shadow() {
    assert_eq!(classify(LUMA_ONE / 2 - 1, 2, 4), Tone::Shadow);
    assert_eq!(classify(LUMA_ONE - 1, 0, 4), Tone::Shadow);
}

#[test]
fn black_is_shadow_against_every_threshold() {
    for entry in 0..16 {
        assert_eq!(classify(0, entry, 16), Tone::Shadow);
    }
}

#[test]
fn white_is_highlight_against_every_threshold_but_zero() {
    assert_eq!(classify(LUMA_ONE, 0, 16), Tone::Shadow);
    for entry in 1..16 {
        assert_eq!(classify(LUMA_ONE, entry, 16), Tone::Highlight);
    }
}

#[test]
fn comparison_is_exact_at_the_highest_level() {
    // Threshold (4^15 - 1) / 4^15: one minus it is 1 / 4^15, which is the sample 4.
    let cells = 1u32 << 30;
    assert_eq!(classify(4, cells - 1, cells), Tone::Shadow);
    assert_eq!(classify(5, cells - 1, cells), Tone::Highlight);
    assert_eq!(classify(u64::MAX, 0, cells), Tone::Highlight);
}
