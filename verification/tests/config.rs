use dither_lib::config::scale_length;
use dither_lib::{Config, DitherBuilder, DitherError, Resize, Rgb};

#[test]
fn builder_defaults() {
    let config = DitherBuilder::new(100, 80).config().unwrap();
    assert_eq!(
        config,
        Config {
            width: 100,
            height: 80,
            level: 2,
            highlights: Rgb(255, 255, 255),
            shadows: Rgb(0, 0, 0),
        }
    );
    assert_eq!(Config::new(100, 80), config);
}

#[test]
fn builder_overrides() {
    let config = DitherBuilder::new(100, 80)
        .level(3)
        .highlights(Rgb(250, 240, 230))
        .shadows(Rgb(10, 20, 30))
        .width(7)
        .height(9)
        .config()
        .unwrap();
    assert_eq!(
        config,
        Config {
            width: 7,
            height: 9,
            level: 3,
            highlights: Rgb(250, 240, 230),
            shadows: Rgb(10, 20, 30),
        }
    );
}

#[test]
fn resize_scale_one_half_of_100_by_80_is_50_by_40() {
    let config = DitherBuilder::new(100, 80)
        .resize(Resize::Scale { numerator: 1, denominator: 2 })
        .config()
        .unwrap();
    assert_eq!((config.width, config.height), (50, 40));
}

#[test]
fn resize_scale_rounds_down() {
    let config = DitherBuilder::new(101, 77)
        .resize(Resize::Scale { numerator: 1, denominator: 2 })
        .config()
        .unwrap();
    assert_eq!((config.width, config.height), (50, 38));
    let config = DitherBuilder::new(10, 10)
        .resize(Resize::Scale { numerator: 2, denominator: 3 })
        .config()
        .unwrap();
    assert_eq!((config.width, config.height), (6, 6));
}

#[test]
fn resize_resolution_sets_both() {
    let config = DitherBuilder::new(100, 80)
        .resize(Resize::Resolution { width: 640, height: 480 })
        .config()
        .unwrap();
    assert_eq!((config.width, config.height), (640, 480));
}

#[test]
fn scale_length_values() {
    assert_eq!(scale_length(100, 1, 2), 50);
    assert_eq!(scale_length(80, 1, 2), 40);
    assert_eq!(scale_length(3, 1, 2), 1);
    assert_eq!(scale_length(1, 1, 2), 0);
    assert_eq!(scale_length(7, 3, 1), 21);
    assert_eq!(scale_length(7, 0, 5), 0);
    assert_eq!(scale_length(7, 5, 0), 0);
    assert_eq!(scale_length(u32::MAX, u32::MAX, 1), u32::MAX);
    assert_eq!(scale_length(u32::MAX, u32::MAX, u32::MAX), u32::MAX);
    assert_eq!(scale_length(u32::MAX, 2, 3), 2_863_311_530);
}

#[test]
fn scale_that_rounds_to_zero_is_invalid() {
    let builder =
        DitherBuilder::new(100, 80).resize(Resize::Scale { numerator: 1, denominator: 101 });
    assert_eq!(builder.config(), Err(DitherError::ZeroWidth));
    let builder =
        DitherBuilder::new(100, 80).resize(Resize::Scale { numerator: 1, denominator: 90 });
    assert_eq!(builder.config(), Err(DitherError::ZeroHeight));
    let builder =
        DitherBuilder::new(100, 80).resize(Resize::Scale { numerator: 1, denominator: 0 });
    assert_eq!(builder.config(), Err(DitherError::ZeroWidth));
}

#[test]
fn validate_names_each_error() {
    let valid = Config::new(4, 4);
    assert_eq!(valid.validate(), Ok(()));
    assert_eq!(Config { level: 0, ..valid }.validate(), Err(DitherError::ZeroLevel));
    assert_eq!(Config { level: 16, ..valid }.validate(), Err(DitherError::LevelTooLarge));
    assert_eq!(Config { level: 15, ..valid }.validate(), Ok(()));
    assert_eq!(Config { level: 1, ..valid }.validate(), Ok(()));
    assert_eq!(Config { width: 0, ..valid }.validate(), Err(DitherError::ZeroWidth));
    assert_eq!(Config { height: 0, ..valid }.validate(), Err(DitherError::ZeroHeight));
}

#[test]
fn validate_looks_at_the_level_first_then_width_then_height() {
    let all_wrong = Config { level: 0, width: 0, height: 0, ..Config::new(1, 1) };
    assert_eq!(all_wrong.validate(), Err(DitherError::ZeroLevel));
    let size_wrong = Config { level: 2, width: 0, height: 0, ..Config::new(1, 1) };
    assert_eq!(size_wrong.validate(), Err(DitherError::ZeroWidth));
}
