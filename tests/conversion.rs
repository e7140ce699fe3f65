use charify::dimensions::{parse_dimensions, resize_to, DimensionsError, MAX_RESAMPLED_SIDE};
use charify::grid::{charify, render, BrightnessGrid};
use charify::quantize::{
    build_charset, default_charset, get_char, select, ConfigurationError, DEFAULT_CHARSET,
};

fn text_of(chars: &[char]) -> String {
    chars.iter().collect()
}

#[test]
fn default_set_picks_expected_characters() {
    let set = default_charset();
    assert_eq!(set.len(), 5);
    assert_eq!(select(&set, 0), Ok(' '));
    assert_eq!(select(&set, 255), Ok('█'));
    assert_eq!(select(&set, 128), Ok('▒'));
}

#[test]
fn default_set_matches_its_text() {
    assert_eq!(default_charset(), DEFAULT_CHARSET.chars().collect::<Vec<char>>());
    assert_eq!(default_charset(), vec![' ', '░', '▒', '▓', '█']);
}

#[test]
fn every_brightness_lands_in_range_and_every_bucket_is_reached() {
    for n in [1usize, 2, 3, 5, 7, 100, 255, 256] {
        let set: Vec<char> = (0..n).map(|i| char::from_u32(0x100 + i as u32).unwrap()).collect();
        let mut seen = vec![false; n];
        for b in 0..=255u8 {
            let c = get_char(&set, &b);
            let index = set.iter().position(|&x| x == c).unwrap();
            assert_eq!(index, n * b as usize / 256);
            seen[index] = true;
        }
        assert!(seen.iter().all(|&s| s));
    }
}

#[test]
fn brighter_never_maps_earlier() {
    let set: Vec<char> = "abcdefg".chars().collect();
    let mut last = 0usize;
    for b in 0..=255u8 {
        let c = select(&set, b).unwrap();
        let index = set.iter().position(|&x| x == c).unwrap();
        assert!(index >= last);
        last = index;
    }
    assert_eq!(last, 6);
}

#[test]
fn single_character_set_maps_everything_to_it() {
    let set = vec!['#'];
    for b in 0..=255u8 {
        assert_eq!(select(&set, b), Ok('#'));
    }
}

#[test]
fn duplicates_in_set_are_kept() {
    let set = build_charset("aab");
    assert_eq!(set, vec!['a', 'a', 'b']);
    assert_eq!(select(&set, 100), Ok('a'));
    assert_eq!(select(&set, 200), Ok('b'));
}

#[test]
fn large_set_index_uses_full_precision() {
    let set: Vec<char> = (0..1000u32).map(|i| char::from_u32(0x4e00 + i).unwrap()).collect();
    assert_eq!(select(&set, 255), Ok(set[996]));
    assert_eq!(select(&set, 1), Ok(set[3]));
}

#[test]
fn empty_set_is_rejected() {
    let set: Vec<char> = Vec::new();
    assert_eq!(select(&set, 10), Err(ConfigurationError::EmptyCharset));
    let grid = BrightnessGrid::from_samples(1, 1, vec![0]).unwrap();
    assert_eq!(render(&set, &grid), Err(ConfigurationError::EmptyCharset));
}

#[test]
fn two_by_two_grid_renders_rows() {
    let grid = BrightnessGrid::from_samples(2, 2, vec![0, 64, 192, 255]).unwrap();
    let set = build_charset("ab");
    let text = render(&set, &grid).unwrap();
    assert_eq!(text_of(&text), "aa\nbb\n");
}

#[test]
fn render_keeps_the_shape() {
    let samples: Vec<u8> = (0..12u8).map(|i| i * 20).collect();
    let grid = BrightnessGrid::from_samples(4, 3, samples).unwrap();
    let text = text_of(&render(&default_charset(), &grid).unwrap());
    let lines: Vec<&str> = text.split_terminator('\n').collect();
    assert_eq!(lines.len(), 3);
    for line in lines {
        assert_eq!(line.chars().count(), 4);
    }
    assert!(text.ends_with('\n'));
}

#[test]
fn render_of_empty_grid_is_empty_or_blank_lines() {
    let set = build_charset("ab");
    let no_rows = BrightnessGrid::from_samples(3, 0, vec![]).unwrap();
    assert_eq!(render(&set, &no_rows), Ok(vec![]));
    let no_columns = BrightnessGrid::from_samples(0, 2, vec![]).unwrap();
    assert_eq!(text_of(&render(&set, &no_columns).unwrap()), "\n\n");
}

#[test]
fn render_is_repeatable() {
    let grid = BrightnessGrid::from_samples(3, 1, vec![10, 130, 250]).unwrap();
    let set = default_charset();
    assert_eq!(render(&set, &grid), render(&set, &grid));
    assert_eq!(select(&set, 77), select(&set, 77));
}

#[test]
fn charify_maps_each_sample() {
    let grid = BrightnessGrid::from_samples(3, 1, vec![0, 128, 255]).unwrap();
    assert_eq!(charify(&default_charset(), &grid), Ok(vec![' ', '▒', '█']));
}

#[test]
fn charify_rejects_empty_set() {
    let grid = BrightnessGrid::from_samples(3, 1, vec![0, 128, 255]).unwrap();
    assert_eq!(charify(&[], &grid), Err(ConfigurationError::EmptyCharset));
    let empty = BrightnessGrid::from_samples(0, 0, vec![]).unwrap();
    assert_eq!(charify(&[], &empty), Err(ConfigurationError::EmptyCharset));
}

#[test]
fn grid_rejects_wrong_sample_count() {
    assert!(BrightnessGrid::from_samples(2, 2, vec![1, 2, 3]).is_none());
    let grid = BrightnessGrid::from_samples(3, 1, vec![1, 2, 3]).unwrap();
    assert_eq!((grid.width(), grid.height()), (3, 1));
    assert_eq!(grid.samples(), &vec![1, 2, 3]);
}

#[test]
fn dimensions_parse() {
    assert_eq!(parse_dimensions("80x40"), Some((80, 40)));
    assert_eq!(parse_dimensions("+5x07"), Some((5, 7)));
    assert_eq!(parse_dimensions("4294967295x0"), Some((4294967295, 0)));
    assert_eq!(parse_dimensions("4294967296x1"), None);
    assert_eq!(parse_dimensions("80"), None);
    assert_eq!(parse_dimensions("x"), None);
    assert_eq!(parse_dimensions("ax3"), None);
    assert_eq!(parse_dimensions("1x2x3"), None);
    assert_eq!(parse_dimensions("1x"), None);
    assert_eq!(parse_dimensions(" 1x2"), None);
    assert_eq!(parse_dimensions("+x2"), None);
}

#[test]
fn resize_changes_dimensions() {
    let grid = BrightnessGrid::from_samples(4, 4, vec![100; 16]).unwrap();
    let small = resize_to(&grid, "2x3").unwrap();
    assert_eq!((small.width(), small.height()), (2, 3));
    assert_eq!(small.samples().len(), 6);
}

#[test]
fn resize_to_same_dimensions_copies() {
    let grid = BrightnessGrid::from_samples(2, 2, vec![1, 2, 3, 4]).unwrap();
    let same = resize_to(&grid, "2x2").unwrap();
    assert_eq!(same.samples(), &vec![1, 2, 3, 4]);
}

#[test]
fn resize_errors() {
    let grid = BrightnessGrid::from_samples(2, 2, vec![1, 2, 3, 4]).unwrap();
    assert_eq!(resize_to(&grid, "2by2").err(), Some(DimensionsError::Malformed));
    let empty = BrightnessGrid::from_samples(0, 3, vec![]).unwrap();
    assert_eq!(resize_to(&empty, "2x2").err(), Some(DimensionsError::EmptyImage));
    assert!(resize_to(&empty, "0x3").is_ok());
    assert_eq!(MAX_RESAMPLED_SIDE, 1 << 20);
    assert_eq!(resize_to(&grid, "1048576x1").err(), Some(DimensionsError::TooLarge));
    assert_eq!(resize_to(&grid, "1x1048576").err(), Some(DimensionsError::TooLarge));
    assert!(resize_to(&grid, "1048575x1").is_ok());
}
