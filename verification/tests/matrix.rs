use dither_lib::{BayerMatrix, DitherError, MAX_LEVEL};

fn entries(level: u8) -> Vec<Vec<u32>> {
    let matrix = BayerMatrix::generate(level).unwrap();
    let side = matrix.side();
    let mut rows = Vec::new();
    for r in 0..side {
        let mut row = Vec::new();
        for c in 0..side {
            row.push(matrix.get(r, c).unwrap());
        }
        rows.push(row);
    }
    rows
}

#[test]
fn level_one_is_the_base_matrix() {
    assert_eq!(entries(1), vec![vec![0, 2], vec![3, 1]]);
}

#[test]
fn level_two_is_the_classical_four_by_four() {
    assert_eq!(
        entries(2),
        vec![
            vec![0, 8, 2, 10],
            vec![12, 4, 14, 6],
            vec![3, 11, 1, 9],
            vec![15, 7, 13, 5],
        ]
    );
}

#[test]
fn side_and_entries_are_powers_of_two() {
    for level in 1..=6u8 {
        let matrix = BayerMatrix::generate(level).unwrap();
        assert_eq!(matrix.level(), level);
        assert_eq!(matrix.side(), 1u32 << level);
        assert_eq!(matrix.entries(), 1u32 << (2 * level));
    }
}

#[test]
fn each_level_holds_every_value_exactly_once() {
    for level in 1..=6u8 {
        let rows = entries(level);
        let side = 1usize << level;
        assert_eq!(rows.len(), side);
        let mut seen = vec![false; side * side];
        for row in &rows {
            assert_eq!(row.len(), side);
            for &v in row {
                assert!((v as usize) < side * side);
                assert!(!seen[v as usize]);
                seen[v as usize] = true;
            }
        }
        assert!(seen.iter().all(|&s| s));
    }
}

#[test]
fn quadrants_are_four_times_the_level_below_plus_offsets() {
    for level in 2..=6u8 {
        let big = entries(level);
        let small = entries(level - 1);
        let half = 1usize << (level - 1);
        for r in 0..half {
            for c in 0..half {
                assert_eq!(big[r][c], 4 * small[r][c]);
                assert_eq!(big[r][c + half], 4 * small[r][c] + 2);
                assert_eq!(big[r + half][c], 4 * small[r][c] + 3);
                assert_eq!(big[r + half][c + half], 4 * small[r][c] + 1);
            }
        }
    }
}

#[test]
fn get_outside_the_matrix_is_none() {
    let matrix = BayerMatrix::generate(2).unwrap();
    assert_eq!(matrix.get(4, 0), None);
    assert_eq!(matrix.get(0, 4), None);
    assert_eq!(matrix.get(3, 3), Some(5));
}

#[test]
fn tile_entry_repeats_the_matrix_row_from_y_and_column_from_x() {
    let matrix = BayerMatrix::generate(1).unwrap();
    // x selects the column and y the row.
    assert_eq!(matrix.tile_entry(1, 0), 2);
    assert_eq!(matrix.tile_entry(0, 1), 3);
    assert_eq!(matrix.tile_entry(3, 2), 2);
    assert_eq!(matrix.tile_entry(2, 3), 3);
    assert_eq!(matrix.tile_entry(7, 7), 1);
    let matrix = BayerMatrix::generate(2).unwrap();
    assert_eq!(matrix.tile_entry(5, 2), 11);
    assert_eq!(matrix.tile_entry(4_000_000_001, 4_000_000_002), matrix.get(2, 1).unwrap());
}

#[test]
fn level_zero_has_no_matrix() {
    assert!(matches!(BayerMatrix::generate(0), Err(DitherError::ZeroLevel)));
}

#[test]
fn levels_above_the_maximum_have_no_matrix() {
    assert_eq!(MAX_LEVEL, 15);
    assert!(matches!(BayerMatrix::generate(16), Err(DitherError::LevelTooLarge)));
    assert!(matches!(BayerMatrix::generate(255), Err(DitherError::LevelTooLarge)));
}
