use png_viewer::color::Pixel;
use png_viewer::error::DecodeError;
use png_viewer::scanline::reconstruct;

fn opaque(r: u8, g: u8, b: u8) -> Pixel {
    Pixel { r, g, b, a: 255 }
}

#[test]
fn truecolor_rows_without_filter_are_copied() {
    let mut data: Vec<u8> = Vec::new();
    data.push(0);
    for v in 1u8..=12 {
        data.push(v);
    }
    data.push(0);
    for v in 101u8..=112 {
        data.push(v);
    }
    assert_eq!(data.len(), 26);
    let grid = reconstruct(4, 2, 2, &data).unwrap();
    assert_eq!(
        grid,
        vec![
            vec![opaque(1, 2, 3), opaque(4, 5, 6), opaque(7, 8, 9), opaque(10, 11, 12)],
            vec![
                opaque(101, 102, 103),
                opaque(104, 105, 106),
                opaque(107, 108, 109),
                opaque(110, 111, 112)
            ],
        ]
    );
}

#[test]
fn grid_has_the_extent_asked_for() {
    for &(width, height, color_type, channels) in
        [(1u32, 1u32, 0u8, 1usize), (3, 2, 2, 3), (2, 5, 4, 2), (7, 3, 6, 4), (5, 1, 0, 1)].iter()
    {
        let data = vec![0u8; height as usize * (width as usize * channels + 1)];
        let grid = reconstruct(width, height, color_type, &data).unwrap();
        assert_eq!(grid.len(), height as usize);
        for row in grid.iter() {
            assert_eq!(row.len(), width as usize);
        }
    }
}

#[test]
fn empty_image_has_no_pixels() {
    assert_eq!(reconstruct(0, 0, 0, &[]), Ok(vec![]));
    assert_eq!(reconstruct(3, 0, 2, &[]), Ok(vec![]));
    assert_eq!(reconstruct(0, 2, 2, &[0, 0]), Ok(vec![vec![], vec![]]));
}

#[test]
fn first_column_has_zero_to_the_left() {
    // Sub filter: the first pixel of each row is kept, the others add up.
    let data = [1, 10, 20, 30, 1, 5, 5, 5];
    let grid = reconstruct(3, 2, 0, &data).unwrap();
    assert_eq!(
        grid,
        vec![
            vec![opaque(10, 10, 10), opaque(30, 30, 30), opaque(60, 60, 60)],
            vec![opaque(5, 5, 5), opaque(10, 10, 10), opaque(15, 15, 15)],
        ]
    );
}

#[test]
fn first_row_has_zero_above() {
    // Up filter: the first row is kept, the second adds the first.
    let data = [2, 10, 20, 30, 2, 1, 2, 3];
    let grid = reconstruct(3, 2, 0, &data).unwrap();
    assert_eq!(
        grid,
        vec![
            vec![opaque(10, 10, 10), opaque(20, 20, 20), opaque(30, 30, 30)],
            vec![opaque(11, 11, 11), opaque(22, 22, 22), opaque(33, 33, 33)],
        ]
    );
}

#[test]
fn first_pixel_has_zero_on_all_sides() {
    for filter_type in 0u8..5 {
        let grid = reconstruct(1, 1, 0, &[filter_type, 99]).unwrap();
        assert_eq!(grid, vec![vec![opaque(99, 99, 99)]]);
    }
}

#[test]
fn average_filter_uses_left_and_upper() {
    // Row 0: 10, then 20 + 10 / 2 = 25. Row 1: 4 + 10 / 2 = 9, then
    // 6 + (9 + 25) / 2 = 23.
    let data = [3, 10, 20, 3, 4, 6];
    let grid = reconstruct(2, 2, 0, &data).unwrap();
    assert_eq!(
        grid,
        vec![vec![opaque(10, 10, 10), opaque(25, 25, 25)], vec![
            opaque(9, 9, 9),
            opaque(23, 23, 23)
        ],]
    );
}

#[test]
fn paeth_filter_uses_all_three_neighbors() {
    // Row 0 without filter: 50, 60. Row 1 with Paeth: the first pixel
    // predicts from above (0, 50, 0 gives 50): 1 + 50 = 51. The second has
    // left 51, up 60, upper left 50: p = 61, nearest is up: 2 + 60 = 62.
    let data = [0, 50, 60, 4, 1, 2];
    let grid = reconstruct(2, 2, 0, &data).unwrap();
    assert_eq!(
        grid,
        vec![vec![opaque(50, 50, 50), opaque(60, 60, 60)], vec![
            opaque(51, 51, 51),
            opaque(62, 62, 62)
        ],]
    );
}

#[test]
fn neighbors_are_taken_channel_by_channel() {
    // Truecolor with alpha, Sub filter: each channel adds the same channel
    // of the pixel to the left.
    let data = [1, 1, 2, 3, 4, 10, 20, 30, 40];
    let grid = reconstruct(2, 1, 6, &data).unwrap();
    assert_eq!(
        grid,
        vec![vec![Pixel { r: 1, g: 2, b: 3, a: 4 }, Pixel { r: 11, g: 22, b: 33, a: 44 }]]
    );
}

#[test]
fn grayscale_alpha_keeps_both_channels_apart() {
    // Up filter on the second row; the alpha of the pixel above is added to
    // the alpha, the gray to the gray.
    let data = [0, 100, 7, 200, 9, 2, 1, 1, 100, 250];
    let grid = reconstruct(2, 2, 4, &data).unwrap();
    assert_eq!(
        grid,
        vec![
            vec![Pixel { r: 100, g: 100, b: 100, a: 7 }, Pixel { r: 200, g: 200, b: 200, a: 9 }],
            vec![Pixel { r: 101, g: 101, b: 101, a: 8 }, Pixel { r: 44, g: 44, b: 44, a: 3 }],
        ]
    );
}

#[test]
fn grayscale_alpha_is_always_opaque_in_grayscale() {
    // Sub filter on grayscale: the alpha of 255 of the pixel to the left
    // has no part in the next pixel.
    let data = [1, 1, 1];
    let grid = reconstruct(2, 1, 0, &data).unwrap();
    assert_eq!(grid, vec![vec![opaque(1, 1, 1), opaque(2, 2, 2)]]);
}

#[test]
fn bytes_wrap_around() {
    let data = [1, 200, 100];
    let grid = reconstruct(2, 1, 0, &data).unwrap();
    assert_eq!(grid, vec![vec![opaque(200, 200, 200), opaque(44, 44, 44)]]);
}

#[test]
fn bytes_behind_the_last_row_are_ignored() {
    let data = [0, 5, 1, 2, 3];
    assert_eq!(reconstruct(1, 1, 0, &data), Ok(vec![vec![opaque(5, 5, 5)]]));
}

#[test]
fn short_data_is_rejected() {
    assert_eq!(reconstruct(1, 1, 0, &[0]), Err(DecodeError::DecompressionFailed));
    assert_eq!(reconstruct(1, 1, 0, &[]), Err(DecodeError::DecompressionFailed));
    assert_eq!(reconstruct(4, 2, 2, &[0u8; 25]), Err(DecodeError::DecompressionFailed));
    assert_eq!(
        reconstruct(u32::MAX, u32::MAX, 6, &[0u8; 64]),
        Err(DecodeError::DecompressionFailed)
    );
}

#[test]
fn unknown_filter_code_is_rejected() {
    assert_eq!(reconstruct(1, 1, 0, &[5, 0]), Err(DecodeError::InvalidFilterType));
    assert_eq!(reconstruct(1, 2, 0, &[0, 0, 9, 0]), Err(DecodeError::InvalidFilterType));
    assert_eq!(reconstruct(0, 1, 0, &[200]), Err(DecodeError::InvalidFilterType));
}

#[test]
fn indexed_and_unknown_color_types_are_rejected() {
    assert_eq!(reconstruct(1, 1, 3, &[0, 0]), Err(DecodeError::UnsupportedColorType));
    assert_eq!(reconstruct(1, 1, 1, &[0, 0]), Err(DecodeError::UnsupportedColorType));
    assert_eq!(reconstruct(1, 1, 7, &[0, 0]), Err(DecodeError::UnsupportedColorType));
    // The color type is looked at before the data.
    assert_eq!(reconstruct(1, 1, 3, &[]), Err(DecodeError::UnsupportedColorType));
}
