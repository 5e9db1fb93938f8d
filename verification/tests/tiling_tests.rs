use emojify_tg_sticker::raster::Image;
use emojify_tg_sticker::tiling::cut_tiles;
use emojify_tg_sticker::tiling::transform;
use emojify_tg_sticker::tiling::trim_blank_rows;
use emojify_tg_sticker::tiling::Emojify;
use emojify_tg_sticker::tiling::EMOJI_SIZE;

/// Builds an image whose pixel at (x, y) has red = x, green = y (mod 256)
/// and the alpha that `alpha` returns for (x, y).
fn image_with(width: u32, height: u32, alpha: impl Fn(u32, u32) -> u8) -> Image {
    let mut pixels = Vec::new();
    for y in 0..height {
        for x in 0..width {
            pixels.push((x % 256) as u8);
            pixels.push((y % 256) as u8);
            pixels.push(0);
            pixels.push(alpha(x, y));
        }
    }
    Image { width, height, pixels }
}

fn opaque(width: u32, height: u32) -> Image {
    image_with(width, height, |_, _| 255)
}

fn channel(img: &Image, x: u32, y: u32, c: u32) -> u8 {
    img.pixels[(((y * img.width) + x) * 4 + c) as usize]
}

#[test]
fn cut_produces_cols_times_rows_tiles() {
    let img = opaque(250, 250);
    let tiles = cut_tiles(&img, 100);
    assert_eq!(tiles.len(), 4);
    for t in &tiles {
        assert_eq!(t.width, 100);
        assert_eq!(t.height, 100);
        assert_eq!(t.pixels.len(), 4 * 100 * 100);
    }
}

#[test]
fn cut_tile_pixels_match_source_rectangles() {
    let img = opaque(4, 2);
    let tiles = cut_tiles(&img, 2);
    assert_eq!(tiles.len(), 2);
    // Tile 0 covers columns 0..2, tile 1 covers columns 2..4.
    for ty in 0..2 {
        for tx in 0..2 {
            assert_eq!(channel(&tiles[0], tx, ty, 0), channel(&img, tx, ty, 0));
            assert_eq!(channel(&tiles[0], tx, ty, 1), channel(&img, tx, ty, 1));
            assert_eq!(channel(&tiles[1], tx, ty, 0), channel(&img, 2 + tx, ty, 0));
            assert_eq!(channel(&tiles[1], tx, ty, 1), channel(&img, 2 + tx, ty, 1));
        }
    }
}

#[test]
fn cut_degenerate_grid_is_empty() {
    let img = opaque(50, 250);
    let tiles = cut_tiles(&img, 100);
    assert_eq!(tiles.len(), 0);
}

#[test]
fn trim_removes_trailing_blank_rows_only() {
    // 2 columns, 3 tile rows at edge 2; rows 1 and 2 fully transparent.
    let img = image_with(4, 6, |_, y| if y < 2 { 255 } else { 0 });
    let mut tiles = cut_tiles(&img, 2);
    assert_eq!(tiles.len(), 6);
    let kept = trim_blank_rows(&mut tiles, 2, 3);
    assert_eq!(kept, 1);
    assert_eq!(tiles.len(), 2);
}

#[test]
fn trim_preserves_interior_blank_rows() {
    // Opaque rows 0 and 2 of 3 tile rows: the blank middle row stays.
    let img = image_with(4, 6, |_, y| if y < 2 || y >= 4 { 255 } else { 0 });
    let mut tiles = cut_tiles(&img, 2);
    let kept = trim_blank_rows(&mut tiles, 2, 3);
    assert_eq!(kept, 3);
    assert_eq!(tiles.len(), 6);
}

#[test]
fn trim_of_all_blank_rows_keeps_nothing() {
    let img = image_with(4, 6, |_, _| 0);
    let mut tiles = cut_tiles(&img, 2);
    let kept = trim_blank_rows(&mut tiles, 2, 3);
    assert_eq!(kept, 0);
    assert_eq!(tiles.len(), 0);
}

#[test]
fn trim_twice_equals_trim_once() {
    let img = image_with(4, 6, |_, y| if y < 2 { 255 } else { 0 });
    let mut tiles = cut_tiles(&img, 2);
    let kept = trim_blank_rows(&mut tiles, 2, 3);
    let tiles_after_once = tiles.clone();
    let kept_again = trim_blank_rows(&mut tiles, 2, kept);
    assert_eq!(kept_again, kept);
    assert_eq!(tiles, tiles_after_once);
}

#[test]
fn transform_truncates_and_tiles_250_square() {
    let img = opaque(250, 250);
    let result = transform(&img).unwrap();
    assert_eq!(result.cols, 2);
    assert_eq!(result.rows(), 2);
    assert_eq!(result.emojis.len(), 4);
    // The trailing 50-pixel margins were dropped, and the result says so.
    assert!(result.truncated_width);
    assert!(result.truncated_height);
    for t in &result.emojis {
        assert_eq!(t.width, EMOJI_SIZE);
        assert_eq!(t.height, EMOJI_SIZE);
    }
}

#[test]
fn transform_of_exact_multiple_sets_no_warning() {
    let img = opaque(200, 300);
    let result = transform(&img).unwrap();
    assert_eq!(result.cols, 2);
    assert_eq!(result.rows(), 3);
    assert!(!result.truncated_width);
    assert!(!result.truncated_height);
}

#[test]
fn transform_trims_trailing_blank_tile_rows() {
    // 100 x 300: only the first 100-pixel band is opaque.
    let img = image_with(100, 300, |_, y| if y < 100 { 255 } else { 0 });
    let result = transform(&img).unwrap();
    assert_eq!(result.cols, 1);
    assert_eq!(result.rows(), 1);
    assert_eq!(result.emojis.len(), 1);
}

#[test]
fn transform_of_fully_transparent_image_is_empty() {
    let img = image_with(200, 200, |_, _| 0);
    let result = transform(&img).unwrap();
    assert_eq!(result.cols, 2);
    assert_eq!(result.rows(), 0);
    assert_eq!(result.emojis.len(), 0);
}

#[test]
fn transform_of_too_small_image_is_empty() {
    let img = opaque(50, 50);
    let result = transform(&img).unwrap();
    assert_eq!(result.cols, 0);
    assert_eq!(result.rows(), 0);
    assert_eq!(result.emojis.len(), 0);
    assert!(result.truncated_width);
    assert!(result.truncated_height);
}

#[test]
fn transform_keeps_row_major_order() {
    // 200 x 200 opaque: tiles 0,1 form the top row, 2,3 the bottom row.
    let img = opaque(200, 200);
    let result = transform(&img).unwrap();
    assert_eq!(result.emojis.len(), 4);
    // Red channel encodes x % 256, green encodes y % 256.
    assert_eq!(channel(&result.emojis[0], 0, 0, 0), 0);
    assert_eq!(channel(&result.emojis[1], 0, 0, 0), 100);
    assert_eq!(channel(&result.emojis[2], 0, 0, 1), 100);
    assert_eq!(channel(&result.emojis[3], 0, 0, 0), 100);
    assert_eq!(channel(&result.emojis[3], 0, 0, 1), 100);
}

#[test]
fn rows_of_empty_emojify_is_zero() {
    let e = Emojify {
        cols: 0,
        truncated_width: false,
        truncated_height: false,
        emojis: Vec::new(),
    };
    assert_eq!(e.rows(), 0);
}
