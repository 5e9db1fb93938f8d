use emojify_tg_sticker::grid::compute_grid;

#[test]
fn grid_divides_exactly() {
    let g = compute_grid(200, 300, 100);
    assert_eq!(g.cols, 2);
    assert_eq!(g.rows, 3);
    assert!(!g.truncated_width);
    assert!(!g.truncated_height);
}

#[test]
fn grid_truncates_remainder_and_warns() {
    let g = compute_grid(250, 250, 100);
    assert_eq!(g.cols, 2);
    assert_eq!(g.rows, 2);
    assert!(g.truncated_width);
    assert!(g.truncated_height);
}

#[test]
fn grid_truncates_one_axis_only() {
    let g = compute_grid(300, 250, 100);
    assert_eq!(g.cols, 3);
    assert_eq!(g.rows, 2);
    assert!(!g.truncated_width);
    assert!(g.truncated_height);
}

#[test]
fn grid_degenerate_axis_is_legal() {
    let g = compute_grid(50, 250, 100);
    assert_eq!(g.cols, 0);
    assert_eq!(g.rows, 2);
    assert!(g.truncated_width);
    assert!(g.truncated_height);
}

#[test]
fn grid_zero_image() {
    let g = compute_grid(0, 0, 100);
    assert_eq!(g.cols, 0);
    assert_eq!(g.rows, 0);
    assert!(!g.truncated_width);
    assert!(!g.truncated_height);
}
