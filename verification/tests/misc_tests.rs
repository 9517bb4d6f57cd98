use demo01::edge::{edge_side, random_edge_side, EdgeSide};
use demo01::layout::{centered_text_origin, grid_lines, move_direction};
use demo01::selection::{first_contact, retain_flagged};

#[test]
fn rolls_pick_sides() {
    assert_eq!(edge_side(0), EdgeSide::Top);
    assert_eq!(edge_side(1), EdgeSide::Bottom);
    assert_eq!(edge_side(2), EdgeSide::Left);
    assert_eq!(edge_side(3), EdgeSide::Right);
    assert_eq!(edge_side(-7), EdgeSide::Right);
}

#[test]
fn random_sides_cover_all_four_edges() {
    let mut seen = [false; 4];
    for _ in 0..2000 {
        let k = match random_edge_side() {
            EdgeSide::Top => 0,
            EdgeSide::Bottom => 1,
            EdgeSide::Left => 2,
            EdgeSide::Right => 3,
        };
        seen[k] = true;
    }
    assert_eq!(seen, [true; 4]);
}

#[test]
fn direction_keys_add_up_and_cancel() {
    assert_eq!(move_direction(false, false, false, false), (0, 0));
    assert_eq!(move_direction(true, false, false, false), (0, -1));
    assert_eq!(move_direction(false, true, false, true), (1, 1));
    assert_eq!(move_direction(true, true, true, false), (-1, 0));
    assert_eq!(move_direction(true, true, true, true), (0, 0));
}

#[test]
fn centered_text_stands_in_the_middle() {
    assert_eq!(centered_text_origin(100, 30), (462, 369));
    assert_eq!(centered_text_origin(1025, 20), (0, 374));
    assert_eq!(centered_text_origin(2000, 50), (-488, 359));
}

#[test]
fn grid_lines_every_sixty_four_pixels() {
    let xs = grid_lines(1024);
    assert_eq!(xs.len(), 16);
    assert_eq!(xs[0], 0);
    assert_eq!(xs[15], 960);
    assert_eq!(grid_lines(768).len(), 12);
    assert_eq!(grid_lines(65), vec![0, 64]);
    assert_eq!(grid_lines(64), vec![0]);
    assert!(grid_lines(0).is_empty());
    assert!(grid_lines(-5).is_empty());
}

#[test]
fn retain_flagged_splits_in_order() {
    let mut v = vec!["a", "b", "c", "d", "e"];
    let out = retain_flagged(&mut v, &vec![true, false, false, true, false]);
    assert_eq!(v, vec!["a", "d"]);
    assert_eq!(out, vec!["b", "c", "e"]);
    let mut w: Vec<u8> = Vec::new();
    assert!(retain_flagged(&mut w, &vec![]).is_empty());
}

#[test]
fn first_contact_finds_the_first_raised_flag() {
    assert_eq!(first_contact(&vec![false, true, true]), Some(1));
    assert_eq!(first_contact(&vec![false, false]), None);
    assert_eq!(first_contact(&vec![]), None);
}
