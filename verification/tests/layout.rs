use marker_tracker::blob::Point;
use marker_tracker::layout::{grid_layout, key_action, visible_stages, Cell, KeyAction, LABEL_BASELINE};
use marker_tracker::pipeline::Stage;

#[test]
fn the_grid_of_a_whole_frame_has_five_columns_and_two_rows() {
    let grid = grid_layout(&vec![1, 2, 2, 2, 1], 640, 480).unwrap();
    assert_eq!(grid.cols, 3200);
    assert_eq!(grid.rows, 960);
    let cell = |stage, image, left, top| Cell { stage, image, left, top, right: left + 640, bottom: top + 480 };
    assert_eq!(
        grid.cells,
        vec![
            cell(0, 0, 0, 0),
            cell(1, 0, 640, 0),
            cell(1, 1, 640, 480),
            cell(2, 0, 1280, 0),
            cell(2, 1, 1280, 480),
            cell(3, 0, 1920, 0),
            cell(3, 1, 1920, 480),
            cell(4, 0, 2560, 0),
        ]
    );
    let labels: Vec<Point> = (0..5).map(|x| Point { x: x * 640, y: 50 }).collect();
    assert_eq!(grid.labels, labels);
    assert_eq!(LABEL_BASELINE, 50);
}

#[test]
fn the_grid_of_the_result_alone_is_one_frame() {
    let grid = grid_layout(&vec![1], 640, 480).unwrap();
    assert_eq!((grid.rows, grid.cols), (480, 640));
    assert_eq!(grid.cells, vec![Cell { stage: 0, image: 0, left: 0, top: 0, right: 640, bottom: 480 }]);
    assert_eq!(grid.labels, vec![Point { x: 0, y: 50 }]);
}

#[test]
fn a_stage_without_images_has_a_column_and_no_cell() {
    let grid = grid_layout(&vec![0, 3, 0], 10, 20).unwrap();
    assert_eq!((grid.rows, grid.cols), (60, 30));
    let stages: Vec<(usize, usize, i32, i32)> = grid.cells.iter().map(|c| (c.stage, c.image, c.left, c.top)).collect();
    assert_eq!(stages, vec![(1, 0, 10, 0), (1, 1, 10, 20), (1, 2, 10, 40)]);
    assert_eq!(grid.labels.len(), 3);
    let grid = grid_layout(&vec![0], 10, 20).unwrap();
    assert_eq!((grid.rows, grid.cols), (0, 10));
    assert!(grid.cells.is_empty());
}

#[test]
fn there_is_no_grid_without_stages_or_frame_size() {
    assert!(grid_layout(&Vec::new(), 640, 480).is_none());
    assert!(grid_layout(&vec![1, 2], 0, 480).is_none());
    assert!(grid_layout(&vec![1, 2], 640, 0).is_none());
    assert!(grid_layout(&vec![1, 2], -640, 480).is_none());
    assert!(grid_layout(&vec![1, 2], 640, -480).is_none());
}

#[test]
fn there_is_no_grid_beyond_the_size_of_an_image() {
    // 2 * 1073741823 = 2147483646 fits, one column more does not.
    assert!(grid_layout(&vec![1, 1], 1073741823, 1).is_some());
    assert!(grid_layout(&vec![1, 1, 1], 1073741823, 1).is_none());
    assert!(grid_layout(&vec![1, 1], 1073741824, 1).is_none());
    assert!(grid_layout(&vec![2], 1, 1073741823).is_some());
    assert!(grid_layout(&vec![2], 1, 1073741824).is_none());
    assert!(grid_layout(&vec![1, 3, 2], 1, 1073741823).is_none());
    let grid = grid_layout(&vec![1], i32::MAX, i32::MAX).unwrap();
    assert_eq!((grid.rows, grid.cols), (i32::MAX, i32::MAX));
    assert_eq!(grid.cells[0].right, i32::MAX);
    assert_eq!(grid.cells[0].bottom, i32::MAX);
}

#[test]
fn the_result_alone_is_the_last_stage() {
    let all = vec![Stage::Flipped, Stage::HsvFilter, Stage::Closing, Stage::Blobbing, Stage::Result];
    assert_eq!(visible_stages(&all, false), all);
    assert_eq!(visible_stages(&all, true), vec![Stage::Result]);
    let some = vec![Stage::Flipped, Stage::HsvFilter];
    assert_eq!(visible_stages(&some, true), vec![Stage::HsvFilter]);
    assert_eq!(visible_stages(&Vec::new(), true), Vec::new());
    assert_eq!(visible_stages(&Vec::new(), false), Vec::new());
}

#[test]
fn space_toggles_and_q_quits() {
    assert_eq!(key_action(32), KeyAction::ToggleResultOnly);
    assert_eq!(key_action(113), KeyAction::Quit);
    assert_eq!(key_action(-1), KeyAction::Ignore);
    assert_eq!(key_action(0), KeyAction::Ignore);
    assert_eq!(key_action(81), KeyAction::Ignore);
    assert_eq!(key_action(27), KeyAction::Ignore);
}
