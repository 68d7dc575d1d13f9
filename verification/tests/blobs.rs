use marker_tracker::blob::{remove_blobs, sort_by_area_descending, BlobInfo, LabelStats, Point, Rect};

fn row(area: i32, left: i32) -> LabelStats {
    LabelStats { area, left, top: 2, width: 3, height: 4, centroid_x: left + 1, centroid_y: 5 }
}

fn blob(area: i32, left: i32) -> BlobInfo {
    BlobInfo {
        area,
        centroid: Point { x: left + 1, y: 5 },
        bbox: Rect { x: left, y: 2, width: 3, height: 4 },
    }
}

#[test]
fn small_regions_and_the_background_are_dropped() {
    let stats = vec![row(100000, 0), row(29, 10), row(30, 20), row(500, 30), row(4, 40), row(31, 50)];
    let r = remove_blobs(&stats, 30);
    assert_eq!(r.kept, vec![2, 3, 5]);
    assert_eq!(r.info, vec![blob(500, 30), blob(31, 50), blob(30, 20)]);
}

#[test]
fn the_background_is_dropped_whatever_its_area() {
    let r = remove_blobs(&vec![row(100000, 0)], 0);
    assert!(r.kept.is_empty());
    assert!(r.info.is_empty());
    let r = remove_blobs(&Vec::new(), 0);
    assert!(r.kept.is_empty());
    assert!(r.info.is_empty());
}

#[test]
fn a_minimum_of_zero_keeps_every_region() {
    let stats = vec![row(9, 0), row(1, 10), row(3, 20), row(2, 30)];
    let r = remove_blobs(&stats, 0);
    assert_eq!(r.kept, vec![1, 2, 3]);
    assert_eq!(r.info, vec![blob(3, 20), blob(2, 30), blob(1, 10)]);
}

#[test]
fn regions_of_equal_area_stay_in_label_order() {
    let stats = vec![row(0, 0), row(50, 1), row(70, 2), row(50, 3), row(70, 4), row(50, 5), row(60, 6)];
    let r = remove_blobs(&stats, 50);
    assert_eq!(r.kept, vec![1, 2, 3, 4, 5, 6]);
    assert_eq!(
        r.info,
        vec![blob(70, 2), blob(70, 4), blob(60, 6), blob(50, 1), blob(50, 3), blob(50, 5)]
    );
}

#[test]
fn sorting_puts_the_largest_first_and_keeps_ties_in_order() {
    let blobs = vec![blob(5, 0), blob(9, 1), blob(5, 2), blob(1, 3), blob(9, 4), blob(-2, 5)];
    assert_eq!(
        sort_by_area_descending(&blobs),
        vec![blob(9, 1), blob(9, 4), blob(5, 0), blob(5, 2), blob(1, 3), blob(-2, 5)]
    );
    assert_eq!(sort_by_area_descending(&Vec::new()), Vec::new());
    let sorted = vec![blob(3, 0), blob(2, 1), blob(1, 2)];
    assert_eq!(sort_by_area_descending(&sorted), sorted);
    let reversed = vec![blob(1, 2), blob(2, 1), blob(3, 0)];
    assert_eq!(sort_by_area_descending(&reversed), sorted);
}

#[test]
fn a_blob_needs_area_width_and_height() {
    let good = BlobInfo { area: 1, centroid: Point { x: 0, y: 0 }, bbox: Rect { x: 0, y: 0, width: 1, height: 1 } };
    assert!(good.is_valid());
    assert!(!BlobInfo { area: 0, ..good }.is_valid());
    assert!(!BlobInfo { bbox: Rect { width: 0, ..good.bbox }, ..good }.is_valid());
    assert!(!BlobInfo { bbox: Rect { height: -1, ..good.bbox }, ..good }.is_valid());
    let moved = BlobInfo { centroid: Point { x: -5, y: -6 }, bbox: Rect { x: -7, y: -8, ..good.bbox }, ..good };
    assert!(moved.is_valid());
}
