use marker_tracker::blob::{BlobInfo, Point, Rect};
use marker_tracker::overlay::{confidence, pair_overlay, red_and_green};
use marker_tracker::rational::Rational;

fn ratio(num: i64, den: i64) -> Rational {
    Rational::new(num, den).unwrap()
}

fn blob(x: i32, y: i32, width: i32) -> BlobInfo {
    BlobInfo { area: 100, centroid: Point { x: x + 1, y: y + 1 }, bbox: Rect { x, y, width, height: 30 } }
}

#[test]
fn sizes_follow_the_share_of_the_frame_width() {
    // A sixteenth of the frame: 25/16, 75/16, 95/16, 20/16 and 150/16 in whole pixels.
    let o = pair_overlay(&blob(80, 60, 40), 640).unwrap();
    assert_eq!(o.outline_thickness, 1);
    assert_eq!(o.radius, 4);
    assert_eq!(o.ring_radius, 5);
    assert_eq!(o.ring_thickness, 1);
    assert_eq!(o.text_origin, Point { x: 80, y: 60 });
    assert!(o.text_scale.equals(&ratio(10, 16)));
    // The marks are 9 + 5 apart, the third above the middle of the box.
    let xs: Vec<i32> = o.centers.iter().map(|p| p.x).collect();
    assert_eq!(xs, vec![72, 86, 100, 114]);
    assert!(o.centers.iter().all(|p| p.y == 60));
}

#[test]
fn a_blob_as_wide_as_the_frame_is_drawn_at_full_size() {
    let o = pair_overlay(&blob(0, 10, 641), 641).unwrap();
    assert_eq!((o.outline_thickness, o.radius, o.ring_radius, o.ring_thickness), (25, 75, 95, 20));
    assert!(o.text_scale.equals(&ratio(10, 1)));
    let xs: Vec<i32> = o.centers.iter().map(|p| p.x).collect();
    assert_eq!(xs, vec![320 - 310, 320 - 155, 320, 320 + 155]);
}

#[test]
fn sizes_beyond_the_range_of_a_coordinate_are_cut_to_it() {
    let o = pair_overlay(&blob(i32::MAX, 0, i32::MAX), 1).unwrap();
    assert_eq!(o.outline_thickness, i32::MAX);
    assert_eq!(o.radius, i32::MAX);
    let xs: Vec<i32> = o.centers.iter().map(|p| p.x).collect();
    // The middle lies at 3221225470 and the marks 2147483652 apart.
    assert_eq!(xs, vec![-1073741834, 1073741818, i32::MAX, i32::MAX]);
    let o = pair_overlay(&blob(i32::MIN, 0, i32::MAX), 1).unwrap();
    let xs: Vec<i32> = o.centers.iter().map(|p| p.x).collect();
    assert_eq!(xs, vec![i32::MIN, i32::MIN, -1073741825, 1073741827]);
    let o = pair_overlay(&blob(0, 0, 1), i32::MAX).unwrap();
    assert_eq!((o.outline_thickness, o.radius, o.ring_radius, o.ring_thickness), (0, 0, 0, 0));
    let xs: Vec<i32> = o.centers.iter().map(|p| p.x).collect();
    assert_eq!(xs, vec![-10, -5, 0, 5]);
}

#[test]
fn nothing_is_drawn_for_a_blob_or_a_frame_without_width() {
    assert!(pair_overlay(&blob(0, 0, 0), 640).is_none());
    assert!(pair_overlay(&blob(0, 0, -4), 640).is_none());
    assert!(pair_overlay(&blob(0, 0, 40), 0).is_none());
    assert!(pair_overlay(&blob(0, 0, 40), -640).is_none());
    let flat = BlobInfo { bbox: Rect { x: 0, y: 0, width: 40, height: 0 }, ..blob(0, 0, 40) };
    assert!(pair_overlay(&flat, 640).is_none());
    let empty = BlobInfo { area: 0, ..blob(0, 0, 40) };
    assert!(pair_overlay(&empty, 640).is_none());
}

#[test]
fn confidence_runs_from_the_cap_to_one() {
    let cap = ratio(1, 2);
    assert!(confidence(&ratio(1, 2), &cap).equals(&ratio(0, 1)));
    assert!(confidence(&ratio(1, 1), &cap).equals(&ratio(1, 1)));
    assert!(confidence(&ratio(9, 10), &cap).equals(&ratio(4, 5)));
    assert!(confidence(&ratio(1, 4), &cap).equals(&ratio(-1, 2)));
    assert!(confidence(&ratio(9, 10), &ratio(0, 1)).equals(&ratio(9, 10)));
}

#[test]
fn confidence_is_full_at_a_cap_of_one() {
    assert!(confidence(&ratio(1, 1), &ratio(1, 1)).equals(&ratio(1, 1)));
    assert!(confidence(&ratio(9, 10), &ratio(4, 4)).equals(&ratio(1, 1)));
    assert!(confidence(&ratio(3, 2), &ratio(1, 1)).equals(&ratio(1, 1)));
}

#[test]
fn the_colour_turns_from_red_to_green() {
    let (red, green) = red_and_green(&ratio(0, 1));
    assert!(red.equals(&ratio(255, 1)) && green.equals(&ratio(0, 1)));
    let (red, green) = red_and_green(&ratio(1, 1));
    assert!(red.equals(&ratio(0, 1)) && green.equals(&ratio(255, 1)));
    let (red, green) = red_and_green(&ratio(4, 5));
    assert!(red.equals(&ratio(51, 1)) && green.equals(&ratio(204, 1)));
    let (red, green) = red_and_green(&ratio(-7, 11));
    assert!(red.equals(&ratio(255 * 18, 11)) && green.equals(&ratio(-255 * 7, 11)));
}
