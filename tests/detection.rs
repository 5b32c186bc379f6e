use led_calibrator::{
    detect_regions, frame_height, frame_rows, frame_used_len, region_of_contour,
    threshold_mask, DetectedRegion, DetectionConfig, DetectionResults, DetectionSchedule,
    EngineAction, FrameBuffer, Point, DETECTION_INTERVAL_MS, MASK_OFF, MASK_ON,
};

fn pt(x: i32, y: i32) -> Point {
    Point { x, y }
}

fn rect_contour(x0: i32, y0: i32, w: i32, h: i32) -> Vec<Point> {
    let x1 = x0 + w - 1;
    let y1 = y0 + h - 1;
    vec![pt(x0, y0), pt(x0, y1), pt(x1, y1), pt(x1, y0)]
}

fn center(g: &DetectedRegion) -> (f64, f64) {
    (
        g.center_x_num as f64 / g.center_den as f64,
        g.center_y_num as f64 / g.center_den as f64,
    )
}

#[test]
fn height_of_exact_buffer() {
    assert_eq!(frame_height(4 * 3 * 5, 4), 5);
    assert_eq!(frame_used_len(4 * 3 * 5, 4), 60);
}

#[test]
fn height_truncates_partial_row() {
    // rows of 10 pixels are 30 bytes: 100 bytes hold three whole rows
    assert_eq!(frame_height(100, 10), 3);
    assert_eq!(frame_used_len(100, 10), 90);
    assert_eq!(frame_height(29, 10), 0);
    assert_eq!(frame_used_len(29, 10), 0);
}

#[test]
fn rows_skip_without_frame() {
    assert_eq!(frame_rows(300, 0), None);
    assert_eq!(frame_rows(0, 0), None);
    assert_eq!(frame_rows(300, 10), Some(10));
    assert_eq!(frame_rows(301, 10), Some(10));
}

#[test]
fn frame_buffer_starts_empty() {
    let fb = FrameBuffer::new();
    let (bytes, width) = fb.snapshot();
    assert!(bytes.is_empty());
    assert_eq!(width, 0);
}

#[test]
fn frame_buffer_snapshot_is_last_publish() {
    let mut fb = FrameBuffer::new();
    fb.publish(vec![1, 2, 3, 4, 5, 6], 2);
    let first = fb.snapshot();
    fb.publish(vec![9, 9, 9], 1);
    let second = fb.snapshot();
    assert_eq!(first, (vec![1, 2, 3, 4, 5, 6], 2));
    assert_eq!(second, (vec![9, 9, 9], 1));
}

#[test]
fn default_band_brackets_green() {
    let c = DetectionConfig::new();
    assert_eq!((c.lower_h, c.lower_s, c.lower_v), (40, 100, 100));
    assert_eq!((c.upper_h, c.upper_s, c.upper_v), (70, 255, 255));
    assert!(c.in_band(60, 255, 255));
    assert!(c.in_band(40, 100, 100));
    assert!(c.in_band(70, 255, 255));
    assert!(!c.in_band(39, 200, 200));
    assert!(!c.in_band(71, 200, 200));
    assert!(!c.in_band(60, 99, 200));
    assert!(!c.in_band(60, 200, 99));
}

#[test]
fn mask_marks_pixels_in_band() {
    let c = DetectionConfig::new();
    let hsv = vec![60, 200, 200, 0, 0, 0, 40, 100, 100, 71, 255, 255, 1];
    assert_eq!(threshold_mask(&hsv, &c), vec![MASK_ON, MASK_OFF, MASK_ON, MASK_OFF]);
}

#[test]
fn mask_of_inverted_band_is_empty() {
    let mut c = DetectionConfig::new();
    c.lower_s = 200;
    c.upper_s = 100;
    let hsv = vec![60, 150, 150, 60, 200, 200, 60, 100, 100];
    assert_eq!(threshold_mask(&hsv, &c), vec![MASK_OFF, MASK_OFF, MASK_OFF]);
}

#[test]
fn mask_of_empty_image() {
    assert!(threshold_mask(&Vec::new(), &DetectionConfig::new()).is_empty());
}

#[test]
fn rectangle_region_exact() {
    let g = region_of_contour(&rect_contour(10, 20, 30, 40)).unwrap();
    assert_eq!(g.width, 30);
    assert_eq!(g.height, 40);
    // area 29 * 39 counted twice: den = 3 * 2 * 29 * 39
    assert_eq!(g.center_den, 6786);
    let (cx, cy) = center(&g);
    assert_eq!(cx, 24.5);
    assert_eq!(cy, 39.5);
    assert!((cx - (10.0 + 15.0)).abs() <= 1.0);
    assert!((cy - (20.0 + 20.0)).abs() <= 1.0);
}

#[test]
fn rectangle_region_either_orientation() {
    let mut c = rect_contour(3, 4, 5, 6);
    let a = region_of_contour(&c).unwrap();
    c.reverse();
    let b = region_of_contour(&c).unwrap();
    assert_eq!(a, b);
    assert!(a.center_den > 0);
}

#[test]
fn triangle_region_exact() {
    let g = region_of_contour(&vec![pt(0, 0), pt(0, 6), pt(6, 0)]).unwrap();
    assert_eq!(center(&g), (2.0, 2.0));
    assert_eq!((g.width, g.height), (7, 7));
}

#[test]
fn thin_line_has_no_region() {
    assert_eq!(region_of_contour(&rect_contour(5, 5, 1, 10)), None);
    assert_eq!(region_of_contour(&rect_contour(5, 5, 10, 1)), None);
    assert_eq!(region_of_contour(&vec![pt(7, 7)]), None);
    assert_eq!(region_of_contour(&Vec::new()), None);
}

#[test]
fn no_contours_no_regions() {
    assert!(detect_regions(&Vec::new()).is_empty());
}

#[test]
fn one_region_per_rectangle() {
    let contours = vec![
        rect_contour(0, 0, 10, 10),
        rect_contour(50, 0, 4, 8),
        rect_contour(0, 50, 20, 6),
    ];
    let regions = detect_regions(&contours);
    assert_eq!(regions.len(), 3);
    assert_eq!(center(&regions[0]), (4.5, 4.5));
    assert_eq!(center(&regions[1]), (51.5, 3.5));
    assert_eq!(center(&regions[2]), (9.5, 52.5));
    assert_eq!((regions[1].width, regions[1].height), (4, 8));
}

#[test]
fn zero_area_contours_dropped() {
    let contours = vec![
        rect_contour(0, 0, 1, 9),
        rect_contour(20, 20, 6, 6),
        vec![pt(3, 3), pt(4, 4)],
    ];
    let regions = detect_regions(&contours);
    assert_eq!(regions.len(), 1);
    assert_eq!(center(&regions[0]), (22.5, 22.5));
    assert!(regions.iter().all(|g| g.center_den > 0));
}

#[test]
fn circle_region_near_center() {
    let (cx, cy, r) = (40.0f64, 30.0f64, 12.0f64);
    let mut contour: Vec<Point> = Vec::new();
    for k in 0..360 {
        let t = (k as f64).to_radians();
        let p = pt((cx + r * t.cos()).round() as i32, (cy + r * t.sin()).round() as i32);
        if contour.last() != Some(&p) && contour.first() != Some(&p) {
            contour.push(p);
        }
    }
    let regions = detect_regions(&vec![contour]);
    assert_eq!(regions.len(), 1);
    let (gx, gy) = center(&regions[0]);
    assert!((gx - cx).abs() <= 1.0);
    assert!((gy - cy).abs() <= 1.0);
    assert!((regions[0].width as f64 - 2.0 * r).abs() <= 2.0);
    assert!((regions[0].height as f64 - 2.0 * r).abs() <= 2.0);
}

#[test]
fn schedule_waits_one_interval() {
    let mut s = DetectionSchedule::new(DETECTION_INTERVAL_MS, 0);
    assert_eq!(s.poll(40), EngineAction::Sleep(60));
    assert_eq!(s.poll(100), EngineAction::RunCycle);
    s.cycle_done(130);
    assert_eq!(s.poll(200), EngineAction::Sleep(30));
    assert_eq!(s.poll(231), EngineAction::RunCycle);
}

#[test]
fn config_write_seen_within_interval() {
    let mut s = DetectionSchedule::new(DETECTION_INTERVAL_MS, 0);
    assert_eq!(s.poll(100), EngineAction::RunCycle);
    s.cycle_done(150);
    // a write lands at 170, while the loop sleeps
    let write_at = 170;
    assert_eq!(s.poll(write_at), EngineAction::Sleep(80));
    assert_eq!(s.poll(write_at + DETECTION_INTERVAL_MS), EngineAction::RunCycle);
}

#[test]
fn results_replaced_whole() {
    let mut res = DetectionResults::new();
    assert!(res.read().is_empty());
    let two = detect_regions(&vec![rect_contour(0, 0, 3, 3), rect_contour(9, 9, 3, 3)]);
    res.publish(two.clone());
    assert_eq!(res.read(), two);
    res.publish(Vec::new());
    assert!(res.read().is_empty());
}
