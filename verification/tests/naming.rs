use chrono::Local;
use motion_detector::clock::{snapshot_filename, snapshot_filename_now, Timestamp};

#[test]
fn snapshot_filename_is_exact() {
    let ts = Timestamp::new(2024, 5, 7, 8, 9, 10).unwrap();
    assert_eq!(snapshot_filename(&ts), "motion_20240507_080910.jpg");
    let ts = Timestamp::new(999, 12, 31, 23, 59, 59).unwrap();
    assert_eq!(snapshot_filename(&ts), "motion_09991231_235959.jpg");
}

#[test]
fn timestamp_validation_is_exact() {
    assert!(Timestamp::new(2024, 1, 1, 0, 0, 0).is_some());
    assert!(Timestamp::new(-1, 1, 1, 0, 0, 0).is_none());
    assert!(Timestamp::new(10000, 1, 1, 0, 0, 0).is_none());
    assert!(Timestamp::new(2024, 0, 1, 0, 0, 0).is_none());
    assert!(Timestamp::new(2024, 13, 1, 0, 0, 0).is_none());
    assert!(Timestamp::new(2024, 1, 32, 0, 0, 0).is_none());
    assert!(Timestamp::new(2024, 1, 1, 24, 0, 0).is_none());
    assert!(Timestamp::new(2024, 1, 1, 0, 60, 0).is_none());
    assert!(Timestamp::new(2024, 1, 1, 0, 0, 60).is_none());
}

#[test]
fn snapshot_filename_now_follows_the_convention() {
    // Goes through the real clock: the name must carry a full timestamp.
    let name = snapshot_filename_now().expect("the clock's year fits four digits");
    assert!(name.starts_with("motion_"));
    assert!(name.ends_with(".jpg"));
    assert_eq!(name.len(), 26);
}

#[test]
fn test_filename_generation() {
    // Test that snapshot filename generation works
    let timestamp = Local::now().format("%Y%m%d_%H%M%S");
    let expected_pattern = format!("motion_{}.jpg", timestamp);

    // This test ensures the format is correct
    assert!(expected_pattern.starts_with("motion_"));
    assert!(expected_pattern.ends_with(".jpg"));
    assert!(expected_pattern.len() > 15); // Should have timestamp
}

#[test]
fn test_sensitivity_bounds() {
    // Test that sensitivity values are within expected bounds
    let valid_sensitivities = [0.0, 0.1, 0.5, 0.9, 1.0];
    for &sensitivity in &valid_sensitivities {
        assert!(sensitivity >= 0.0 && sensitivity <= 1.0);
    }
}

#[test]
fn test_min_area_bounds() {
    // Test that min_area values are reasonable
    let valid_areas = [100, 500, 1000, 5000];
    for &area in &valid_areas {
        assert!(area > 0);
    }
}
