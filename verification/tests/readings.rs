use mercury::clock::Stamp;
use mercury::readings::{history_points, latest_values, LogEntry};

fn entry(id: i32, secs: i64, t: Option<f32>, h: Option<f32>) -> LogEntry<f32> {
    LogEntry {
        sensor_id: id,
        sensor_name: Some("Garden".to_string()),
        timestamp: Stamp { secs, nanos: 0 },
        temperature: t,
        humidity: h,
    }
}

#[test]
fn latest_values_rows() {
    let logs = vec![entry(2, 10_000, Some(21.5), Some(40.0)), entry(2, 0, Some(20.0), Some(41.0))];
    let now = Stamp { secs: 10_000, nanos: 0 };
    let rows = latest_values(&logs, now, "UTC").expect("rows");
    assert_eq!(rows.len(), 2);
    assert_eq!(rows[0].sensor_id, "2");
    assert_eq!(rows[0].sensor_name, "Garden");
    assert_eq!(rows[0].timestamp, "1970-01-01 02:46:40 UTC");
    assert_eq!(rows[0].temperature, 21.5);
    assert_eq!(rows[0].humidity, 40.0);
    assert!(!rows[0].too_old);
    assert!(rows[1].too_old);
}

#[test]
fn latest_values_unknown_zone() {
    let logs = vec![entry(2, 0, Some(20.0), Some(41.0))];
    assert!(latest_values(&logs, Stamp { secs: 0, nanos: 0 }, "Nowhere").is_none());
    assert_eq!(latest_values::<f32>(&vec![], Stamp { secs: 0, nanos: 0 }, "Nowhere").map(|v| v.len()), Some(0));
}

#[test]
fn history_skips_incomplete_rows() {
    let logs = vec![
        entry(1, 0, Some(1.0), Some(2.0)),
        entry(1, 60, None, Some(2.0)),
        entry(1, 120, Some(3.0), None),
        entry(1, 3600, Some(4.0), Some(5.0)),
    ];
    let points = history_points(&logs, "Europe/Berlin").expect("points");
    assert_eq!(points.len(), 2);
    assert_eq!(points[0].timestamp, "1970-01-01 01:00:00");
    assert_eq!((points[0].temperature, points[0].humidity), (1.0, 2.0));
    assert_eq!(points[1].timestamp, "1970-01-01 02:00:00");
    assert_eq!((points[1].temperature, points[1].humidity), (4.0, 5.0));
}

#[test]
fn history_unknown_zone() {
    let logs = vec![entry(1, 0, Some(1.0), Some(2.0))];
    assert!(history_points(&logs, "Nowhere").is_none());
    let incomplete = vec![entry(1, 0, None, None)];
    assert_eq!(history_points(&incomplete, "Nowhere").map(|v| v.len()), Some(0));
}

#[test]
fn history_at_the_end_of_chronos_range_gives_nothing() {
    let logs = vec![entry(1, 8_210_266_873_200, Some(1.0), Some(2.0))];
    assert!(history_points(&logs, "Asia/Tokyo").is_none());
    assert_eq!(history_points(&logs, "UTC").map(|v| v.len()), Some(1));
}
