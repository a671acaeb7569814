use mercury::sensors::SensorMap;

fn map(pairs: &[(&str, &str)]) -> SensorMap {
    let mut m = SensorMap::new();
    for (k, v) in pairs {
        m.insert(k.to_string(), v.to_string());
    }
    m
}

#[test]
fn looks_up_names_by_key() {
    let m = map(&[("1", "Living room"), ("2", "Garden")]);
    assert_eq!(m.len(), 2);
    assert_eq!(m.get(&"2".to_string()).map(|s| s.as_str()), Some("Garden"));
    assert_eq!(m.get(&"3".to_string()), None);
}

#[test]
fn insert_replaces_the_name_of_a_key() {
    let m = map(&[("1", "Living room"), ("1", "Kitchen")]);
    assert_eq!(m.len(), 1);
    assert_eq!(m.get(&"1".to_string()).map(|s| s.as_str()), Some("Kitchen"));
}

#[test]
fn finds_a_sensor_by_its_id() {
    let m = map(&[("0", "Outside"), ("-3", "Cellar"), ("12", "Attic")]);
    assert_eq!(m.sensor_name(12).map(|s| s.as_str()), Some("Attic"));
    assert_eq!(m.sensor_name(-3).map(|s| s.as_str()), Some("Cellar"));
    assert_eq!(m.sensor_name(0).map(|s| s.as_str()), Some("Outside"));
    assert_eq!(m.sensor_name(5), None);
}

#[test]
fn selects_sensors_in_key_order() {
    let m = map(&[("2", "B"), ("10", "C"), ("1", "A")]);
    let r = m.select_sensors(None);
    let ids: Vec<i32> = r.iter().map(|e| e.id).collect();
    let names: Vec<&str> = r.iter().map(|e| e.name.as_str()).collect();
    assert_eq!(ids, vec![1, 10, 2]);
    assert_eq!(names, vec!["A", "C", "B"]);
}

#[test]
fn selects_one_sensor_by_filter() {
    let m = map(&[("2", "B"), ("10", "C"), ("1", "A")]);
    let r = m.select_sensors(Some(10));
    assert_eq!(r.len(), 1);
    assert_eq!(r[0].id, 10);
    assert_eq!(r[0].key, "10");
    assert_eq!(r[0].name, "C");
    assert!(m.select_sensors(Some(4)).is_empty());
}

#[test]
fn a_filter_keeps_every_key_of_the_id() {
    let m = map(&[("+1", "plus"), ("1", "plain"), ("01", "zero")]);
    let r = m.select_sensors(Some(1));
    let keys: Vec<&str> = r.iter().map(|e| e.key.as_str()).collect();
    assert_eq!(keys, vec!["+1", "01", "1"]);
}

#[test]
fn an_empty_map_selects_nothing() {
    assert!(SensorMap::new().select_sensors(None).is_empty());
}
