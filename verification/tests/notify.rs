use mercury::notify::{check_notification, pushover_form, Constraint, LimitReading, NotificationKind};
use mercury::sensors::SensorMap;
use std::collections::HashSet;

fn constraint(sensor: i64, vtype: &str, limit: &str, comparison: &str) -> Constraint {
    Constraint {
        sensor,
        vtype: vtype.to_string(),
        limit: limit.to_string(),
        comparison: comparison.to_string(),
    }
}

/// How `value` stands to `limit`, with the margin of half a unit.
fn reading(value: f64, limit: f64) -> LimitReading {
    LimitReading {
        above: value > limit,
        below: value < limit,
        above_margin: value > limit + 0.5,
        below_margin: value < limit - 0.5,
        shown_limit: format!("{}", limit),
    }
}

fn sensors() -> SensorMap {
    let mut m = SensorMap::new();
    m.insert("1".to_string(), "Living room".to_string());
    m.insert("2".to_string(), "Garden".to_string());
    m
}

fn setup() -> Vec<Constraint> {
    vec![
        constraint(1, "t", "25.0", "+"),
        constraint(1, "h", "30.0", "-"),
        constraint(2, "t", "0.0", "-"),
    ]
}

fn readings(cs: &[Constraint], limits: &[f64], value: f64) -> Vec<LimitReading> {
    cs.iter().zip(limits).map(|(_, l)| reading(value, *l)).collect()
}

const LIMITS: [f64; 3] = [25.0, 30.0, 0.0];
const T: &str = "2020-05-01 12:00:00";

#[test]
fn alert_over_limit() {
    let cs = setup();
    let mut notified = HashSet::new();
    let sent = check_notification(&mut notified, &cs, &readings(&cs, &LIMITS, 26.0), &sensors(), 1,
        &"t".to_string(), &T.to_string());
    assert_eq!(sent.len(), 1);
    assert_eq!(sent[0].index, 0);
    assert_eq!(sent[0].kind, NotificationKind::Alert);
    assert_eq!(sent[0].message, "Living room: t is over limit of 25 (2020-05-01 12:00:00)");
    assert!(notified.contains(&0));
    assert_eq!(notified.len(), 1);
}

#[test]
fn alert_is_not_repeated() {
    let cs = setup();
    let mut notified = HashSet::new();
    let t = "t".to_string();
    check_notification(&mut notified, &cs, &readings(&cs, &LIMITS, 26.0), &sensors(), 1, &t, &T.to_string());
    let sent = check_notification(&mut notified, &cs, &readings(&cs, &LIMITS, 27.0), &sensors(), 1, &t,
        &T.to_string());
    assert!(sent.is_empty());
    assert!(notified.contains(&0));
}

#[test]
fn clears_only_past_the_margin() {
    let cs = setup();
    let mut notified = HashSet::new();
    let t = "t".to_string();
    check_notification(&mut notified, &cs, &readings(&cs, &LIMITS, 26.0), &sensors(), 1, &t, &T.to_string());
    let sent = check_notification(&mut notified, &cs, &readings(&cs, &LIMITS, 24.7), &sensors(), 1, &t,
        &T.to_string());
    assert!(sent.is_empty());
    assert!(notified.contains(&0));
    let sent = check_notification(&mut notified, &cs, &readings(&cs, &LIMITS, 24.4), &sensors(), 1, &t,
        &"2020-05-01 13:00:00".to_string());
    assert_eq!(sent.len(), 1);
    assert_eq!(sent[0].kind, NotificationKind::AllClear);
    assert_eq!(
        sent[0].message,
        "Living room all clear: t is below limit of 25 again (2020-05-01 13:00:00)"
    );
    assert!(notified.is_empty());
}

#[test]
fn alert_below_limit_and_clear() {
    let cs = setup();
    let mut notified = HashSet::new();
    let h = "h".to_string();
    let sent = check_notification(&mut notified, &cs, &readings(&cs, &LIMITS, 29.5), &sensors(), 1, &h,
        &T.to_string());
    assert_eq!(sent.len(), 1);
    assert_eq!(sent[0].index, 1);
    assert_eq!(sent[0].message, "Living room: h is below limit of 30 (2020-05-01 12:00:00)");
    let sent = check_notification(&mut notified, &cs, &readings(&cs, &LIMITS, 31.0), &sensors(), 1, &h,
        &T.to_string());
    assert_eq!(sent[0].kind, NotificationKind::AllClear);
    assert_eq!(
        sent[0].message,
        "Living room all clear: h is over limit of 30 again (2020-05-01 12:00:00)"
    );
    assert!(notified.is_empty());
}

#[test]
fn other_sensors_and_kinds_are_left_alone() {
    let cs = setup();
    let mut notified = HashSet::new();
    notified.insert(2usize);
    let sent = check_notification(&mut notified, &cs, &readings(&cs, &LIMITS, 100.0), &sensors(), 2,
        &"h".to_string(), &T.to_string());
    assert!(sent.is_empty());
    assert_eq!(notified, HashSet::from([2usize]));
}

#[test]
fn an_unknown_side_never_alerts() {
    let cs = vec![constraint(1, "t", "25.0", ">")];
    let mut notified = HashSet::new();
    let sent = check_notification(&mut notified, &cs, &readings(&cs, &LIMITS[..1], 100.0), &sensors(), 1,
        &"t".to_string(), &T.to_string());
    assert!(sent.is_empty());
    assert!(notified.is_empty());
}

#[test]
fn a_reading_at_the_limit_does_not_alert() {
    let cs = setup();
    let mut notified = HashSet::new();
    let sent = check_notification(&mut notified, &cs, &readings(&cs, &LIMITS, 25.0), &sensors(), 1,
        &"t".to_string(), &T.to_string());
    assert!(sent.is_empty());
}

#[test]
fn several_constraints_alert_in_order() {
    let cs = vec![
        constraint(2, "t", "10.0", "+"),
        constraint(2, "t", "5.0", "+"),
    ];
    let mut notified = HashSet::new();
    let sent = check_notification(&mut notified, &cs, &readings(&cs, &[10.0, 5.0], 12.5), &sensors(), 2,
        &"t".to_string(), &T.to_string());
    assert_eq!(sent.len(), 2);
    assert_eq!(sent[0].index, 0);
    assert_eq!(sent[1].index, 1);
    assert_eq!(sent[1].message, "Garden: t is over limit of 5 (2020-05-01 12:00:00)");
}

#[test]
fn pushover_form_body() {
    assert_eq!(
        pushover_form(&"tok".to_string(), &"usr".to_string(), &"Garden: t is over".to_string()),
        "token=tok&user=usr&message=Garden: t is over"
    );
}

#[test]
fn the_same_reading_twice_changes_nothing_the_second_time() {
    let cs = setup();
    for value in [26.0, 24.4, 29.5, 31.0, f64::NAN] {
        let mut notified = HashSet::from([1usize]);
        let t = "t".to_string();
        check_notification(&mut notified, &cs, &readings(&cs, &LIMITS, value), &sensors(), 1, &t, &T.to_string());
        let before = notified.clone();
        let sent = check_notification(&mut notified, &cs, &readings(&cs, &LIMITS, value), &sensors(), 1, &t,
            &T.to_string());
        assert!(sent.is_empty());
        assert_eq!(notified, before);
    }
}

#[test]
fn notifications_about_one_constraint_alternate() {
    let cs = setup();
    let mut notified = HashSet::new();
    let t = "t".to_string();
    let mut kinds = Vec::new();
    for value in [26.0, 27.0, 24.8, 24.0, 23.0, 25.5, 26.0, 10.0] {
        let sent = check_notification(&mut notified, &cs, &readings(&cs, &LIMITS, value), &sensors(), 1, &t,
            &T.to_string());
        kinds.extend(sent.iter().filter(|n| n.index == 0).map(|n| n.kind));
    }
    assert_eq!(
        kinds,
        vec![NotificationKind::Alert, NotificationKind::AllClear, NotificationKind::Alert, NotificationKind::AllClear]
    );
    assert!(notified.is_empty());
}
