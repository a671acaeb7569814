//! Limit notifications: when a reading of a sensor crosses a configured
//! limit, one alert goes out; when it has come back by more than the margin,
//! one all-clear goes out. The set of notified constraints is the state that
//! sits between readings.
use vstd::prelude::*;
use vstd::string::*;
use std::collections::HashSet;
use crate::decimal::decimal;
use crate::sensors::SensorMap;

verus! {

broadcast use vstd::std_specs::hash::group_hash_axioms;

/// A notification constraint of the settings: for the readings of kind
/// `vtype` ("t" or "h") of sensor `sensor`, a limit and the side of the limit
/// that raises an alert ("+": above it, "-": below it).
pub struct Constraint {
    pub sensor: i64,
    pub vtype: String,
    /// The limit as the settings file writes it.
    pub limit: String,
    pub comparison: String,
}

/// How one reading stands to the limit of one constraint. The library holds
/// no floating-point numbers: the caller compares the reading with the limit
/// and with the limit moved by the hysteresis margin, and says how the limit
/// is printed.
pub struct LimitReading {
    /// The reading is above the limit.
    pub above: bool,
    /// The reading is below the limit.
    pub below: bool,
    /// The reading is above the limit plus the margin.
    pub above_margin: bool,
    /// The reading is below the limit minus the margin.
    pub below_margin: bool,
    /// The limit, as a message shows it.
    pub shown_limit: String,
}

/// The flags of a reading agree with one another, as they do for every
/// reading and limit, not-a-number included: above the limit plus the margin
/// is above the limit, below the limit minus the margin is below it, and no
/// reading is both above and below.
pub open spec fn reading_consistent(r: LimitReading) -> bool {
    &&& r.above_margin ==> r.above
    &&& r.below_margin ==> r.below
    &&& !(r.above && r.below)
}

#[derive(PartialEq, Eq, Structural, Clone, Copy, Debug)]
pub enum NotificationKind {
    /// The reading crossed the limit.
    Alert,
    /// The reading came back from the limit.
    AllClear,
}

/// A notification to send: the index of its constraint, its kind and text.
pub struct Notification {
    pub index: usize,
    pub kind: NotificationKind,
    pub message: String,
}

/// A constraint that alerts above its limit.
pub open spec fn alerts_above(c: Constraint) -> bool {
    c.comparison@ == seq!['+']
}

/// A constraint that alerts below its limit.
pub open spec fn alerts_below(c: Constraint) -> bool {
    c.comparison@ == seq!['-']
}

/// The constraint watches readings of this kind from this sensor.
pub open spec fn applies(c: Constraint, sensor: i64, vtype: Seq<char>) -> bool {
    c.sensor == sensor && c.vtype@ == vtype
}

/// The reading is on the alerting side of the limit.
pub open spec fn raises(c: Constraint, r: LimitReading) -> bool {
    (alerts_above(c) && r.above) || (alerts_below(c) && r.below)
}

/// The reading is back on the quiet side of the limit by more than the margin.
pub open spec fn clears(c: Constraint, r: LimitReading) -> bool {
    (alerts_above(c) && r.below_margin) || (alerts_below(c) && r.above_margin)
}

/// Whether constraint `i` is notified after a reading, given whether it was
/// notified before: constraints that do not watch the reading keep their
/// state; a quiet one becomes notified when the reading raises it, a
/// notified one becomes quiet when the reading clears it.
pub open spec fn stays_notified(
    was: bool,
    cs: Seq<Constraint>,
    rs: Seq<LimitReading>,
    sensor: i64,
    vtype: Seq<char>,
    i: int,
) -> bool {
    if 0 <= i < cs.len() && applies(cs[i], sensor, vtype) {
        if was {
            !clears(cs[i], rs[i])
        } else {
            raises(cs[i], rs[i])
        }
    } else {
        was
    }
}

/// The notified constraints after a reading, the indices below `n` updated.
pub open spec fn notified_upto(
    s: Set<usize>,
    cs: Seq<Constraint>,
    rs: Seq<LimitReading>,
    sensor: i64,
    vtype: Seq<char>,
    n: int,
) -> Set<usize> {
    Set::new(
        |i: usize|
            if i < n {
                stays_notified(s.contains(i), cs, rs, sensor, vtype, i as int)
            } else {
                s.contains(i)
            },
    )
}

/// The notified constraints after a reading.
pub open spec fn notified_after(
    s: Set<usize>,
    cs: Seq<Constraint>,
    rs: Seq<LimitReading>,
    sensor: i64,
    vtype: Seq<char>,
) -> Set<usize> {
    notified_upto(s, cs, rs, sensor, vtype, cs.len() as int)
}

/// The text of an alert.
pub open spec fn alert_text(
    name: Seq<char>,
    vtype: Seq<char>,
    c: Constraint,
    r: LimitReading,
    time: Seq<char>,
) -> Seq<char> {
    name + ": "@ + vtype + " is "@ + (if alerts_above(c) {
        "over"@
    } else {
        "below"@
    }) + " limit of "@ + r.shown_limit@ + " ("@ + time + ")"@
}

/// The text of an all-clear.
pub open spec fn all_clear_text(
    name: Seq<char>,
    vtype: Seq<char>,
    c: Constraint,
    r: LimitReading,
    time: Seq<char>,
) -> Seq<char> {
    name + " all clear: "@ + vtype + " is "@ + (if alerts_above(c) {
        "below"@
    } else {
        "over"@
    }) + " limit of "@ + r.shown_limit@ + " again ("@ + time + ")"@
}

/// The notification, if any, that constraint `i` gives for a reading.
pub open spec fn event_at(
    s: Set<usize>,
    cs: Seq<Constraint>,
    rs: Seq<LimitReading>,
    sensor: i64,
    vtype: Seq<char>,
    name: Seq<char>,
    time: Seq<char>,
    i: int,
) -> Seq<(usize, NotificationKind, Seq<char>)> {
    if applies(cs[i], sensor, vtype) && !s.contains(i as usize) && raises(cs[i], rs[i]) {
        seq![(i as usize, NotificationKind::Alert, alert_text(name, vtype, cs[i], rs[i], time))]
    } else if applies(cs[i], sensor, vtype) && s.contains(i as usize) && clears(cs[i], rs[i]) {
        seq![
            (i as usize, NotificationKind::AllClear, all_clear_text(name, vtype, cs[i], rs[i], time)),
        ]
    } else {
        seq![]
    }
}

/// The notifications of the constraints below `n`, in the order of the
/// constraints.
pub open spec fn events_upto(
    s: Set<usize>,
    cs: Seq<Constraint>,
    rs: Seq<LimitReading>,
    sensor: i64,
    vtype: Seq<char>,
    name: Seq<char>,
    time: Seq<char>,
    n: int,
) -> Seq<(usize, NotificationKind, Seq<char>)>
    decreases n,
{
    if n <= 0 {
        seq![]
    } else {
        events_upto(s, cs, rs, sensor, vtype, name, time, n - 1) + event_at(
            s,
            cs,
            rs,
            sensor,
            vtype,
            name,
            time,
            n - 1,
        )
    }
}

/// A notification as plain values.
pub open spec fn notification_view(n: Notification) -> (usize, NotificationKind, Seq<char>) {
    (n.index, n.kind, n.message@)
}

fn is_single(s: &String, c: char) -> (r: bool)
    ensures
        r == (s@ == seq![c]),
{
    let t = s.as_str();
    if t.unicode_len() == 1 {
        let d = t.get_char(0);
        assert(d == c ==> t@ =~= seq![c]);
        d == c
    } else {
        false
    }
}

fn alert_message(name: &String, vtype: &String, above: bool, r: &LimitReading, time: &String) -> (m:
    String)
    ensures
        m@ == name@ + ": "@ + vtype@ + " is "@ + (if above {
            "over"@
        } else {
            "below"@
        }) + " limit of "@ + r.shown_limit@ + " ("@ + time@ + ")"@,
{
    let mut m = name.clone();
    m.append(": ");
    m.append(vtype.as_str());
    m.append(" is ");
    if above {
        m.append("over");
    } else {
        m.append("below");
    }
    m.append(" limit of ");
    m.append(r.shown_limit.as_str());
    m.append(" (");
    m.append(time.as_str());
    m.append(")");
    m
}

fn all_clear_message(name: &String, vtype: &String, above: bool, r: &LimitReading, time: &String) -> (m:
    String)
    ensures
        m@ == name@ + " all clear: "@ + vtype@ + " is "@ + (if above {
            "below"@
        } else {
            "over"@
        }) + " limit of "@ + r.shown_limit@ + " again ("@ + time@ + ")"@,
{
    let mut m = name.clone();
    m.append(" all clear: ");
    m.append(vtype.as_str());
    m.append(" is ");
    if above {
        m.append("below");
    } else {
        m.append("over");
    }
    m.append(" limit of ");
    m.append(r.shown_limit.as_str());
    m.append(" again (");
    m.append(time.as_str());
    m.append(")");
    m
}

/// Takes a reading of kind `vtype` from `sensor` through the constraints:
/// updates the set of notified constraints and returns the notifications to
/// send, with `time` in their text. `readings[i]` says how the reading stands
/// to the limit of `constraints[i]`, with consistent flags. The sensor's name
/// comes from the sensor map, which must know the sensor when a constraint
/// watches it.
pub fn check_notification(
    notified: &mut HashSet<usize>,
    constraints: &Vec<Constraint>,
    readings: &Vec<LimitReading>,
    sensor_map: &SensorMap,
    sensor: i64,
    vtype: &String,
    time: &String,
) -> (sent: Vec<Notification>)
    requires
        readings@.len() == constraints@.len(),
        forall|i: int| 0 <= i < readings@.len() ==> reading_consistent(#[trigger] readings@[i]),
        (exists|i: int| 0 <= i < constraints@.len() && applies(#[trigger] constraints@[i], sensor, vtype@))
            ==> sensor_map@.contains_key(decimal(sensor as int)),
    ensures
        final(notified)@ == notified_after(old(notified)@, constraints@, readings@, sensor, vtype@),
        sent@.map_values(|n: Notification| notification_view(n)) == events_upto(
            old(notified)@,
            constraints@,
            readings@,
            sensor,
            vtype@,
            sensor_map@[decimal(sensor as int)],
            time@,
            constraints@.len() as int,
        ),
{
    let ghost s0 = notified@;
    let ghost cs = constraints@;
    let ghost rs = readings@;
    let ghost name_v = sensor_map@[decimal(sensor as int)];
    let mut sent: Vec<Notification> = Vec::new();
    let mut i: usize = 0;
    while i < constraints.len()
        invariant
            i <= cs.len(),
            cs == constraints@,
            rs == readings@,
            rs.len() == cs.len(),
            name_v == sensor_map@[decimal(sensor as int)],
            (exists|j: int| 0 <= j < cs.len() && applies(#[trigger] cs[j], sensor, vtype@))
                ==> sensor_map@.contains_key(decimal(sensor as int)),
            notified@ == notified_upto(s0, cs, rs, sensor, vtype@, i as int),
            sent@.map_values(|n: Notification| notification_view(n)) == events_upto(
                s0,
                cs,
                rs,
                sensor,
                vtype@,
                name_v,
                time@,
                i as int,
            ),
        decreases cs.len() - i,
    {
        let c = &constraints[i];
        let r = &readings[i];
        let ghost before = notified@;
        let ghost sent_before = sent@;
        if c.sensor == sensor && c.vtype == *vtype {
            assert(applies(cs[i as int], sensor, vtype@));
            let name = sensor_map.sensor_name(sensor).unwrap();
            let above = is_single(&c.comparison, '+');
            let below = is_single(&c.comparison, '-');
            if !notified.contains(&i) {
                if (above && r.above) || (below && r.below) {
                    let message = alert_message(name, vtype, above, r, time);
                    notified.insert(i);
                    sent.push(Notification { index: i, kind: NotificationKind::Alert, message });
                }
            } else if (above && r.below_margin) || (below && r.above_margin) {
                let message = all_clear_message(name, vtype, above, r, time);
                notified.remove(&i);
                sent.push(Notification { index: i, kind: NotificationKind::AllClear, message });
            }
        }
        proof {
            assert(before.contains(i) == s0.contains(i));
            assert(notified@ =~= notified_upto(s0, cs, rs, sensor, vtype@, i + 1));
            let ev = event_at(s0, cs, rs, sensor, vtype@, name_v, time@, i as int);
            assert(sent@.map_values(|n: Notification| notification_view(n)) =~= sent_before.map_values(
                |n: Notification| notification_view(n),
            ) + ev);
        }
        i = i + 1;
    }
    sent
}

proof fn lemma_events(
    s: Set<usize>,
    cs: Seq<Constraint>,
    rs: Seq<LimitReading>,
    sensor: i64,
    vtype: Seq<char>,
    name: Seq<char>,
    time: Seq<char>,
    n: int,
)
    requires
        0 <= n <= cs.len(),
        cs.len() <= usize::MAX,
    ensures
        forall|t: int|
            0 <= t < events_upto(s, cs, rs, sensor, vtype, name, time, n).len() ==> {
                let e = #[trigger] events_upto(s, cs, rs, sensor, vtype, name, time, n)[t];
                &&& e.0 < n
                &&& event_at(s, cs, rs, sensor, vtype, name, time, e.0 as int).len() == 1
                &&& e == event_at(s, cs, rs, sensor, vtype, name, time, e.0 as int)[0]
            },
        forall|j: int|
            0 <= j < n && #[trigger] event_at(s, cs, rs, sensor, vtype, name, time, j).len() == 1
                ==> exists|t: int|
                0 <= t < events_upto(s, cs, rs, sensor, vtype, name, time, n).len()
                    && events_upto(s, cs, rs, sensor, vtype, name, time, n)[t] == event_at(
                    s,
                    cs,
                    rs,
                    sensor,
                    vtype,
                    name,
                    time,
                    j,
                )[0],
    decreases n,
{
    if n > 0 {
        lemma_events(s, cs, rs, sensor, vtype, name, time, n - 1);
        let prev = events_upto(s, cs, rs, sensor, vtype, name, time, n - 1);
        let ev = event_at(s, cs, rs, sensor, vtype, name, time, n - 1);
        let all = events_upto(s, cs, rs, sensor, vtype, name, time, n);
        assert(all == prev + ev);
        assert forall|t: int| 0 <= t < all.len() implies {
            let e = #[trigger] all[t];
            &&& e.0 < n
            &&& event_at(s, cs, rs, sensor, vtype, name, time, e.0 as int).len() == 1
            &&& e == event_at(s, cs, rs, sensor, vtype, name, time, e.0 as int)[0]
        } by {
            if t < prev.len() {
                assert(all[t] == prev[t]);
            } else {
                assert(all[t] == ev[t - prev.len()]);
            }
        }
        assert forall|j: int|
            0 <= j < n && #[trigger] event_at(s, cs, rs, sensor, vtype, name, time, j).len() == 1
            implies exists|t: int| 0 <= t < all.len() && all[t] == event_at(
            s,
            cs,
            rs,
            sensor,
            vtype,
            name,
            time,
            j,
        )[0] by {
            if j < n - 1 {
                let t = choose|t: int| 0 <= t < prev.len() && prev[t] == event_at(
                    s,
                    cs,
                    rs,
                    sensor,
                    vtype,
                    name,
                    time,
                    j,
                )[0];
                assert(all[t] == prev[t]);
            } else {
                assert(all[prev.len() as int] == ev[0]);
            }
        }
    }
}

/// The form body of a Pushover message.
pub open spec fn pushover_form_text(token: Seq<char>, user: Seq<char>, message: Seq<char>) -> Seq<
    char,
> {
    "token="@ + token + "&user="@ + user + "&message="@ + message
}

/// The Pushover form carries the application token, the user key and the
/// message, in that order, as "token=<token>&user=<user>&message=<message>".
pub proof fn law_pushover_form(token: Seq<char>, user: Seq<char>, message: Seq<char>)
    ensures
        pushover_form_text(token, user, message) == "token="@ + token + "&user="@ + user
            + "&message="@ + message,
{
}

/// The form body that sends `message` through Pushover with the
/// application token and user key of the settings.
pub fn pushover_form(token: &String, user: &String, message: &String) -> (r: String)
    ensures
        r@ == pushover_form_text(token@, user@, message@),
{
    let mut r = String::from_str("token=");
    r.append(token.as_str());
    r.append("&user=");
    r.append(user.as_str());
    r.append("&message=");
    r.append(message.as_str());
    r
}

/// Notifications follow the changes of state exactly: a reading sends an
/// alert for a constraint just when it makes the constraint notified, and an
/// all-clear just when it makes it quiet again; every notification that goes
/// out is one of these.
pub proof fn law_notifications_follow_state(
    s: Set<usize>,
    cs: Seq<Constraint>,
    rs: Seq<LimitReading>,
    sensor: i64,
    vtype: Seq<char>,
    name: Seq<char>,
    time: Seq<char>,
)
    requires
        rs.len() == cs.len(),
        cs.len() <= usize::MAX,
    ensures
        ({
            let after = notified_after(s, cs, rs, sensor, vtype);
            let sent = events_upto(s, cs, rs, sensor, vtype, name, time, cs.len() as int);
            &&& forall|i: usize|
                (exists|t: int|
                    0 <= t < sent.len() && #[trigger] sent[t].0 == i && sent[t].1
                        == NotificationKind::Alert) <==> (!s.contains(i) && after.contains(i))
            &&& forall|i: usize|
                (exists|t: int|
                    0 <= t < sent.len() && #[trigger] sent[t].0 == i && sent[t].1
                        == NotificationKind::AllClear) <==> (s.contains(i) && !after.contains(i))
        }),
{
    let n = cs.len() as int;
    let after = notified_after(s, cs, rs, sensor, vtype);
    let sent = events_upto(s, cs, rs, sensor, vtype, name, time, n);
    lemma_events(s, cs, rs, sensor, vtype, name, time, n);
    assert forall|i: usize|
        (exists|t: int|
            0 <= t < sent.len() && #[trigger] sent[t].0 == i && sent[t].1
                == NotificationKind::Alert) <==> (!s.contains(i) && after.contains(i)) by {
        if !s.contains(i) && after.contains(i) {
            assert(event_at(s, cs, rs, sensor, vtype, name, time, i as int).len() == 1);
            let t = choose|t: int| 0 <= t < sent.len() && sent[t] == event_at(
                s,
                cs,
                rs,
                sensor,
                vtype,
                name,
                time,
                i as int,
            )[0];
            assert(sent[t].0 == i);
        }
    }
    assert forall|i: usize|
        (exists|t: int|
            0 <= t < sent.len() && #[trigger] sent[t].0 == i && sent[t].1
                == NotificationKind::AllClear) <==> (s.contains(i) && !after.contains(i)) by {
        if s.contains(i) && !after.contains(i) {
            assert(event_at(s, cs, rs, sensor, vtype, name, time, i as int).len() == 1);
            let t = choose|t: int| 0 <= t < sent.len() && sent[t] == event_at(
                s,
                cs,
                rs,
                sensor,
                vtype,
                name,
                time,
                i as int,
            )[0];
            assert(sent[t].0 == i);
        }
    }
}

/// An alert is not repeated: after a reading has sent an alert for a
/// constraint, the next reading sends no alert for it, whatever it is; only
/// an all-clear can come first.
pub proof fn law_alert_not_repeated(
    s: Set<usize>,
    cs: Seq<Constraint>,
    rs1: Seq<LimitReading>,
    sensor1: i64,
    vtype1: Seq<char>,
    rs2: Seq<LimitReading>,
    sensor2: i64,
    vtype2: Seq<char>,
    name1: Seq<char>,
    name2: Seq<char>,
    time1: Seq<char>,
    time2: Seq<char>,
    i: usize,
)
    requires
        rs1.len() == cs.len(),
        rs2.len() == cs.len(),
        cs.len() <= usize::MAX,
        exists|t: int|
            0 <= t < events_upto(s, cs, rs1, sensor1, vtype1, name1, time1, cs.len() as int).len()
                && #[trigger] events_upto(
                s,
                cs,
                rs1,
                sensor1,
                vtype1,
                name1,
                time1,
                cs.len() as int,
            )[t].0 == i && events_upto(s, cs, rs1, sensor1, vtype1, name1, time1, cs.len() as int)[t].1
                == NotificationKind::Alert,
    ensures
        ({
            let s1 = notified_after(s, cs, rs1, sensor1, vtype1);
            let sent2 = events_upto(s1, cs, rs2, sensor2, vtype2, name2, time2, cs.len() as int);
            forall|t: int|
                0 <= t < sent2.len() && #[trigger] sent2[t].0 == i ==> sent2[t].1
                    != NotificationKind::Alert
        }),
{
    law_notifications_follow_state(s, cs, rs1, sensor1, vtype1, name1, time1);
    let s1 = notified_after(s, cs, rs1, sensor1, vtype1);
    assert(s1.contains(i));
    law_notifications_follow_state(s1, cs, rs2, sensor2, vtype2, name2, time2);
}

/// A reading leaves alone the constraints that do not watch it: their state
/// does not change and no notification goes out for them.
pub proof fn law_other_constraints_untouched(
    s: Set<usize>,
    cs: Seq<Constraint>,
    rs: Seq<LimitReading>,
    sensor: i64,
    vtype: Seq<char>,
    name: Seq<char>,
    time: Seq<char>,
    i: usize,
)
    requires
        rs.len() == cs.len(),
        cs.len() <= usize::MAX,
        !(i < cs.len() && cs[i as int].sensor == sensor && cs[i as int].vtype@ == vtype),
    ensures
        notified_after(s, cs, rs, sensor, vtype).contains(i) == s.contains(i),
        forall|t: int|
            0 <= t < events_upto(s, cs, rs, sensor, vtype, name, time, cs.len() as int).len()
                ==> #[trigger] events_upto(
                s,
                cs,
                rs,
                sensor,
                vtype,
                name,
                time,
                cs.len() as int,
            )[t].0 != i,
{
    lemma_events(s, cs, rs, sensor, vtype, name, time, cs.len() as int);
}

/// Only constraints that name a side of their limit ("+" or "-") ever become
/// notified: when every notified constraint is such a constraint, it stays
/// so after any reading.
pub proof fn law_only_configured_constraints_notified(
    s: Set<usize>,
    cs: Seq<Constraint>,
    rs: Seq<LimitReading>,
    sensor: i64,
    vtype: Seq<char>,
)
    requires
        rs.len() == cs.len(),
        forall|i: usize|
            #[trigger] s.contains(i) ==> i < cs.len() && (alerts_above(cs[i as int]) || alerts_below(
                cs[i as int],
            )),
    ensures
        forall|i: usize| #[trigger]
            notified_after(s, cs, rs, sensor, vtype).contains(i) ==> i < cs.len() && (alerts_above(
                cs[i as int],
            ) || alerts_below(cs[i as int])),
{
}

/// A reading that moves no watching constraint across its limit, nor a
/// notified one back past the margin, changes nothing and sends nothing: the
/// band between the limit and the margin holds the state.
pub proof fn law_quiet_reading_changes_nothing(
    s: Set<usize>,
    cs: Seq<Constraint>,
    rs: Seq<LimitReading>,
    sensor: i64,
    vtype: Seq<char>,
    name: Seq<char>,
    time: Seq<char>,
)
    requires
        rs.len() == cs.len(),
        cs.len() <= usize::MAX,
        forall|i: int|
            0 <= i < cs.len() && applies(#[trigger] cs[i], sensor, vtype) ==> if s.contains(
                i as usize,
            ) {
                !clears(cs[i], rs[i])
            } else {
                !raises(cs[i], rs[i])
            },
    ensures
        notified_after(s, cs, rs, sensor, vtype) == s,
        events_upto(s, cs, rs, sensor, vtype, name, time, cs.len() as int).len() == 0,
{
    let sent = events_upto(s, cs, rs, sensor, vtype, name, time, cs.len() as int);
    lemma_events(s, cs, rs, sensor, vtype, name, time, cs.len() as int);
    if sent.len() > 0 {
        let e = sent[0];
        assert(event_at(s, cs, rs, sensor, vtype, name, time, e.0 as int).len() == 1);
    }
    assert(notified_after(s, cs, rs, sensor, vtype) =~= s);
}

/// The same reading twice changes nothing the second time: after a reading
/// has been taken through the constraints, taking it again sends nothing and
/// leaves the notified constraints as they are.
pub proof fn law_repeated_reading_changes_nothing(
    s: Set<usize>,
    cs: Seq<Constraint>,
    rs: Seq<LimitReading>,
    sensor: i64,
    vtype: Seq<char>,
    name: Seq<char>,
    time: Seq<char>,
)
    requires
        rs.len() == cs.len(),
        cs.len() <= usize::MAX,
        forall|i: int| 0 <= i < rs.len() ==> reading_consistent(#[trigger] rs[i]),
    ensures
        ({
            let s1 = notified_after(s, cs, rs, sensor, vtype);
            &&& notified_after(s1, cs, rs, sensor, vtype) == s1
            &&& events_upto(s1, cs, rs, sensor, vtype, name, time, cs.len() as int).len() == 0
        }),
{
    let s1 = notified_after(s, cs, rs, sensor, vtype);
    assert forall|i: int|
        0 <= i < cs.len() && applies(#[trigger] cs[i], sensor, vtype) implies if s1.contains(
            i as usize,
        ) {
            !clears(cs[i], rs[i])
        } else {
            !raises(cs[i], rs[i])
        } by {
        assert(reading_consistent(rs[i]));
        assert(s1.contains(i as usize) == stays_notified(s.contains(i as usize), cs, rs, sensor, vtype, i));
        if alerts_above(cs[i]) && alerts_below(cs[i]) {
            assert(seq!['+'][0] != seq!['-'][0]);
        }
    }
    law_quiet_reading_changes_nothing(s1, cs, rs, sensor, vtype, name, time);
}

/// The kinds of the notifications about constraint `i`, in order.
pub open spec fn index_kinds(ev: Seq<(usize, NotificationKind, Seq<char>)>, i: usize) -> Seq<
    NotificationKind,
>
    decreases ev.len(),
{
    if ev.len() == 0 {
        seq![]
    } else {
        index_kinds(ev.drop_last(), i) + if ev.last().0 == i {
            seq![ev.last().1]
        } else {
            seq![]
        }
    }
}

/// The notified constraints after the first `k` of a run of readings. A
/// reading is how it stands to each limit, its sensor and kind, and the
/// sensor name and time its messages carry.
pub open spec fn notified_after_run(
    s: Set<usize>,
    cs: Seq<Constraint>,
    run: Seq<(Seq<LimitReading>, i64, Seq<char>, Seq<char>, Seq<char>)>,
    k: int,
) -> Set<usize>
    decreases k,
{
    if k <= 0 {
        s
    } else {
        let r = run[k - 1];
        notified_after(notified_after_run(s, cs, run, k - 1), cs, r.0, r.1, r.2)
    }
}

/// The kinds of the notifications about constraint `i` that the first `k`
/// readings of a run send, in order.
pub open spec fn kinds_over_run(
    s: Set<usize>,
    cs: Seq<Constraint>,
    run: Seq<(Seq<LimitReading>, i64, Seq<char>, Seq<char>, Seq<char>)>,
    i: usize,
    k: int,
) -> Seq<NotificationKind>
    decreases k,
{
    if k <= 0 {
        seq![]
    } else {
        let r = run[k - 1];
        kinds_over_run(s, cs, run, i, k - 1) + index_kinds(
            events_upto(
                notified_after_run(s, cs, run, k - 1),
                cs,
                r.0,
                r.1,
                r.2,
                r.3,
                r.4,
                cs.len() as int,
            ),
            i,
        )
    }
}

proof fn lemma_index_kinds_add(
    a: Seq<(usize, NotificationKind, Seq<char>)>,
    b: Seq<(usize, NotificationKind, Seq<char>)>,
    i: usize,
)
    ensures
        index_kinds(a + b, i) == index_kinds(a, i) + index_kinds(b, i),
    decreases b.len(),
{
    if b.len() == 0 {
        assert(a + b =~= a);
        assert(index_kinds(a, i) + index_kinds(b, i) =~= index_kinds(a, i));
    } else {
        assert((a + b).drop_last() =~= a + b.drop_last());
        lemma_index_kinds_add(a, b.drop_last(), i);
        assert((a + b).last() == b.last());
        assert(index_kinds(a + b, i) =~= index_kinds(a, i) + index_kinds(b, i));
    }
}

proof fn lemma_index_kinds_upto(
    s: Set<usize>,
    cs: Seq<Constraint>,
    rs: Seq<LimitReading>,
    sensor: i64,
    vtype: Seq<char>,
    name: Seq<char>,
    time: Seq<char>,
    i: usize,
    n: int,
)
    requires
        0 <= n <= cs.len(),
        cs.len() <= usize::MAX,
    ensures
        index_kinds(events_upto(s, cs, rs, sensor, vtype, name, time, n), i) == if i < n {
            index_kinds(event_at(s, cs, rs, sensor, vtype, name, time, i as int), i)
        } else {
            seq![]
        },
    decreases n,
{
    if n > 0 {
        lemma_index_kinds_upto(s, cs, rs, sensor, vtype, name, time, i, n - 1);
        let prev = events_upto(s, cs, rs, sensor, vtype, name, time, n - 1);
        let ev = event_at(s, cs, rs, sensor, vtype, name, time, n - 1);
        lemma_index_kinds_add(prev, ev, i);
        if ev.len() == 1 {
            assert(ev.drop_last() =~= Seq::<(usize, NotificationKind, Seq<char>)>::empty());
        }
        if i != n - 1 {
            if ev.len() == 1 {
                assert(ev.last().0 == (n - 1) as usize);
                assert(index_kinds(ev.drop_last(), i) =~= Seq::<NotificationKind>::empty());
            }
            assert(index_kinds(ev, i) =~= Seq::<NotificationKind>::empty());
        } else {
            assert(index_kinds(prev, i) =~= Seq::<NotificationKind>::empty());
        }
        assert(index_kinds(events_upto(s, cs, rs, sensor, vtype, name, time, n), i) =~= index_kinds(prev, i)
            + index_kinds(ev, i));
    }
}

proof fn lemma_index_kinds_step(
    s: Set<usize>,
    cs: Seq<Constraint>,
    rs: Seq<LimitReading>,
    sensor: i64,
    vtype: Seq<char>,
    name: Seq<char>,
    time: Seq<char>,
    i: usize,
)
    requires
        cs.len() <= usize::MAX,
    ensures
        ({
            let after = notified_after(s, cs, rs, sensor, vtype);
            index_kinds(events_upto(s, cs, rs, sensor, vtype, name, time, cs.len() as int), i) == if !s.contains(i)
                && after.contains(i) {
                seq![NotificationKind::Alert]
            } else if s.contains(i) && !after.contains(i) {
                seq![NotificationKind::AllClear]
            } else {
                seq![]
            }
        }),
{
    lemma_index_kinds_upto(s, cs, rs, sensor, vtype, name, time, i, cs.len() as int);
    let after = notified_after(s, cs, rs, sensor, vtype);
    let ev = event_at(s, cs, rs, sensor, vtype, name, time, i as int);
    if i < cs.len() {
        assert(after.contains(i) == stays_notified(s.contains(i), cs, rs, sensor, vtype, i as int));
        if ev.len() == 1 {
            assert(ev.drop_last() =~= Seq::<(usize, NotificationKind, Seq<char>)>::empty());
            assert(index_kinds(ev.drop_last(), i) =~= Seq::<NotificationKind>::empty());
            assert(index_kinds(ev, i) =~= seq![ev[0].1]);
        } else {
            assert(index_kinds(ev, i) =~= Seq::<NotificationKind>::empty());
        }
    } else {
        assert(after.contains(i) == s.contains(i));
    }
}

proof fn lemma_run(
    s: Set<usize>,
    cs: Seq<Constraint>,
    run: Seq<(Seq<LimitReading>, i64, Seq<char>, Seq<char>, Seq<char>)>,
    i: usize,
    k: int,
)
    requires
        cs.len() <= usize::MAX,
        0 <= k <= run.len(),
    ensures
        ({
            let ks = kinds_over_run(s, cs, run, i, k);
            &&& forall|j: int|
                0 <= j < ks.len() ==> #[trigger] ks[j] == if (j % 2 == 0) == !s.contains(i) {
                    NotificationKind::Alert
                } else {
                    NotificationKind::AllClear
                }
            &&& notified_after_run(s, cs, run, k).contains(i) == (s.contains(i) != (ks.len() % 2
                == 1))
        }),
    decreases k,
{
    if k > 0 {
        lemma_run(s, cs, run, i, k - 1);
        let p = notified_after_run(s, cs, run, k - 1);
        let r = run[k - 1];
        lemma_index_kinds_step(p, cs, r.0, r.1, r.2, r.3, r.4, i);
        let prev = kinds_over_run(s, cs, run, i, k - 1);
        let ks = kinds_over_run(s, cs, run, i, k);
        assert forall|j: int| 0 <= j < ks.len() implies #[trigger] ks[j] == if (j % 2 == 0)
            == !s.contains(i) {
            NotificationKind::Alert
        } else {
            NotificationKind::AllClear
        } by {
            if j < prev.len() {
                assert(ks[j] == prev[j]);
            }
        }
    }
}

/// Over any run of readings, the notifications about one constraint
/// alternate: an alert, an all-clear, an alert, and so on, the first one an
/// alert when the constraint started quiet; never two alerts without an
/// all-clear between them. The constraint is notified at the end exactly when
/// an odd number of notifications turned it over.
pub proof fn law_notifications_alternate(
    s: Set<usize>,
    cs: Seq<Constraint>,
    run: Seq<(Seq<LimitReading>, i64, Seq<char>, Seq<char>, Seq<char>)>,
    i: usize,
)
    requires
        cs.len() <= usize::MAX,
    ensures
        ({
            let ks = kinds_over_run(s, cs, run, i, run.len() as int);
            &&& forall|j: int|
                0 <= j < ks.len() ==> #[trigger] ks[j] == if (j % 2 == 0) == !s.contains(i) {
                    NotificationKind::Alert
                } else {
                    NotificationKind::AllClear
                }
            &&& notified_after_run(s, cs, run, run.len() as int).contains(i) == (s.contains(i)
                != (ks.len() % 2 == 1))
        }),
{
    lemma_run(s, cs, run, i, run.len() as int);
}

proof fn lemma_events_increasing(
    s: Set<usize>,
    cs: Seq<Constraint>,
    rs: Seq<LimitReading>,
    sensor: i64,
    vtype: Seq<char>,
    name: Seq<char>,
    time: Seq<char>,
    n: int,
)
    requires
        0 <= n <= cs.len(),
        cs.len() <= usize::MAX,
    ensures
        forall|a: int, b: int|
            0 <= a < b < events_upto(s, cs, rs, sensor, vtype, name, time, n).len() ==> (
            #[trigger] events_upto(s, cs, rs, sensor, vtype, name, time, n)[a]).0 < (
            #[trigger] events_upto(s, cs, rs, sensor, vtype, name, time, n)[b]).0,
    decreases n,
{
    if n > 0 {
        lemma_events_increasing(s, cs, rs, sensor, vtype, name, time, n - 1);
        lemma_events(s, cs, rs, sensor, vtype, name, time, n - 1);
        let prev = events_upto(s, cs, rs, sensor, vtype, name, time, n - 1);
        let ev = event_at(s, cs, rs, sensor, vtype, name, time, n - 1);
        let all = events_upto(s, cs, rs, sensor, vtype, name, time, n);
        assert(all == prev + ev);
        assert forall|a: int, b: int| 0 <= a < b < all.len() implies (#[trigger] all[a]).0 < (
        #[trigger] all[b]).0 by {
            if b < prev.len() {
                assert(all[a] == prev[a]);
                assert(all[b] == prev[b]);
            } else {
                assert(all[a] == prev[a]);
                assert(prev[a].0 < n - 1);
                assert(all[b] == ev[b - prev.len()]);
            }
        }
    }
}

/// Which constraints are notified after a reading, said of the constraints'
/// fields and the reading's flags: a constraint of another sensor or another
/// kind of reading keeps its state; one of this sensor and kind, with side
/// "+", becomes notified when the reading is above its limit and, once
/// notified, quiet when the reading is below the limit minus the margin; with
/// side "-" the other way round; with any other side it never turns.
pub proof fn law_notified_state(
    s: Set<usize>,
    cs: Seq<Constraint>,
    rs: Seq<LimitReading>,
    sensor: i64,
    vtype: Seq<char>,
    i: usize,
)
    requires
        rs.len() == cs.len(),
    ensures
        notified_after(s, cs, rs, sensor, vtype).contains(i) == if i < cs.len()
            && cs[i as int].sensor == sensor && cs[i as int].vtype@ == vtype {
            if s.contains(i) {
                !((cs[i as int].comparison@ == seq!['+'] && rs[i as int].below_margin) || (
                cs[i as int].comparison@ == seq!['-'] && rs[i as int].above_margin))
            } else {
                (cs[i as int].comparison@ == seq!['+'] && rs[i as int].above) || (
                cs[i as int].comparison@ == seq!['-'] && rs[i as int].below)
            }
        } else {
            s.contains(i)
        },
{
}

/// What a reading sends, said of the constraints' fields and the reading's
/// flags: at most one notification per constraint, in the order of the
/// constraints, each for a constraint of this sensor and kind of reading. An
/// alert goes only for a quiet constraint whose limit the reading crossed
/// ("+": above it, "-": below it) and reads "<name>: <kind> is over (below)
/// limit of <limit> (<time>)"; an all-clear goes only for a notified one the
/// reading came back from past the margin and reads "<name> all clear: <kind>
/// is below (over) limit of <limit> again (<time>)".
pub proof fn law_notifications_sent(
    s: Set<usize>,
    cs: Seq<Constraint>,
    rs: Seq<LimitReading>,
    sensor: i64,
    vtype: Seq<char>,
    name: Seq<char>,
    time: Seq<char>,
)
    requires
        rs.len() == cs.len(),
        cs.len() <= usize::MAX,
    ensures
        ({
            let sent = events_upto(s, cs, rs, sensor, vtype, name, time, cs.len() as int);
            &&& forall|a: int, b: int|
                0 <= a < b < sent.len() ==> (#[trigger] sent[a]).0 < (#[trigger] sent[b]).0
            &&& forall|t: int|
                0 <= t < sent.len() ==> {
                    let e = #[trigger] sent[t];
                    let c = cs[e.0 as int];
                    let r = rs[e.0 as int];
                    &&& e.0 < cs.len()
                    &&& c.sensor == sensor
                    &&& c.vtype@ == vtype
                    &&& e.1 == NotificationKind::Alert ==> {
                        &&& !s.contains(e.0)
                        &&& (c.comparison@ == seq!['+'] && r.above) || (c.comparison@ == seq!['-']
                            && r.below)
                        &&& e.2 == name + ": "@ + vtype + " is "@ + (if c.comparison@ == seq!['+'] {
                            "over"@
                        } else {
                            "below"@
                        }) + " limit of "@ + r.shown_limit@ + " ("@ + time + ")"@
                    }
                    &&& e.1 == NotificationKind::AllClear ==> {
                        &&& s.contains(e.0)
                        &&& (c.comparison@ == seq!['+'] && r.below_margin) || (c.comparison@
                            == seq!['-'] && r.above_margin)
                        &&& e.2 == name + " all clear: "@ + vtype + " is "@ + (if c.comparison@
                            == seq!['+'] {
                            "below"@
                        } else {
                            "over"@
                        }) + " limit of "@ + r.shown_limit@ + " again ("@ + time + ")"@
                    }
                }
        }),
{
    lemma_events(s, cs, rs, sensor, vtype, name, time, cs.len() as int);
    lemma_events_increasing(s, cs, rs, sensor, vtype, name, time, cs.len() as int);
}

} // verus!
