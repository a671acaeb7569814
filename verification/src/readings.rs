//! Sensor log rows laid out for the latest-values table and the history
//! plots. A measurement is of any type `M`: the library moves it, never
//! computes with it.
use vstd::prelude::*;
use crate::clock::{in_chrono_range, zone_known, is_too_old, local_text, local_time_text, shown_time, too_old, zoned_time_text, Stamp};
use crate::decimal::{decimal, i64_to_text};

verus! {

/// A row of the sensor log.
pub struct LogEntry<M> {
    pub sensor_id: i32,
    pub sensor_name: Option<String>,
    pub timestamp: Stamp,
    pub temperature: Option<M>,
    pub humidity: Option<M>,
}

/// A row of the latest-values table.
pub struct LatestValue<M> {
    pub sensor_id: String,
    pub sensor_name: String,
    pub timestamp: String,
    pub temperature: M,
    pub humidity: M,
    pub too_old: bool,
}

/// A point of a sensor's history.
pub struct HistoryPoint<M> {
    pub timestamp: String,
    pub temperature: M,
    pub humidity: M,
}

/// The row has a name and both measurements.
pub open spec fn latest_complete<M>(e: LogEntry<M>) -> bool {
    e.sensor_name is Some && e.temperature is Some && e.humidity is Some
}

/// The table row that a log row gives, its time written as `time`.
pub open spec fn latest_value_of<M>(v: LatestValue<M>, e: LogEntry<M>, now: Stamp, zone: Seq<char>) -> bool {
    &&& v.sensor_id@ == decimal(e.sensor_id as int)
    &&& v.sensor_name@ == e.sensor_name.unwrap()@
    &&& v.timestamp@ == zoned_time_text(e.timestamp.secs, e.timestamp.nanos, zone).unwrap()
    &&& v.temperature == e.temperature.unwrap()
    &&& v.humidity == e.humidity.unwrap()
    &&& v.too_old == is_too_old(now, e.timestamp)
}

/// The latest-values table rows of a sensor's log rows, at `now`, times in
/// the local zone: one row each, in order. Every log row must have a name and
/// both measurements. Nothing where chrono cannot write a time.
pub fn latest_values<M: Copy>(logs: &Vec<LogEntry<M>>, now: Stamp, zone: &str) -> (r: Option<
    Vec<LatestValue<M>>,
>)
    requires
        forall|i: int| 0 <= i < logs@.len() ==> latest_complete(#[trigger] logs@[i]),
    ensures
        match r {
            Some(v) => v@.len() == logs@.len() && forall|i: int|
                0 <= i < v@.len() ==> latest_value_of(#[trigger] v@[i], logs@[i], now, zone@),
            None => exists|i: int|
                0 <= i < logs@.len() && (zoned_time_text(
                    #[trigger] logs@[i].timestamp.secs,
                    logs@[i].timestamp.nanos,
                    zone@,
                ) is None),
        },
        zone_known(zone@) && (forall|i: int|
            0 <= i < logs@.len() ==> in_chrono_range(
                #[trigger] logs@[i].timestamp.secs,
                logs@[i].timestamp.nanos,
            )) ==> r is Some,
{
    let mut v: Vec<LatestValue<M>> = Vec::new();
    let mut i: usize = 0;
    while i < logs.len()
        invariant
            i <= logs@.len(),
            v@.len() == i,
            forall|j: int| 0 <= j < logs@.len() ==> latest_complete(#[trigger] logs@[j]),
            forall|j: int| 0 <= j < i ==> latest_value_of(#[trigger] v@[j], logs@[j], now, zone@),
        decreases logs@.len() - i,
    {
        let e = &logs[i];
        let time = match shown_time(e.timestamp, zone) {
            Some(t) => t,
            None => {
                assert(zoned_time_text(logs@[i as int].timestamp.secs, logs@[i as int].timestamp.nanos, zone@) is None);
                assert(!(zone_known(zone@) && in_chrono_range(
                    logs@[i as int].timestamp.secs,
                    logs@[i as int].timestamp.nanos,
                )));
                return None;
            },
        };
        let name = match &e.sensor_name {
            Some(n) => n.clone(),
            None => {
                assert(latest_complete(logs@[i as int]));
                return None;
            },
        };
        v.push(
            LatestValue {
                sensor_id: i64_to_text(e.sensor_id as i64),
                sensor_name: name,
                timestamp: time,
                temperature: e.temperature.unwrap(),
                humidity: e.humidity.unwrap(),
                too_old: too_old(now, e.timestamp),
            },
        );
        i = i + 1;
    }
    Some(v)
}

/// The row has both measurements.
pub open spec fn history_complete<M>(e: LogEntry<M>) -> bool {
    e.temperature is Some && e.humidity is Some
}

/// The history of a sensor's log rows: the rows with both measurements, in
/// order, their times as local date and time.
pub open spec fn history_of<M>(logs: Seq<LogEntry<M>>, zone: Seq<char>) -> Seq<(Seq<char>, M, M)>
    decreases logs.len(),
{
    if logs.len() == 0 {
        seq![]
    } else {
        let e = logs.last();
        history_of(logs.drop_last(), zone) + if history_complete(e) {
            seq![
                (
                    local_time_text(e.timestamp.secs, e.timestamp.nanos, zone).unwrap(),
                    e.temperature.unwrap(),
                    e.humidity.unwrap(),
                ),
            ]
        } else {
            seq![]
        }
    }
}

/// A history point as plain values.
pub open spec fn point_view<M>(p: HistoryPoint<M>) -> (Seq<char>, M, M) {
    (p.timestamp@, p.temperature, p.humidity)
}

/// The history points of a sensor's log rows, times in the local zone: rows
/// without both measurements are skipped. Nothing where chrono cannot write
/// the time of a row that is kept.
pub fn history_points<M: Copy>(logs: &Vec<LogEntry<M>>, zone: &str) -> (r: Option<
    Vec<HistoryPoint<M>>,
>)
    ensures
        match r {
            Some(v) => v@.map_values(|p: HistoryPoint<M>| point_view(p)) == history_of(logs@, zone@),
            None => exists|i: int|
                0 <= i < logs@.len() && history_complete(#[trigger] logs@[i]) && local_time_text(
                    logs@[i].timestamp.secs,
                    logs@[i].timestamp.nanos,
                    zone@,
                ) is None,
        },
{
    let mut v: Vec<HistoryPoint<M>> = Vec::new();
    let mut i: usize = 0;
    while i < logs.len()
        invariant
            i <= logs@.len(),
            v@.map_values(|p: HistoryPoint<M>| point_view(p)) == history_of(
                logs@.take(i as int),
                zone@,
            ),
        decreases logs@.len() - i,
    {
        let e = &logs[i];
        let ghost before = v@;
        assert(logs@.take(i + 1).drop_last() =~= logs@.take(i as int));
        assert(logs@.take(i + 1).last() == logs@[i as int]);
        match (e.temperature, e.humidity) {
            (Some(t), Some(h)) => {
                let time = match local_text(e.timestamp.secs, e.timestamp.nanos, zone) {
                    Some(x) => x,
                    None => {
                        assert(history_complete(logs@[i as int]));
                        return None;
                    },
                };
                v.push(HistoryPoint { timestamp: time, temperature: t, humidity: h });
                assert(v@.map_values(|p: HistoryPoint<M>| point_view(p)) =~= before.map_values(
                    |p: HistoryPoint<M>| point_view(p),
                ).push(point_view(v@[before.len() as int])));
            },
            _ => {},
        }
        assert(v@.map_values(|p: HistoryPoint<M>| point_view(p)) =~= history_of(
            logs@.take(i + 1),
            zone@,
        ));
        i = i + 1;
    }
    assert(logs@.take(logs@.len() as int) =~= logs@);
    Some(v)
}

/// The rows that have both measurements.
pub open spec fn complete_rows<M>() -> spec_fn(LogEntry<M>) -> bool {
    |e: LogEntry<M>| history_complete(e)
}

proof fn lemma_history_of_complete<M>(logs: Seq<LogEntry<M>>, zone: Seq<char>)
    ensures
        history_of(logs, zone) == history_of(logs.filter(complete_rows()), zone),
    decreases logs.len(),
{
    reveal(Seq::filter);
    if logs.len() > 0 {
        lemma_history_of_complete(logs.drop_last(), zone);
        let fp = logs.drop_last().filter(complete_rows());
        if history_complete(logs.last()) {
            let fa = fp.push(logs.last());
            assert(fa.drop_last() =~= fp);
            assert(history_of(logs, zone) =~= history_of(fa, zone));
        } else {
            assert(history_of(logs, zone) =~= history_of(logs.drop_last(), zone));
        }
    }
}

/// Rows without both measurements do not count: two logs whose rows with
/// both measurements are the same, in the same order, give the same history,
/// whatever incomplete rows lie between them.
pub proof fn law_incomplete_rows_ignored<M>(a: Seq<LogEntry<M>>, b: Seq<LogEntry<M>>, zone: Seq<char>)
    requires
        a.filter(complete_rows()) == b.filter(complete_rows()),
    ensures
        history_of(a, zone) == history_of(b, zone),
{
    lemma_history_of_complete(a, zone);
    lemma_history_of_complete(b, zone);
}

/// The rows that have both a temperature and a humidity.
pub open spec fn rows_with_both<M>(logs: Seq<LogEntry<M>>) -> Seq<LogEntry<M>> {
    logs.filter(|e: LogEntry<M>| e.temperature is Some && e.humidity is Some)
}

/// Every row with both measurements gives a point and no other row does:
/// the history has as many points as there are such rows, and its k-th point
/// carries the local time and the measurements of the k-th such row.
pub proof fn law_history_points_are_complete_rows<M>(logs: Seq<LogEntry<M>>, zone: Seq<char>)
    ensures
        history_of(logs, zone).len() == rows_with_both(logs).len(),
        forall|k: int|
            0 <= k < rows_with_both(logs).len() ==> #[trigger] history_of(logs, zone)[k] == (
                local_time_text(
                    rows_with_both(logs)[k].timestamp.secs,
                    rows_with_both(logs)[k].timestamp.nanos,
                    zone,
                ).unwrap(),
                rows_with_both(logs)[k].temperature.unwrap(),
                rows_with_both(logs)[k].humidity.unwrap(),
            ),
    decreases logs.len(),
{
    reveal(Seq::filter);
    if logs.len() > 0 {
        let p = logs.drop_last();
        law_history_points_are_complete_rows(p, zone);
        assert(rows_with_both(logs) == if logs.last().temperature is Some && logs.last().humidity is Some {
            rows_with_both(p).push(logs.last())
        } else {
            rows_with_both(p)
        });
        let h = history_of(logs, zone);
        let hp = history_of(p, zone);
        assert forall|k: int| 0 <= k < rows_with_both(logs).len() implies #[trigger] h[k] == (
            local_time_text(
                rows_with_both(logs)[k].timestamp.secs,
                rows_with_both(logs)[k].timestamp.nanos,
                zone,
            ).unwrap(),
            rows_with_both(logs)[k].temperature.unwrap(),
            rows_with_both(logs)[k].humidity.unwrap(),
        ) by {
            if k < rows_with_both(p).len() {
                assert(h[k] == hp[k]);
                assert(rows_with_both(logs)[k] == rows_with_both(p)[k]);
            }
        }
    }
}

} // verus!
