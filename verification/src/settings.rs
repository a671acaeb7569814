//! The settings file: a YAML document read into the library's settings.
use vstd::prelude::*;
use vstd::string::*;
use crate::notify::Constraint;
use crate::sensors::SensorMap;
use crate::text::{remove_all, without_pattern};
use crate::yaml::{
    as_integer, as_list, as_pairs, as_text, at, get, integer_of, is_number, load_yaml,
    number_text_of, real_text, text_of, yaml_at, yaml_documents, yaml_get, YamlValue,
};

verus! {

/// The settings of the sensor network. Real numbers (the location and the
/// limits of the notification constraints) stand as the text the settings
/// file writes them with.
pub struct Settings {
    pub device: String,
    /// The database URL, without the Python driver suffix "+pymysql".
    pub database: String,
    pub sensor_map: SensorMap,
    pub timezone: String,
    pub darksky_api_key: String,
    pub lat_lon: (String, String),
    pub pa_app_token: String,
    pub pa_user_key: String,
    pub notification_constraints: Vec<Constraint>,
}

/// The map that the entries of the sensor map hash stand for: each key and
/// value read as a string, a later key replacing an earlier one.
pub open spec fn pairs_map(h: Seq<(YamlValue, YamlValue)>) -> Map<Seq<char>, Seq<char>>
    decreases h.len(),
{
    if h.len() == 0 {
        Map::empty()
    } else {
        pairs_map(h.drop_last()).insert(
            as_text(h.last().0).unwrap(),
            as_text(h.last().1).unwrap(),
        )
    }
}

/// A notification constraint written as a list: sensor id, reading kind,
/// limit, side.
pub open spec fn constraint_readable(v: YamlValue) -> bool {
    &&& as_integer(yaml_at(v, 0)) is Some
    &&& as_text(yaml_at(v, 1)) is Some
    &&& is_number(yaml_at(v, 2))
    &&& as_text(yaml_at(v, 3)) is Some
}

/// The constraint that a readable list gives.
pub open spec fn constraint_read_from(c: Constraint, v: YamlValue) -> bool {
    &&& c.sensor == as_integer(yaml_at(v, 0)).unwrap()
    &&& c.vtype@ == as_text(yaml_at(v, 1)).unwrap()
    &&& c.limit@ == real_text(yaml_at(v, 2)).unwrap()
    &&& c.comparison@ == as_text(yaml_at(v, 3)).unwrap()
}

/// Every entry that the settings need is there, of the kind they need.
pub open spec fn settings_readable(doc: YamlValue) -> bool {
    &&& as_text(yaml_get(doc, "device"@)) is Some
    &&& as_text(yaml_get(doc, "database"@)) is Some
    &&& as_text(yaml_get(doc, "timezone"@)) is Some
    &&& as_text(yaml_get(doc, "darksky_api_key"@)) is Some
    &&& as_text(yaml_get(doc, "pa_app_token"@)) is Some
    &&& as_text(yaml_get(doc, "pa_user_key"@)) is Some
    &&& is_number(yaml_at(yaml_get(doc, "lat_lon"@), 0))
    &&& is_number(yaml_at(yaml_get(doc, "lat_lon"@), 1))
    &&& as_pairs(yaml_get(doc, "sensor_map"@)) is Some
    &&& forall|i: int|
        0 <= i < as_pairs(yaml_get(doc, "sensor_map"@)).unwrap().len() ==> {
            &&& as_text(#[trigger] as_pairs(yaml_get(doc, "sensor_map"@)).unwrap()[i].0) is Some
            &&& as_text(as_pairs(yaml_get(doc, "sensor_map"@)).unwrap()[i].1) is Some
        }
    &&& as_list(yaml_get(doc, "notification_constraints"@)) is Some
    &&& forall|i: int|
        0 <= i < as_list(yaml_get(doc, "notification_constraints"@)).unwrap().len()
            ==> constraint_readable(
            #[trigger] as_list(yaml_get(doc, "notification_constraints"@)).unwrap()[i],
        )
}

/// The settings that a readable document gives.
pub open spec fn settings_read_from(s: Settings, doc: YamlValue) -> bool {
    &&& s.device@ == as_text(yaml_get(doc, "device"@)).unwrap()
    &&& s.database@ == without_pattern(
        as_text(yaml_get(doc, "database"@)).unwrap(),
        "+pymysql"@,
    )
    &&& s.timezone@ == as_text(yaml_get(doc, "timezone"@)).unwrap()
    &&& s.darksky_api_key@ == as_text(yaml_get(doc, "darksky_api_key"@)).unwrap()
    &&& s.pa_app_token@ == as_text(yaml_get(doc, "pa_app_token"@)).unwrap()
    &&& s.pa_user_key@ == as_text(yaml_get(doc, "pa_user_key"@)).unwrap()
    &&& s.lat_lon.0@ == real_text(yaml_at(yaml_get(doc, "lat_lon"@), 0)).unwrap()
    &&& s.lat_lon.1@ == real_text(yaml_at(yaml_get(doc, "lat_lon"@), 1)).unwrap()
    &&& s.sensor_map@ == pairs_map(as_pairs(yaml_get(doc, "sensor_map"@)).unwrap())
    &&& s.notification_constraints@.len() == as_list(
        yaml_get(doc, "notification_constraints"@),
    ).unwrap().len()
    &&& forall|i: int|
        0 <= i < s.notification_constraints@.len() ==> constraint_read_from(
            #[trigger] s.notification_constraints@[i],
            as_list(yaml_get(doc, "notification_constraints"@)).unwrap()[i],
        )
}

fn required_text(doc: &YamlValue, key: &str) -> (r: Option<String>)
    ensures
        match r {
            Some(t) => as_text(yaml_get(*doc, key@)) == Some(t@),
            None => as_text(yaml_get(*doc, key@)) is None,
        },
{
    let k = String::from_str(key);
    match text_of(get(doc, &k)) {
        Some(t) => Some(t.clone()),
        None => None,
    }
}

fn read_sensor_map(h: &Vec<(YamlValue, YamlValue)>) -> (r: Option<SensorMap>)
    ensures
        match r {
            Some(m) => (forall|i: int|
                0 <= i < h@.len() ==> {
                    &&& as_text(#[trigger] h@[i].0) is Some
                    &&& as_text(h@[i].1) is Some
                }) && m@ == pairs_map(h@),
            None => !(forall|i: int|
                0 <= i < h@.len() ==> {
                    &&& as_text(#[trigger] h@[i].0) is Some
                    &&& as_text(h@[i].1) is Some
                }),
        },
{
    let mut m = SensorMap::new();
    let mut i: usize = 0;
    while i < h.len()
        invariant
            i <= h@.len(),
            forall|j: int|
                0 <= j < i ==> {
                    &&& as_text(#[trigger] h@[j].0) is Some
                    &&& as_text(h@[j].1) is Some
                },
            m@ == pairs_map(h@.take(i as int)),
        decreases h@.len() - i,
    {
        let key = text_of(Some(&h[i].0));
        let name = text_of(Some(&h[i].1));
        if key.is_none() || name.is_none() {
            return None;
        }
        let key = key.unwrap();
        let name = name.unwrap();
        m.insert(key.clone(), name.clone());
        assert(h@.take(i + 1).drop_last() =~= h@.take(i as int));
        i = i + 1;
    }
    assert(h@.take(h@.len() as int) =~= h@);
    Some(m)
}

fn read_constraints(l: &Vec<YamlValue>) -> (r: Option<Vec<Constraint>>)
    ensures
        match r {
            Some(cs) => (forall|i: int| 0 <= i < l@.len() ==> constraint_readable(#[trigger] l@[i]))
                && cs@.len() == l@.len() && forall|i: int|
                0 <= i < cs@.len() ==> constraint_read_from(#[trigger] cs@[i], l@[i]),
            None => !(forall|i: int| 0 <= i < l@.len() ==> constraint_readable(#[trigger] l@[i])),
        },
{
    let mut cs: Vec<Constraint> = Vec::new();
    let mut i: usize = 0;
    while i < l.len()
        invariant
            i <= l@.len(),
            cs@.len() == i,
            forall|j: int| 0 <= j < i ==> constraint_readable(#[trigger] l@[j]),
            forall|j: int| 0 <= j < i ==> constraint_read_from(#[trigger] cs@[j], l@[j]),
        decreases l@.len() - i,
    {
        let v = &l[i];
        let sensor = integer_of(at(v, 0));
        let vtype = text_of(at(v, 1));
        let limit = number_text_of(at(v, 2));
        let comparison = text_of(at(v, 3));
        if sensor.is_none() || vtype.is_none() || limit.is_none() || comparison.is_none() {
            return None;
        }
        cs.push(
            Constraint {
                sensor: sensor.unwrap(),
                vtype: vtype.unwrap().clone(),
                limit: limit.unwrap().clone(),
                comparison: comparison.unwrap().clone(),
            },
        );
        i = i + 1;
    }
    Some(cs)
}

/// Reads the settings from the first document of the settings file, as the
/// settings loader does; nothing where the loader stops on a missing entry or
/// one of the wrong kind.
pub fn settings_from_document(doc: &YamlValue) -> (r: Option<Settings>)
    ensures
        match r {
            Some(s) => settings_readable(*doc) && settings_read_from(s, *doc),
            None => !settings_readable(*doc),
        },
{
    let lat_lon_key = String::from_str("lat_lon");
    let lat_lon = get(doc, &lat_lon_key);
    let lat = number_text_of(match lat_lon {
        Some(v) => at(v, 0),
        None => None,
    });
    let lon = number_text_of(match lat_lon {
        Some(v) => at(v, 1),
        None => None,
    });
    if lat.is_none() || lon.is_none() {
        return None;
    }
    let map_key = String::from_str("sensor_map");
    let sensor_map = match get(doc, &map_key) {
        Some(YamlValue::Hash(h)) => read_sensor_map(h),
        _ => None,
    };
    let constraints_key = String::from_str("notification_constraints");
    let constraints = match get(doc, &constraints_key) {
        Some(YamlValue::Array(l)) => {
            assert(as_list(yaml_get(*doc, "notification_constraints"@)) == Some(l@));
            let r = read_constraints(l);
            proof {
                if r is None {
                    let i = choose|i: int| 0 <= i < l@.len() && !constraint_readable(l@[i]);
                    assert(!constraint_readable(
                        as_list(yaml_get(*doc, "notification_constraints"@)).unwrap()[i],
                    ));
                }
            }
            r
        },
        _ => None,
    };
    let device = required_text(doc, "device");
    let database = required_text(doc, "database");
    let timezone = required_text(doc, "timezone");
    let darksky_api_key = required_text(doc, "darksky_api_key");
    let pa_app_token = required_text(doc, "pa_app_token");
    let pa_user_key = required_text(doc, "pa_user_key");
    if sensor_map.is_none() || constraints.is_none() || device.is_none() || database.is_none()
        || timezone.is_none() || darksky_api_key.is_none() || pa_app_token.is_none()
        || pa_user_key.is_none() {
        return None;
    }
    let database = remove_all(database.unwrap().as_str(), "+pymysql");
    Some(
        Settings {
            device: device.unwrap(),
            database,
            sensor_map: sensor_map.unwrap(),
            timezone: timezone.unwrap(),
            darksky_api_key: darksky_api_key.unwrap(),
            lat_lon: (lat.unwrap().clone(), lon.unwrap().clone()),
            pa_app_token: pa_app_token.unwrap(),
            pa_user_key: pa_user_key.unwrap(),
            notification_constraints: constraints.unwrap(),
        },
    )
}

/// Reads the settings from the text of the settings file: nothing where the
/// text is not YAML, holds no document, or its first document lacks an entry
/// that the settings need.
pub fn load_settings(text: &str) -> (r: Option<Settings>)
    ensures
        match r {
            Some(s) => {
                &&& yaml_documents(text@) is Some
                &&& yaml_documents(text@).unwrap().len() > 0
                &&& settings_readable(yaml_documents(text@).unwrap()[0])
                &&& settings_read_from(s, yaml_documents(text@).unwrap()[0])
            },
            None => yaml_documents(text@) is None || yaml_documents(text@).unwrap().len() == 0
                || !settings_readable(yaml_documents(text@).unwrap()[0]),
        },
{
    match load_yaml(text) {
        Some(docs) => if docs.len() == 0 {
            None
        } else {
            settings_from_document(&docs[0])
        },
        None => None,
    }
}

} // verus!
