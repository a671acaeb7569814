//! YAML documents as the settings reader sees them.
use vstd::prelude::*;
use yaml_rust::Yaml;

verus! {

/// A YAML node, variant for variant as yaml-rust reads it. A real number
/// keeps the text it was written with.
pub enum YamlValue {
    Real(String),
    Integer(i64),
    Str(String),
    Boolean(bool),
    Array(Vec<YamlValue>),
    Hash(Vec<(YamlValue, YamlValue)>),
    Alias(usize),
    Null,
    BadValue,
}

/// yaml-rust's `Yaml`, opaque to the library: only the conversion into
/// `YamlValue` reads it.
#[verifier::external_type_specification]
#[verifier::external_body]
pub struct ExYaml(Yaml);

/// The documents that yaml-rust reads from a text; nothing when the text is
/// not YAML.
pub uninterp spec fn yaml_documents(text: Seq<char>) -> Option<Seq<YamlValue>>;

/// Whether yaml-rust's `as_f64` reads a number from the text of a real.
pub uninterp spec fn yaml_real_is_number(text: Seq<char>) -> bool;

/// yaml-rust's node, carried over into the library's type one variant at a
/// time; the conversion half of `load_yaml`.
#[verifier::external_body]
fn tree_of(y: &Yaml) -> YamlValue {
    match y {
        Yaml::Real(s) => YamlValue::Real(s.clone()),
        Yaml::Integer(n) => YamlValue::Integer(*n),
        Yaml::String(s) => YamlValue::Str(s.clone()),
        Yaml::Boolean(b) => YamlValue::Boolean(*b),
        Yaml::Array(a) => YamlValue::Array(a.iter().map(tree_of).collect()),
        Yaml::Hash(h) => YamlValue::Hash(h.iter().map(|(k, v)| (tree_of(k), tree_of(v))).collect()),
        Yaml::Alias(n) => YamlValue::Alias(*n),
        Yaml::Null => YamlValue::Null,
        Yaml::BadValue => YamlValue::BadValue,
    }
}

/// yaml-rust's `YamlLoader::load_from_str`: the documents of `text`, or
/// nothing when it reports a scan error. The contract names the result and
/// says no more of it.
#[verifier::external_body]
pub(crate) fn load_yaml(text: &str) -> (r: Option<Vec<YamlValue>>)
    ensures
        match r {
            Some(docs) => yaml_documents(text@) == Some(docs@),
            None => yaml_documents(text@) is None,
        },
{
    match yaml_rust::YamlLoader::load_from_str(text) {
        Ok(docs) => Some(docs.iter().map(tree_of).collect()),
        Err(_) => None,
    }
}

/// yaml-rust's `Yaml::as_f64` on a real written as `text`: whether it gives
/// a number.
#[verifier::external_body]
pub(crate) fn real_is_number(text: &String) -> (r: bool)
    ensures
        r == yaml_real_is_number(text@),
{
    Yaml::Real(text.clone()).as_f64().is_some()
}

/// The value of the first entry whose key is the string `key`.
pub open spec fn lookup_text_key(h: Seq<(YamlValue, YamlValue)>, key: Seq<char>) -> YamlValue
    decreases h.len(),
{
    if h.len() == 0 {
        YamlValue::BadValue
    } else {
        match h[0].0 {
            YamlValue::Str(s) => if s@ == key {
                h[0].1
            } else {
                lookup_text_key(h.drop_first(), key)
            },
            _ => lookup_text_key(h.drop_first(), key),
        }
    }
}

/// The value of the first entry whose key is the integer `key`.
pub open spec fn lookup_int_key(h: Seq<(YamlValue, YamlValue)>, key: int) -> YamlValue
    decreases h.len(),
{
    if h.len() == 0 {
        YamlValue::BadValue
    } else {
        match h[0].0 {
            YamlValue::Integer(n) => if n == key {
                h[0].1
            } else {
                lookup_int_key(h.drop_first(), key)
            },
            _ => lookup_int_key(h.drop_first(), key),
        }
    }
}

/// `v[key]`: the entry of a hash under a string key; a bad value otherwise.
pub open spec fn yaml_get(v: YamlValue, key: Seq<char>) -> YamlValue {
    match v {
        YamlValue::Hash(h) => lookup_text_key(h@, key),
        _ => YamlValue::BadValue,
    }
}

/// `v[i]`: the element of an array, or the entry of a hash under the integer
/// key `i`; a bad value otherwise.
pub open spec fn yaml_at(v: YamlValue, i: int) -> YamlValue {
    match v {
        YamlValue::Array(a) => if 0 <= i < a@.len() {
            a@[i]
        } else {
            YamlValue::BadValue
        },
        YamlValue::Hash(h) => lookup_int_key(h@, i),
        _ => YamlValue::BadValue,
    }
}

/// `as_str`.
pub open spec fn as_text(v: YamlValue) -> Option<Seq<char>> {
    match v {
        YamlValue::Str(s) => Some(s@),
        _ => None,
    }
}

/// `as_i64`.
pub open spec fn as_integer(v: YamlValue) -> Option<i64> {
    match v {
        YamlValue::Integer(n) => Some(n),
        _ => None,
    }
}

/// The text of a real.
pub open spec fn real_text(v: YamlValue) -> Option<Seq<char>> {
    match v {
        YamlValue::Real(s) => Some(s@),
        _ => None,
    }
}

/// `as_f64` gives a number.
pub open spec fn is_number(v: YamlValue) -> bool {
    match v {
        YamlValue::Real(s) => yaml_real_is_number(s@),
        _ => false,
    }
}

/// `as_vec`.
pub open spec fn as_list(v: YamlValue) -> Option<Seq<YamlValue>> {
    match v {
        YamlValue::Array(a) => Some(a@),
        _ => None,
    }
}

/// `as_hash`, as its entries in order.
pub open spec fn as_pairs(v: YamlValue) -> Option<Seq<(YamlValue, YamlValue)>> {
    match v {
        YamlValue::Hash(h) => Some(h@),
        _ => None,
    }
}

fn lookup_text<'a>(h: &'a Vec<(YamlValue, YamlValue)>, key: &String) -> (r: Option<&'a YamlValue>)
    ensures
        match r {
            Some(x) => *x == lookup_text_key(h@, key@),
            None => lookup_text_key(h@, key@) == YamlValue::BadValue,
        },
{
    let mut i: usize = 0;
    assert(h@.skip(0) =~= h@);
    while i < h.len()
        invariant
            i <= h@.len(),
            lookup_text_key(h@.skip(i as int), key@) == lookup_text_key(h@, key@),
        decreases h@.len() - i,
    {
        assert(h@.skip(i as int).drop_first() =~= h@.skip(i + 1));
        let hit = match &h[i].0 {
            YamlValue::Str(s) => *s == *key,
            _ => false,
        };
        if hit {
            return Some(&h[i].1);
        }
        i = i + 1;
    }
    None
}

fn lookup_int(h: &Vec<(YamlValue, YamlValue)>, key: usize) -> (r: Option<&YamlValue>)
    ensures
        match r {
            Some(x) => *x == lookup_int_key(h@, key as int),
            None => lookup_int_key(h@, key as int) == YamlValue::BadValue,
        },
{
    let mut i: usize = 0;
    assert(h@.skip(0) =~= h@);
    while i < h.len()
        invariant
            i <= h@.len(),
            lookup_int_key(h@.skip(i as int), key as int) == lookup_int_key(h@, key as int),
        decreases h@.len() - i,
    {
        assert(h@.skip(i as int).drop_first() =~= h@.skip(i + 1));
        let hit = match &h[i].0 {
            YamlValue::Integer(n) => *n >= 0 && *n as u64 == key as u64,
            _ => false,
        };
        if hit {
            return Some(&h[i].1);
        }
        i = i + 1;
    }
    None
}

/// `v[key]`, where nothing stands for the bad value.
pub fn get<'a>(v: &'a YamlValue, key: &String) -> (r: Option<&'a YamlValue>)
    ensures
        match r {
            Some(x) => *x == yaml_get(*v, key@),
            None => yaml_get(*v, key@) == YamlValue::BadValue,
        },
{
    match v {
        YamlValue::Hash(h) => lookup_text(h, key),
        _ => None,
    }
}

/// `v[i]`, where nothing stands for the bad value.
pub fn at(v: &YamlValue, i: usize) -> (r: Option<&YamlValue>)
    ensures
        match r {
            Some(x) => *x == yaml_at(*v, i as int),
            None => yaml_at(*v, i as int) == YamlValue::BadValue,
        },
{
    match v {
        YamlValue::Array(a) => if i < a.len() {
            Some(&a[i])
        } else {
            None
        },
        YamlValue::Hash(h) => lookup_int(h, i),
        _ => None,
    }
}

/// `as_str` on a node that may be the bad value.
pub fn text_of(v: Option<&YamlValue>) -> (r: Option<&String>)
    ensures
        match v {
            Some(x) => match r {
                Some(s) => as_text(*x) == Some(s@),
                None => as_text(*x) is None,
            },
            None => r is None,
        },
{
    match v {
        Some(YamlValue::Str(s)) => Some(s),
        _ => None,
    }
}

/// `as_i64` on a node that may be the bad value.
pub fn integer_of(v: Option<&YamlValue>) -> (r: Option<i64>)
    ensures
        match v {
            Some(x) => r == as_integer(*x),
            None => r is None,
        },
{
    match v {
        Some(YamlValue::Integer(n)) => Some(*n),
        _ => None,
    }
}

/// The text of a real that `as_f64` reads as a number, on a node that may be
/// the bad value.
pub fn number_text_of(v: Option<&YamlValue>) -> (r: Option<&String>)
    ensures
        match v {
            Some(x) => match r {
                Some(s) => is_number(*x) && real_text(*x) == Some(s@),
                None => !is_number(*x),
            },
            None => r is None,
        },
{
    match v {
        Some(YamlValue::Real(s)) => if real_is_number(s) {
            Some(s)
        } else {
            None
        },
        _ => None,
    }
}

} // verus!
