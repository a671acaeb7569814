//! The sensor map of the settings: sensor ids (as text) to sensor names.
use vstd::prelude::*;
use vstd::seq_lib::group_to_multiset_ensures;
use crate::decimal::{decimal, i64_to_text, parse_i32, text_to_i32};
use crate::text::{
    lemma_text_lt_irreflexive, lemma_text_lt_total, lemma_text_lt_transitive, sort_texts, text_lt,
    texts,
};

verus! {

broadcast use group_to_multiset_ensures;

/// The map from a sensor's id, as it is written in the settings, to the
/// sensor's name, held as a list of key and name pairs in which a key occurs
/// at most once.
pub struct SensorMap {
    entries: Vec<(String, String)>,
}

/// The texts of the keys of a list of entries.
pub open spec fn entry_keys(s: Seq<(String, String)>) -> Seq<Seq<char>> {
    s.map_values(|e: (String, String)| e.0@)
}

/// The map that a list of entries stands for.
pub open spec fn entries_map(s: Seq<(String, String)>) -> Map<Seq<char>, Seq<char>>
    decreases s.len(),
{
    if s.len() == 0 {
        Map::empty()
    } else {
        entries_map(s.drop_last()).insert(s.last().0@, s.last().1@)
    }
}

proof fn lemma_entries_map(s: Seq<(String, String)>)
    requires
        entry_keys(s).no_duplicates(),
    ensures
        entries_map(s).dom().finite(),
        entries_map(s).dom().len() == s.len(),
        forall|k: Seq<char>|
            entries_map(s).contains_key(k) <==> exists|i: int| 0 <= i < s.len() && #[trigger] s[i].0@
                == k,
        forall|i: int| 0 <= i < s.len() ==> entries_map(s)[#[trigger] s[i].0@] == s[i].1@,
    decreases s.len(),
{
    if s.len() > 0 {
        let p = s.drop_last();
        assert(entry_keys(p) =~= entry_keys(s).drop_last());
        lemma_entries_map(p);
        assert forall|i: int| 0 <= i < p.len() implies p[i].0@ != s.last().0@ by {
            assert(entry_keys(s)[i] == p[i].0@);
            assert(entry_keys(s)[s.len() - 1] == s.last().0@);
        }
        assert forall|k: Seq<char>| entries_map(s).contains_key(k) implies exists|i: int|
            0 <= i < s.len() && #[trigger] s[i].0@ == k by {
            if k != s.last().0@ {
                let i = choose|i: int| 0 <= i < p.len() && #[trigger] p[i].0@ == k;
                assert(s[i] == p[i]);
            }
        }
        assert forall|i: int| 0 <= i < s.len() implies entries_map(s)[#[trigger] s[i].0@] == s[i].1@ by {
            if i < p.len() {
                assert(s[i] == p[i]);
            }
        }
        assert forall|k: Seq<char>| (exists|i: int| 0 <= i < s.len() && #[trigger] s[i].0@ == k)
            implies entries_map(s).contains_key(k) by {
            let i = choose|i: int| 0 <= i < s.len() && #[trigger] s[i].0@ == k;
            if i < p.len() {
                assert(s[i] == p[i]);
            }
        }
    }
}

proof fn lemma_sorted_keys(keys: Seq<Seq<char>>, ks: Seq<Seq<char>>)
    requires
        keys.no_duplicates(),
        ks.to_multiset() == keys.to_multiset(),
        forall|i: int, j: int| 0 <= i < j < ks.len() ==> !text_lt(ks[j], ks[i]),
    ensures
        ks.no_duplicates(),
        ks.len() == keys.len(),
        forall|x: Seq<char>| ks.contains(x) <==> keys.contains(x),
        forall|i: int, j: int| 0 <= i < j < ks.len() ==> text_lt(ks[i], ks[j]),
{
    broadcast use vstd::multiset::group_multiset_axioms;
    keys.lemma_multiset_has_no_duplicates();
    ks.to_multiset_ensures();
    keys.to_multiset_ensures();
    ks.lemma_multiset_has_no_duplicates_conv();
    assert forall|x: Seq<char>| ks.contains(x) <==> keys.contains(x) by {
        assert(ks.contains(x) <==> ks.to_multiset().count(x) > 0);
        assert(keys.contains(x) <==> keys.to_multiset().count(x) > 0);
    }
    assert forall|i: int, j: int| 0 <= i < j < ks.len() implies text_lt(ks[i], ks[j]) by {
        lemma_text_lt_total(ks[i], ks[j]);
    }
}

/// `r` lists the sensors of map `m` that pass `filter`: every entry is a key
/// of the map with its name and the id its key reads as, every key whose id
/// passes is listed, and the keys come in strictly increasing order.
pub open spec fn lists_sensors(m: Map<Seq<char>, Seq<char>>, filter: Option<i32>, r: Seq<SensorEntry>) -> bool {
    &&& forall|t: int|
        0 <= t < r.len() ==> {
            &&& m.contains_key(#[trigger] r[t].key@)
            &&& m[r[t].key@] == r[t].name@
            &&& parse_i32(r[t].key@) == Some(r[t].id)
            &&& passes_filter(filter, r[t].id)
        }
    &&& forall|k: Seq<char>|
        m.contains_key(k) && passes_filter(filter, parse_i32(k).unwrap()) ==> exists|t: int|
            0 <= t < r.len() && #[trigger] r[t].key@ == k
    &&& forall|s: int, t: int| 0 <= s < t < r.len() ==> text_lt(r[s].key@, r[t].key@)
}

/// A listed sensor as plain values: id, key and name.
pub open spec fn entry_view(e: SensorEntry) -> (i32, Seq<char>, Seq<char>) {
    (e.id, e.key@, e.name@)
}

/// The entries are in strictly increasing order of their keys.
pub open spec fn keys_increasing(a: Seq<(i32, Seq<char>, Seq<char>)>) -> bool {
    forall|i: int, j: int| 0 <= i < j < a.len() ==> text_lt(a[i].1, a[j].1)
}

proof fn lemma_increasing_unique(a: Seq<(i32, Seq<char>, Seq<char>)>, b: Seq<(i32, Seq<char>, Seq<char>)>)
    requires
        keys_increasing(a),
        keys_increasing(b),
        forall|x: (i32, Seq<char>, Seq<char>)| a.contains(x) <==> b.contains(x),
    ensures
        a == b,
    decreases a.len(),
{
    if a.len() == 0 {
        if b.len() > 0 {
            assert(b.contains(b[0]));
        }
        assert(a =~= b);
    } else {
        assert(a.contains(a[0]));
        let j = choose|j: int| 0 <= j < b.len() && b[j] == a[0];
        assert(b.contains(b[0]));
        let i = choose|i: int| 0 <= i < a.len() && a[i] == b[0];
        if j > 0 {
            if i > 0 {
                lemma_text_lt_transitive(a[0].1, a[i].1, a[0].1);
            }
            lemma_text_lt_irreflexive(a[0].1);
        }
        assert(a[0] == b[0]);
        assert forall|x: (i32, Seq<char>, Seq<char>)|
            a.drop_first().contains(x) <==> b.drop_first().contains(x) by {
            if a.drop_first().contains(x) {
                let p = choose|p: int| 0 <= p < a.drop_first().len() && a.drop_first()[p] == x;
                assert(a.contains(x));
                let q = choose|q: int| 0 <= q < b.len() && b[q] == x;
                if q == 0 {
                    lemma_text_lt_irreflexive(a[0].1);
                    assert(text_lt(a[0].1, a[p + 1].1));
                }
                assert(b.drop_first()[q - 1] == x);
            }
            if b.drop_first().contains(x) {
                let p = choose|p: int| 0 <= p < b.drop_first().len() && b.drop_first()[p] == x;
                assert(b.contains(x));
                let q = choose|q: int| 0 <= q < a.len() && a[q] == x;
                if q == 0 {
                    lemma_text_lt_irreflexive(b[0].1);
                    assert(text_lt(b[0].1, b[p + 1].1));
                }
                assert(a.drop_first()[q - 1] == x);
            }
        }
        lemma_increasing_unique(a.drop_first(), b.drop_first());
        assert(a =~= seq![a[0]] + a.drop_first());
        assert(b =~= seq![b[0]] + b.drop_first());
    }
}

/// The entries of one id, from a list of entries.
pub open spec fn of_id(f: i32) -> spec_fn((i32, Seq<char>, Seq<char>)) -> bool {
    |e: (i32, Seq<char>, Seq<char>)| e.0 == f
}

proof fn lemma_filter_increasing(a: Seq<(i32, Seq<char>, Seq<char>)>, f: i32)
    requires
        keys_increasing(a),
    ensures
        keys_increasing(a.filter(of_id(f))),
        forall|x: (i32, Seq<char>, Seq<char>)|
            a.filter(of_id(f)).contains(x) <==> (a.contains(x) && x.0 == f),
    decreases a.len(),
{
    reveal(Seq::filter);
    if a.len() > 0 {
        let p = a.drop_last();
        assert(keys_increasing(p));
        lemma_filter_increasing(p, f);
        let fp = p.filter(of_id(f));
        let fa = a.filter(of_id(f));
        assert(fa == if a.last().0 == f {
            fp.push(a.last())
        } else {
            fp
        });
        assert forall|x: (i32, Seq<char>, Seq<char>)| fa.contains(x) <==> (a.contains(x) && x.0 == f) by {
            if a.contains(x) && x.0 == f {
                let k = choose|k: int| 0 <= k < a.len() && a[k] == x;
                if k < a.len() - 1 {
                    assert(p.contains(p[k]));
                    assert(fp.contains(x));
                    let q = choose|q: int| 0 <= q < fp.len() && fp[q] == x;
                    assert(fa[q] == x);
                } else {
                    assert(fa[fa.len() - 1] == x);
                }
            }
            if fa.contains(x) {
                let q = choose|q: int| 0 <= q < fa.len() && fa[q] == x;
                if q < fp.len() {
                    assert(fp[q] == x);
                    assert(fp.contains(x));
                    assert(p.contains(x));
                    let k = choose|k: int| 0 <= k < p.len() && p[k] == x;
                    assert(a[k] == x);
                } else {
                    assert(a[a.len() - 1] == x);
                }
            }
        }
        assert forall|i: int, j: int| 0 <= i < j < fa.len() implies text_lt(fa[i].1, fa[j].1) by {
            if j < fp.len() {
                assert(fa[i] == fp[i]);
                assert(fa[j] == fp[j]);
            } else {
                assert(fa[i] == fp[i]);
                assert(fp.contains(fp[i]));
                assert(p.contains(fp[i]));
                let k = choose|k: int| 0 <= k < p.len() && p[k] == fp[i];
                assert(fa[j] == a.last());
                assert(a[k] == p[k]);
            }
        }
    }
}

/// Listing the sensors of one id gives the listing of all sensors with the
/// other ids taken out, in the same order: the filter only selects.
pub proof fn law_filter_selects_from_all(
    m: Map<Seq<char>, Seq<char>>,
    all: Seq<SensorEntry>,
    one: Seq<SensorEntry>,
    f: i32,
)
    requires
        lists_sensors(m, None, all),
        lists_sensors(m, Some(f), one),
    ensures
        one.map_values(|e: SensorEntry| entry_view(e)) == all.map_values(
            |e: SensorEntry| entry_view(e),
        ).filter(of_id(f)),
{
    let va = all.map_values(|e: SensorEntry| entry_view(e));
    let vo = one.map_values(|e: SensorEntry| entry_view(e));
    assert(keys_increasing(va));
    assert(keys_increasing(vo));
    lemma_filter_increasing(va, f);
    assert forall|x: (i32, Seq<char>, Seq<char>)| vo.contains(x) <==> (va.contains(x) && x.0 == f) by {
        if vo.contains(x) {
            let t = choose|t: int| 0 <= t < vo.len() && vo[t] == x;
            assert(m.contains_key(one[t].key@));
            let u = choose|u: int| 0 <= u < all.len() && #[trigger] all[u].key@ == one[t].key@;
            assert(va[u] == x);
        }
        if va.contains(x) && x.0 == f {
            let u = choose|u: int| 0 <= u < va.len() && va[u] == x;
            assert(m.contains_key(all[u].key@));
            assert(passes_filter(Some(f), parse_i32(all[u].key@).unwrap()));
            let t = choose|t: int| 0 <= t < one.len() && #[trigger] one[t].key@ == all[u].key@;
            assert(vo[t] == x);
        }
    }
    lemma_increasing_unique(vo, va.filter(of_id(f)));
}

/// Without a filter the listing holds every sensor of the map: its keys are
/// exactly the map's keys, each with its name and the id its key reads as,
/// in increasing order of the keys.
pub proof fn law_unfiltered_listing_is_complete(m: Map<Seq<char>, Seq<char>>, r: Seq<SensorEntry>)
    requires
        lists_sensors(m, None, r),
    ensures
        forall|k: Seq<char>| m.contains_key(k) <==> exists|t: int| 0 <= t < r.len() && #[trigger] r[t].key@ == k,
        forall|t: int|
            0 <= t < r.len() ==> m[#[trigger] r[t].key@] == r[t].name@ && parse_i32(r[t].key@)
                == Some(r[t].id),
        forall|a: int, b: int| 0 <= a < b < r.len() ==> text_lt(r[a].key@, r[b].key@),
{
    assert forall|k: Seq<char>| m.contains_key(k) implies exists|t: int|
        0 <= t < r.len() && #[trigger] r[t].key@ == k by {
        assert(passes_filter(None, parse_i32(k).unwrap()));
    }
}

/// With the filter `Some(f)` the listing holds exactly the sensors of the
/// map whose key reads as the id `f`.
pub proof fn law_filtered_listing_is_exact(m: Map<Seq<char>, Seq<char>>, f: i32, r: Seq<SensorEntry>)
    requires
        lists_sensors(m, Some(f), r),
    ensures
        forall|k: Seq<char>|
            (m.contains_key(k) && parse_i32(k) == Some(f)) <==> exists|t: int|
                0 <= t < r.len() && #[trigger] r[t].key@ == k,
        forall|t: int| 0 <= t < r.len() ==> #[trigger] r[t].id == f,
{
    assert forall|k: Seq<char>|
        (m.contains_key(k) && parse_i32(k) == Some(f)) implies exists|t: int|
        0 <= t < r.len() && #[trigger] r[t].key@ == k by {
        assert(passes_filter(Some(f), parse_i32(k).unwrap()));
    }
    assert forall|k: Seq<char>| (exists|t: int| 0 <= t < r.len() && #[trigger] r[t].key@ == k)
        implies m.contains_key(k) && parse_i32(k) == Some(f) by {
        let t = choose|t: int| 0 <= t < r.len() && #[trigger] r[t].key@ == k;
        assert(passes_filter(Some(f), r[t].id));
    }
    assert forall|t: int| 0 <= t < r.len() implies #[trigger] r[t].id == f by {
        assert(m.contains_key(r[t].key@));
        assert(passes_filter(Some(f), r[t].id));
    }
}

impl View for SensorMap {
    type V = Map<Seq<char>, Seq<char>>;

    closed spec fn view(&self) -> Map<Seq<char>, Seq<char>> {
        entries_map(self.entries@)
    }
}

/// A sensor chosen for display: its id, the key it has in the sensor map
/// and its name.
pub struct SensorEntry {
    pub id: i32,
    pub key: String,
    pub name: String,
}

/// Whether a sensor id passes an optional filter on one id.
pub open spec fn passes_filter(filter: Option<i32>, id: i32) -> bool {
    match filter {
        Some(f) => f == id,
        None => true,
    }
}

impl SensorMap {
    #[verifier::type_invariant]
    closed spec fn keys_unique(self) -> bool {
        entry_keys(self.entries@).no_duplicates()
    }

    /// An empty sensor map.
    pub fn new() -> (m: SensorMap)
        ensures
            m@ == Map::<Seq<char>, Seq<char>>::empty(),
    {
        SensorMap { entries: Vec::new() }
    }

    fn find(&self, key: &String) -> (r: Option<usize>)
        ensures
            match r {
                Some(i) => i < self.entries@.len() && self.entries@[i as int].0@ == key@,
                None => forall|i: int|
                    0 <= i < self.entries@.len() ==> #[trigger] self.entries@[i].0@ != key@,
            },
    {
        let mut i: usize = 0;
        while i < self.entries.len()
            invariant
                i <= self.entries@.len(),
                forall|j: int| 0 <= j < i ==> #[trigger] self.entries@[j].0@ != key@,
            decreases self.entries@.len() - i,
        {
            if self.entries[i].0 == *key {
                return Some(i);
            }
            i = i + 1;
        }
        None
    }

    /// Maps `key` to `name`, replacing the name that `key` had, as
    /// `HashMap::insert` does.
    pub fn insert(&mut self, key: String, name: String)
        ensures
            final(self)@ == old(self)@.insert(key@, name@),
    {
        proof {
            use_type_invariant(&*self);
            lemma_entries_map(self.entries@);
        }
        let ghost old_entries = self.entries@;
        match self.find(&key) {
            Some(i) => {
                let mut entries: Vec<(String, String)> = Vec::new();
                std::mem::swap(&mut entries, &mut self.entries);
                entries.set(i, (key, name));
                proof {
                    assert(entry_keys(entries@) =~= entry_keys(old_entries));
                    lemma_entries_map(entries@);
                    assert(entries_map(entries@) =~= entries_map(old_entries).insert(
                        key@,
                        name@,
                    )) by {
                        assert forall|k: Seq<char>| #[trigger]
                            entries_map(entries@).contains_key(k) <==> entries_map(
                            old_entries,
                        ).insert(key@, name@).contains_key(k) by {
                            assert(entries@[i as int].0@ == key@);
                            if k == key@ {
                                assert(entries_map(entries@).contains_key(k));
                            } else {
                                if entries_map(entries@).contains_key(k) {
                                    let j = choose|j: int|
                                        0 <= j < entries@.len() && #[trigger] entries@[j].0@ == k;
                                    assert(old_entries[j] == entries@[j]);
                                    assert(entries_map(old_entries).contains_key(k));
                                }
                                if entries_map(old_entries).contains_key(k) {
                                    let j = choose|j: int|
                                        0 <= j < old_entries.len() && #[trigger] old_entries[j].0@
                                            == k;
                                    assert(old_entries[j] == entries@[j]);
                                    assert(entries_map(entries@).contains_key(k));
                                }
                            }
                        }
                        assert forall|k: Seq<char>| #[trigger]
                            entries_map(entries@).contains_key(k) implies entries_map(
                            entries@,
                        )[k] == entries_map(old_entries).insert(key@, name@)[k] by {
                            let j = choose|j: int|
                                0 <= j < entries@.len() && #[trigger] entries@[j].0@ == k;
                            if j != i {
                                assert(entry_keys(entries@)[j] != entry_keys(entries@)[i as int]);
                                assert(k != key@);
                                assert(old_entries[j] == entries@[j]);
                                assert(entries_map(old_entries)[k] == old_entries[j].1@);
                            } else {
                                assert(entries_map(entries@)[k] == name@);
                            }
                        }
                    }
                }
                self.entries = entries;
            },
            None => {
                let mut entries: Vec<(String, String)> = Vec::new();
                std::mem::swap(&mut entries, &mut self.entries);
                entries.push((key, name));
                proof {
                    assert(entries@.drop_last() =~= old_entries);
                    assert(entry_keys(entries@) =~= entry_keys(old_entries).push(key@));
                    assert forall|a: int, b: int|
                        0 <= a < b < entry_keys(entries@).len() implies entry_keys(entries@)[a]
                        != entry_keys(entries@)[b] by {
                        if b == old_entries.len() {
                            assert(entry_keys(old_entries)[a] == old_entries[a].0@);
                        } else {
                            assert(entry_keys(old_entries)[a] != entry_keys(old_entries)[b]);
                        }
                    }
                }
                self.entries = entries;
            },
        }
    }

    /// The name that `key` maps to, if any.
    pub fn get(&self, key: &String) -> (r: Option<&String>)
        ensures
            match r {
                Some(name) => self@.contains_key(key@) && self@[key@] == name@,
                None => !self@.contains_key(key@),
            },
    {
        proof {
            use_type_invariant(self);
            lemma_entries_map(self.entries@);
        }
        match self.find(key) {
            Some(i) => Some(&self.entries[i].1),
            None => None,
        }
    }

    /// The number of sensors in the map.
    pub fn len(&self) -> (n: usize)
        ensures
            n == self@.len(),
    {
        proof {
            use_type_invariant(self);
            lemma_entries_map(self.entries@);
        }
        self.entries.len()
    }

    /// The name of the sensor with id `sensor`: the map is keyed by the
    /// decimal text of the id.
    pub fn sensor_name(&self, sensor: i64) -> (r: Option<&String>)
        ensures
            match r {
                Some(name) => self@.contains_key(decimal(sensor as int)) && self@[decimal(
                    sensor as int,
                )] == name@,
                None => !self@.contains_key(decimal(sensor as int)),
            },
    {
        let key = i64_to_text(sensor);
        self.get(&key)
    }
    /// Whether every key of the map is the decimal text of an `i32`, as the
    /// listing of sensors needs.
    pub fn keys_are_ids(&self) -> (r: bool)
        ensures
            r == forall|k: Seq<char>| self@.contains_key(k) ==> parse_i32(k) is Some,
    {
        proof {
            use_type_invariant(self);
            lemma_entries_map(self.entries@);
        }
        let mut i: usize = 0;
        while i < self.entries.len()
            invariant
                i <= self.entries@.len(),
                forall|j: int| 0 <= j < i ==> parse_i32(#[trigger] self.entries@[j].0@) is Some,
            decreases self.entries@.len() - i,
        {
            if text_to_i32(self.entries[i].0.as_str()).is_none() {
                proof {
                    use_type_invariant(self);
                    lemma_entries_map(self.entries@);
                }
                assert(self@.contains_key(self.entries@[i as int].0@));
                return false;
            }
            i = i + 1;
        }
        assert forall|k: Seq<char>| self@.contains_key(k) implies parse_i32(k) is Some by {
            let j = choose|j: int| 0 <= j < self.entries@.len() && #[trigger] self.entries@[j].0@ == k;
        }
        true
    }

    /// The sensors to show, as the sensor map lists them: ordered by their
    /// keys as `String`s order, each key read as an `i32` id, and only those
    /// whose id passes `filter`. Every key of the map must be the decimal
    /// text of an `i32`.
    pub fn select_sensors(&self, filter: Option<i32>) -> (r: Vec<SensorEntry>)
        requires
            forall|k: Seq<char>| self@.contains_key(k) ==> parse_i32(k) is Some,
        ensures
            lists_sensors(self@, filter, r@),
    {
        proof {
            use_type_invariant(self);
            lemma_entries_map(self.entries@);
        }
        let mut keys: Vec<String> = Vec::new();
        let mut i: usize = 0;
        while i < self.entries.len()
            invariant
                i <= self.entries@.len(),
                texts(keys@) == entry_keys(self.entries@).take(i as int),
                keys@.len() == i,
            decreases self.entries@.len() - i,
        {
            let key = self.entries[i].0.clone();
            assert(key@ == self.entries@[i as int].0@);
            let ghost old_keys = keys@;
            keys.push(key);
            assert forall|j: int| 0 <= j < i + 1 implies #[trigger] texts(keys@)[j] == entry_keys(
                self.entries@,
            )[j] by {
                if j < i {
                    assert(keys@[j] == old_keys[j]);
                    assert(texts(old_keys)[j] == entry_keys(self.entries@).take(i as int)[j]);
                }
            }
            assert(texts(keys@) =~= entry_keys(self.entries@).take(i + 1));
            i = i + 1;
        }
        assert(texts(keys@) =~= entry_keys(self.entries@));
        let sorted = sort_texts(keys);
        let ghost ks = texts(sorted@);
        proof {
            lemma_sorted_keys(entry_keys(self.entries@), ks);
            assert forall|x: Seq<char>| ks.contains(x) <==> self@.contains_key(x) by {
                if ks.contains(x) {
                    let j = choose|j: int| 0 <= j < entry_keys(self.entries@).len()
                        && entry_keys(self.entries@)[j] == x;
                    assert(self.entries@[j].0@ == x);
                }
                if self@.contains_key(x) {
                    let j = choose|j: int| 0 <= j < self.entries@.len() && #[trigger]
                        self.entries@[j].0@ == x;
                    assert(entry_keys(self.entries@)[j] == x);
                }
            }
        }
        let mut r: Vec<SensorEntry> = Vec::new();
        let ghost mut pos: Seq<int> = Seq::empty();
        let mut i: usize = 0;
        while i < sorted.len()
            invariant
                i <= sorted@.len(),
                ks == texts(sorted@),
                forall|x: Seq<char>| ks.contains(x) <==> self@.contains_key(x),
                forall|a: int, b: int| 0 <= a < b < ks.len() ==> text_lt(ks[a], ks[b]),
                forall|k: Seq<char>| self@.contains_key(k) ==> parse_i32(k) is Some,
                pos.len() == r@.len(),
                forall|t: int| 0 <= t < pos.len() ==> 0 <= #[trigger] pos[t] < i,
                forall|s: int, t: int| 0 <= s < t < pos.len() ==> pos[s] < pos[t],
                forall|t: int|
                    0 <= t < r@.len() ==> {
                        &&& #[trigger] r@[t].key@ == ks[pos[t]]
                        &&& self@.contains_key(r@[t].key@)
                        &&& self@[r@[t].key@] == r@[t].name@
                        &&& parse_i32(r@[t].key@) == Some(r@[t].id)
                        &&& passes_filter(filter, r@[t].id)
                    },
                forall|j: int|
                    0 <= j < i && passes_filter(filter, parse_i32(ks[j]).unwrap()) ==> exists|
                        t: int,
                    | 0 <= t < r@.len() && #[trigger] r@[t].key@ == ks[j],
            decreases sorted@.len() - i,
        {
            let key = &sorted[i];
            assert(ks[i as int] == key@);
            assert(ks.contains(key@));
            let id = text_to_i32(key.as_str()).unwrap();
            let ghost r_before = r@;
            if match filter {
                Some(f) => f == id,
                None => true,
            } {
                let name = self.get(key).unwrap();
                let ghost old_r = r@;
                r.push(SensorEntry { id, key: key.clone(), name: name.clone() });
                proof {
                    pos = pos.push(i as int);
                    assert forall|t: int| 0 <= t < r@.len() implies #[trigger] r@[t].key@ == ks[pos[t]]
                        by {
                        if t < old_r.len() {
                            assert(r@[t] == old_r[t]);
                        }
                    }
                    assert(r@[r@.len() - 1].key@ == ks[i as int]);
                }
            }
            proof {
                assert forall|j: int|
                    0 <= j < i + 1 && passes_filter(filter, parse_i32(ks[j]).unwrap()) implies exists|
                    t: int,
                | 0 <= t < r@.len() && #[trigger] r@[t].key@ == ks[j] by {
                    if j < i {
                        let t = choose|t: int| 0 <= t < r_before.len() && #[trigger] r_before[t].key@
                            == ks[j];
                        assert(r@[t] == r_before[t]);
                    } else {
                        assert(r@[r@.len() - 1].key@ == ks[j]);
                    }
                }
            }
            i = i + 1;
        }
        proof {
            assert forall|k: Seq<char>|
                self@.contains_key(k) && passes_filter(filter, parse_i32(k).unwrap()) implies exists|
                t: int,
            | 0 <= t < r@.len() && #[trigger] r@[t].key@ == k by {
                assert(ks.contains(k));
                let j = choose|j: int| 0 <= j < ks.len() && ks[j] == k;
                assert(passes_filter(filter, parse_i32(ks[j]).unwrap()));
            }
            assert forall|s: int, t: int| 0 <= s < t < r@.len() implies text_lt(
                r@[s].key@,
                r@[t].key@,
            ) by {
                assert(r@[s].key@ == ks[pos[s]]);
                assert(r@[t].key@ == ks[pos[t]]);
            }
        }
        r
    }
}

} // verus!
