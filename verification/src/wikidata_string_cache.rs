//! A cache of the items that values of properties lead to.
use vstd::prelude::*;

use crate::clock;
use crate::string_map;
use crate::string_map::StringMap;
use crate::text;

verus! {

/// How many values of one property the cache holds before the older half is dropped.
pub const MAX_CACHE_SIZE_PER_PROPERTY: usize = 10000;

/// What a value of a property leads to: an item or nothing, and when that was last asked for.
#[derive(Debug, PartialEq)]
pub struct WikidataStringValue {
    pub timestamp: u64,
    pub key: Option<String>,
}

/// What a `WikidataStringValue` is.
#[verifier::ext_equal]
pub struct ValueModel {
    pub timestamp: u64,
    pub key: Option<Seq<char>>,
}

impl DeepView for WikidataStringValue {
    type V = ValueModel;

    open spec fn deep_view(&self) -> ValueModel {
        ValueModel { timestamp: self.timestamp, key: self.key.deep_view() }
    }
}

impl WikidataStringValue {
    /// A value as of the moment `now`.
    pub fn new_at(key: Option<String>, now: u64) -> (r: Self)
        ensures
            r.deep_view() == (ValueModel { timestamp: now, key: key.deep_view() }),
    {
        WikidataStringValue { timestamp: now, key }
    }

    /// A value as of now.
    pub fn new(key: Option<String>) -> (r: Self)
        ensures
            r.deep_view().key == key.deep_view(),
    {
        WikidataStringValue::new_at(key, clock::ticks())
    }

    /// What the value leads to; it counts as asked for at the moment `now`.
    pub fn key_at(&mut self, now: u64) -> (r: Option<String>)
        ensures
            r.deep_view() == old(self).deep_view().key,
            final(self).deep_view() == (ValueModel { timestamp: now, ..old(self).deep_view() }),
    {
        self.timestamp = now;
        text::copy_option(&self.key)
    }

    /// What the value leads to; it counts as asked for now.
    pub fn key(&mut self) -> (r: Option<String>)
        ensures
            r.deep_view() == old(self).deep_view().key,
            final(self).deep_view().key == old(self).deep_view().key,
    {
        let now = clock::ticks();
        self.key_at(now)
    }

    /// When the value was last asked for.
    pub fn timestamp(&self) -> (r: u64)
        ensures
            r == self.deep_view().timestamp,
    {
        self.timestamp
    }

    fn copy(&self) -> (r: Self)
        ensures
            r.deep_view() == self.deep_view(),
    {
        WikidataStringValue { timestamp: self.timestamp, key: text::copy_option(&self.key) }
    }
}

/// The values of one property.
pub type Values = string_map::Entries<ValueModel>;

/// The values of each property.
pub type Cache = string_map::Entries<Values>;

/// A key as the cache holds it: without white space around it, in lower case.
pub open spec fn fixed(key: Seq<char>) -> Seq<char> {
    text::lowercase_of(text::trimmed(key))
}

/// The values of a property, none where the cache does not know it.
pub open spec fn values_of(cache: Cache, property: Seq<char>) -> Values {
    match string_map::lookup(cache, property) {
        Some(values) => values,
        None => Seq::empty(),
    }
}

/// The cache with a place for the values of a property.
pub open spec fn with_property(cache: Cache, property: Seq<char>) -> Cache {
    if string_map::lookup(cache, property) is Some {
        cache
    } else {
        string_map::put(cache, property, Seq::empty())
    }
}

/// The cache after a key was asked for at the moment `now`.
pub open spec fn asked(cache: Cache, property: Seq<char>, key: Seq<char>, now: u64) -> Cache {
    let c = with_property(cache, property);
    let values = values_of(cache, property);
    match string_map::lookup(values, fixed(key)) {
        Some(v) => string_map::put(
            c,
            property,
            string_map::put(values, fixed(key), ValueModel { timestamp: now, ..v }),
        ),
        None => c,
    }
}

/// How many of some times are before `t`.
pub open spec fn before(times: Seq<u64>, t: u64) -> nat
    decreases times.len(),
{
    if times.len() == 0 {
        0
    } else {
        before(times.drop_last(), t) + if times.last() < t {
            1nat
        } else {
            0
        }
    }
}

/// How many of some times are not after `t`.
pub open spec fn not_after(times: Seq<u64>, t: u64) -> nat
    decreases times.len(),
{
    if times.len() == 0 {
        0
    } else {
        not_after(times.drop_last(), t) + if times.last() <= t {
            1nat
        } else {
            0
        }
    }
}

/// Whether `t` is the time in the middle: the one that stands at half the length where the times
/// are put in order.
pub open spec fn is_half_time(times: Seq<u64>, t: u64) -> bool {
    before(times, t) <= times.len() / 2 < not_after(times, t)
}

/// When the values were last asked for.
pub open spec fn times_of(values: Values) -> Seq<u64> {
    values.map_values(|e: (Seq<char>, ValueModel)| e.1.timestamp)
}

/// The values that were asked for at the moment `t` or later.
pub open spec fn since(values: Values, t: u64) -> Values
    decreases values.len(),
{
    if values.len() == 0 {
        Seq::empty()
    } else {
        let earlier = since(values.drop_last(), t);
        if values.last().1.timestamp >= t {
            earlier.push(values.last())
        } else {
            earlier
        }
    }
}

/// The time in the middle.
pub open spec fn half_time(times: Seq<u64>) -> u64 {
    choose|t: u64| is_half_time(times, t)
}

/// The newer half of some values.
pub open spec fn newer_half(values: Values) -> Values {
    if values.len() == 0 {
        values
    } else {
        since(values, half_time(times_of(values)))
    }
}

/// The cache with the older half of the values of a property dropped, where they are too many.
pub open spec fn pruned(cache: Cache, property: Seq<char>, max: nat) -> Cache {
    match string_map::lookup(cache, property) {
        Some(values) => if values.len() >= max {
            string_map::put(cache, property, newer_half(values))
        } else {
            cache
        },
        None => cache,
    }
}

/// The cache after a key was set at the moment `now`.
pub open spec fn after_set(
    cache: Cache,
    property: Seq<char>,
    key: Seq<char>,
    q: Option<Seq<char>>,
    now: u64,
    max: nat,
) -> Cache {
    pruned(
        string_map::put(
            with_property(cache, property),
            property,
            string_map::put(
                values_of(cache, property),
                fixed(key),
                ValueModel { timestamp: now, key: q },
            ),
        ),
        property,
        max,
    )
}

/// Of two times, the later has all those before it that the earlier has, and itself.
proof fn lemma_counts(times: Seq<u64>, s: u64, t: u64)
    requires
        s < t,
    ensures
        not_after(times, s) <= before(times, t),
        before(times, s) <= not_after(times, s),
    decreases times.len(),
{
    if times.len() > 0 {
        lemma_counts(times.drop_last(), s, t);
    }
}

proof fn lemma_half_time_is_unique(times: Seq<u64>, s: u64, t: u64)
    requires
        is_half_time(times, s),
        is_half_time(times, t),
    ensures
        s == t,
{
    if s < t {
        lemma_counts(times, s, t);
    } else if t < s {
        lemma_counts(times, t, s);
    }
}

/// The latest of the times before `t`; none where there is none.
proof fn lemma_latest_before(times: Seq<u64>, t: u64) -> (m: Option<u64>)
    ensures
        match m {
            Some(s) => times.contains(s) && s < t && before(times, t) == not_after(times, s)
                && forall|i: int| 0 <= i < times.len() ==> (#[trigger] times[i]) < t ==> times[i]
                <= s,
            None => before(times, t) == 0 && forall|i: int|
                0 <= i < times.len() ==> (#[trigger] times[i]) >= t,
        },
    decreases times.len(),
{
    if times.len() == 0 {
        None
    } else {
        let rest = times.drop_last();
        let last = times.last();
        let m = lemma_latest_before(rest, t);
        assert forall|i: int| 0 <= i < rest.len() implies rest[i] == times[i] by {}
        if last >= t {
            match m {
                Some(s) => {
                    let i = choose|i: int| 0 <= i < rest.len() && rest[i] == s;
                    assert(times[i] == s);
                    assert(not_after(times, s) == not_after(rest, s));
                },
                None => {},
            }
            m
        } else {
            assert(times[times.len() - 1] == last);
            match m {
                Some(s) => {
                    let i = choose|i: int| 0 <= i < rest.len() && rest[i] == s;
                    assert(times[i] == s);
                    if last <= s {
                        m
                    } else {
                        lemma_same_count(rest, t, last);
                        Some(last)
                    }
                },
                None => {
                    lemma_none_not_after(rest, t, last);
                    Some(last)
                },
            }
        }
    }
}

proof fn lemma_same_count(times: Seq<u64>, t: u64, s: u64)
    requires
        s < t,
        forall|i: int| 0 <= i < times.len() ==> (#[trigger] times[i]) < t ==> times[i] <= s,
    ensures
        before(times, t) == not_after(times, s),
    decreases times.len(),
{
    if times.len() > 0 {
        let rest = times.drop_last();
        assert forall|i: int| 0 <= i < rest.len() implies (#[trigger] rest[i]) < t ==> rest[i]
            <= s by {
            assert(rest[i] == times[i]);
        }
        assert(times[times.len() - 1] < t ==> times[times.len() - 1] <= s);
        lemma_same_count(rest, t, s);
    }
}

proof fn lemma_none_not_after(times: Seq<u64>, t: u64, s: u64)
    requires
        s < t,
        forall|i: int| 0 <= i < times.len() ==> (#[trigger] times[i]) >= t,
    ensures
        not_after(times, s) == 0,
    decreases times.len(),
{
    if times.len() > 0 {
        let rest = times.drop_last();
        assert forall|i: int| 0 <= i < rest.len() implies (#[trigger] rest[i]) >= t by {
            assert(rest[i] == times[i]);
        }
        assert(times[times.len() - 1] >= t);
        lemma_none_not_after(rest, t, s);
    }
}

proof fn lemma_all_not_after(times: Seq<u64>, t: u64)
    requires
        forall|i: int| 0 <= i < times.len() ==> (#[trigger] times[i]) <= t,
    ensures
        not_after(times, t) == times.len(),
    decreases times.len(),
{
    if times.len() > 0 {
        let rest = times.drop_last();
        assert forall|i: int| 0 <= i < rest.len() implies (#[trigger] rest[i]) <= t by {
            assert(rest[i] == times[i]);
        }
        assert(times[times.len() - 1] <= t);
        lemma_all_not_after(rest, t);
    }
}

/// The earliest time that more than half of the times are not after is the one in the middle.
proof fn lemma_half_time(times: Seq<u64>, t: u64)
    requires
        not_after(times, t) > times.len() / 2,
        forall|i: int|
            0 <= i < times.len() && not_after(times, #[trigger] times[i]) > times.len() / 2 ==> t
                <= times[i],
    ensures
        is_half_time(times, t),
        half_time(times) == t,
{
    match lemma_latest_before(times, t) {
        Some(s) => {
            let i = choose|i: int| 0 <= i < times.len() && times[i] == s;
            assert(not_after(times, times[i]) <= times.len() / 2);
        },
        None => {},
    }
    lemma_half_time_is_unique(times, t, half_time(times));
}

fn count_not_after(times: &Vec<u64>, t: u64) -> (n: usize)
    ensures
        n == not_after(times@, t),
{
    let mut n: usize = 0;
    let mut i: usize = 0;
    assert(times@.take(0) == Seq::<u64>::empty());
    while i < times.len()
        invariant
            i <= times.len(),
            n <= i,
            n == not_after(times@.take(i as int), t),
        decreases times.len() - i,
    {
        assert(times@.take(i + 1).drop_last() == times@.take(i as int));
        if times[i] <= t {
            n = n + 1;
        }
        i = i + 1;
    }
    assert(times@.take(i as int) == times@);
    n
}

/// The time in the middle.
pub fn find_half_time(times: &Vec<u64>) -> (r: u64)
    requires
        times.len() > 0,
    ensures
        r == half_time(times@),
        is_half_time(times@, r),
{
    let half: usize = times.len() / 2;
    let mut latest: u64 = times[0];
    let mut i: usize = 1;
    while i < times.len()
        invariant
            1 <= i <= times.len(),
            forall|j: int| 0 <= j < i ==> (#[trigger] times@[j]) <= latest,
        decreases times.len() - i,
    {
        if times[i] > latest {
            latest = times[i];
        }
        i = i + 1;
    }
    proof {
        lemma_all_not_after(times@, latest);
    }
    let mut best = latest;
    let mut k: usize = 0;
    while k < times.len()
        invariant
            k <= times.len(),
            half == times@.len() / 2,
            not_after(times@, best) > half,
            forall|j: int|
                0 <= j < k && not_after(times@, #[trigger] times@[j]) > half ==> best <= times@[j],
        decreases times.len() - k,
    {
        if times[k] < best && count_not_after(times, times[k]) > half {
            best = times[k];
        }
        k = k + 1;
    }
    proof {
        lemma_half_time(times@, best);
    }
    best
}

/// What the cache knows of a key.
#[derive(Debug, PartialEq)]
pub enum Lookup {
    /// What the key leads to.
    Known(Option<String>),
    /// Nothing: the item is to be searched for with this query, and the result stored under this
    /// key.
    Unknown { query: String, key: String },
}

/// What to search for to find the items with a value of a property.
pub open spec fn value_query(property: Seq<char>, key: Seq<char>) -> Seq<char> {
    "haswbstatement:"@ + property + "="@ + key
}

/// Whether `r` is what the cache knows of a key.
pub open spec fn knows(cache: Cache, property: Seq<char>, key: Seq<char>, r: Lookup) -> bool {
    match (string_map::lookup(values_of(cache, property), fixed(key)), r) {
        (Some(v), Lookup::Known(q)) => q.deep_view() == v.key,
        (None, Lookup::Unknown { query, key: k }) => query@ == value_query(property, fixed(key))
            && k@ == fixed(key),
        _ => false,
    }
}

/// A cache of the items that values of properties lead to.
pub struct WikidataStringCache {
    pub cache: StringMap<StringMap<WikidataStringValue>>,
    pub max_cache_size_per_property: usize,
}

impl WikidataStringCache {
    /// A cache that holds nothing.
    pub fn new() -> (r: Self)
        ensures
            r.cache.pairs() == Seq::<(Seq<char>, Values)>::empty(),
            r.max_cache_size_per_property == MAX_CACHE_SIZE_PER_PROPERTY,
    {
        WikidataStringCache {
            cache: StringMap::new(),
            max_cache_size_per_property: MAX_CACHE_SIZE_PER_PROPERTY,
        }
    }

    /// A key as the cache holds it.
    pub fn fix_key(&self, key: &str) -> (r: String)
        ensures
            r@ == fixed(key@),
    {
        text::to_lowercase(text::trim(key).as_str())
    }

    /// Whether the cache has a place for the values of a property.
    pub fn has_property(&self, property: &str) -> (r: bool)
        ensures
            r == (string_map::lookup(self.cache.pairs(), property@) is Some),
    {
        self.cache.contains_key(property)
    }

    /// Makes a place for the values of a property.
    pub fn ensure_property(&mut self, property: &str)
        ensures
            final(self).cache.pairs() == with_property(old(self).cache.pairs(), property@),
            final(self).max_cache_size_per_property == old(self).max_cache_size_per_property,
    {
        if !self.has_property(property) {
            self.cache.insert(property.to_owned(), StringMap::new());
        }
    }

    /// How many values of a property the cache holds.
    pub fn property_len(&self, property: &str) -> (n: usize)
        ensures
            n == values_of(self.cache.pairs(), property@).len(),
    {
        match self.cache.get(property) {
            Some(values) => values.len(),
            None => 0,
        }
    }

    /// What the cache knows of a key, which counts as asked for at the moment `now`.
    pub fn get_at(&mut self, property: &str, key: &str, now: u64) -> (r: Lookup)
        ensures
            knows(old(self).cache.pairs(), property@, key@, r),
            final(self).cache.pairs() == asked(old(self).cache.pairs(), property@, key@, now),
            final(self).max_cache_size_per_property == old(self).max_cache_size_per_property,
    {
        let ghost start = self.cache.pairs();
        let key = self.fix_key(key);
        self.ensure_property(property);
        proof {
            string_map::lemma_put(start, property@, Seq::<(Seq<char>, ValueModel)>::empty());
        }
        let ghost c = self.cache.pairs();
        let ghost values = values_of(start, property@);
        assert(string_map::lookup(c, property@) == Some(values));
        let found = match self.cache.get(property) {
            Some(inner) => match inner.get(key.as_str()) {
                Some(v) => Some(v.copy()),
                None => None,
            },
            None => None,
        };
        match found {
            Some(v) => {
                let mut v = v;
                let q = v.key_at(now);
                let mut inner = self.cache.replace(property, StringMap::new());
                inner.insert(key, v);
                let ghost updated = inner.pairs();
                self.cache.insert(property.to_owned(), inner);
                proof {
                    string_map::lemma_put_twice(c, property@, Seq::empty(), updated);
                }
                Lookup::Known(q)
            },
            None => {
                let query = "haswbstatement:".to_owned().concat(property).concat("=").concat(
                    key.as_str(),
                );
                Lookup::Unknown { query, key }
            },
        }
    }

    /// What the cache knows of a key, which counts as asked for now.
    pub fn get(&mut self, property: &str, key: &str) -> (r: Lookup)
        ensures
            knows(old(self).cache.pairs(), property@, key@, r),
            exists|now: u64|
                final(self).cache.pairs() == #[trigger] asked(
                    old(self).cache.pairs(),
                    property@,
                    key@,
                    now,
                ),
            final(self).max_cache_size_per_property == old(self).max_cache_size_per_property,
    {
        let now = clock::ticks();
        self.get_at(property, key, now)
    }

    /// What the cache knows of an ISSN, which counts as asked for now.
    pub fn issn2q(&mut self, issn: &str) -> (r: Lookup)
        ensures
            knows(old(self).cache.pairs(), "P236"@, issn@, r),
            exists|now: u64|
                final(self).cache.pairs() == #[trigger] asked(
                    old(self).cache.pairs(),
                    "P236"@,
                    issn@,
                    now,
                ),
            final(self).max_cache_size_per_property == old(self).max_cache_size_per_property,
    {
        self.get("P236", issn)
    }

    /// Whether the cache holds too many values of a property.
    pub fn property_needs_pruning(&self, property: &str) -> (r: bool)
        ensures
            r == match string_map::lookup(self.cache.pairs(), property@) {
                Some(values) => values.len() >= self.max_cache_size_per_property,
                None => false,
            },
    {
        match self.cache.get(property) {
            Some(values) => values.len() >= self.max_cache_size_per_property,
            None => false,
        }
    }

    fn newer(values: &StringMap<WikidataStringValue>) -> (r: StringMap<WikidataStringValue>)
        ensures
            r.pairs() == newer_half(values.pairs()),
    {
        let ghost all = values.pairs();
        let n = values.len();
        let mut r: StringMap<WikidataStringValue> = StringMap::new();
        if n == 0 {
            assert(r.pairs() == all);
            return r;
        }
        let mut times: Vec<u64> = Vec::new();
        let mut i: usize = 0;
        while i < n
            invariant
                all == values.pairs(),
                n == all.len(),
                i <= n,
                times@ == times_of(all.take(i as int)),
            decreases n - i,
        {
            times.push(values.value_at(i).timestamp());
            assert(times_of(all.take(i + 1)) == times_of(all.take(i as int)).push(
                all[i as int].1.timestamp,
            ));
            i = i + 1;
        }
        assert(all.take(i as int) == all);
        let half = find_half_time(&times);
        let mut k: usize = 0;
        assert(all.take(0) == Seq::<(Seq<char>, ValueModel)>::empty());
        while k < n
            invariant
                all == values.pairs(),
                n == all.len(),
                string_map::distinct_keys(all),
                k <= n,
                r.pairs() == since(all.take(k as int), half),
            decreases n - k,
        {
            assert(all.take(k + 1).drop_last() == all.take(k as int));
            assert(all.take(k + 1).last() == all[k as int]);
            let v = values.value_at(k);
            if v.timestamp() >= half {
                proof {
                    assert forall|j: int| 0 <= j < k implies (#[trigger] all.take(
                        k as int,
                    )[j]).0 != all[k as int].0 by {
                        assert(all[j].0 != all[k as int].0);
                    }
                    lemma_since(all.take(k as int), half, all[k as int].0);
                }
                r.insert(values.key_at(k).to_owned(), v.copy());
            }
            k = k + 1;
        }
        assert(all.take(k as int) == all);
        r
    }

    /// Drops the older half of the values of a property, where the cache holds too many.
    pub fn prune_property(&mut self, property: &str)
        ensures
            final(self).cache.pairs() == pruned(
                old(self).cache.pairs(),
                property@,
                old(self).max_cache_size_per_property as nat,
            ),
            final(self).max_cache_size_per_property == old(self).max_cache_size_per_property,
    {
        if !self.property_needs_pruning(property) {
            return;
        }
        let kept = match self.cache.get(property) {
            Some(values) => Self::newer(values),
            None => {
                return;
            },
        };
        self.cache.insert(property.to_owned(), kept);
    }

    /// Stores what a key leads to, as of the moment `now`.
    pub fn set_at(&mut self, property: &str, key: &str, q: Option<String>, now: u64)
        ensures
            final(self).cache.pairs() == after_set(
                old(self).cache.pairs(),
                property@,
                key@,
                q.deep_view(),
                now,
                old(self).max_cache_size_per_property as nat,
            ),
            final(self).max_cache_size_per_property == old(self).max_cache_size_per_property,
    {
        let ghost start = self.cache.pairs();
        let key = self.fix_key(key);
        self.ensure_property(property);
        proof {
            string_map::lemma_put(start, property@, Seq::<(Seq<char>, ValueModel)>::empty());
        }
        let ghost c = self.cache.pairs();
        assert(string_map::lookup(c, property@) == Some(values_of(start, property@)));
        let mut inner = self.cache.replace(property, StringMap::new());
        inner.insert(key, WikidataStringValue::new_at(q, now));
        let ghost updated = inner.pairs();
        self.cache.insert(property.to_owned(), inner);
        proof {
            string_map::lemma_put_twice(c, property@, Seq::empty(), updated);
        }
        self.prune_property(property);
    }

    /// Stores what a key leads to, as of now.
    pub fn set(&mut self, property: &str, key: &str, q: Option<String>)
        ensures
            exists|now: u64|
                final(self).cache.pairs() == #[trigger] after_set(
                    old(self).cache.pairs(),
                    property@,
                    key@,
                    q.deep_view(),
                    now,
                    old(self).max_cache_size_per_property as nat,
                ),
            final(self).max_cache_size_per_property == old(self).max_cache_size_per_property,
    {
        let now = clock::ticks();
        self.set_at(property, key, q, now);
    }

    /// The item that a search leads to: the first one found; none where nothing was found or the
    /// search failed.
    pub fn first_found(found: &Option<Vec<String>>) -> (r: Option<String>)
        ensures
            r.deep_view() == match found.deep_view() {
                Some(items) => if items.len() > 0 {
                    Some(items[0])
                } else {
                    None
                },
                None => None,
            },
    {
        match found {
            Some(items) => if items.len() > 0 {
                assert(items.deep_view()[0] == items@[0]@);
                Some(items[0].clone())
            } else {
                None
            },
            None => None,
        }
    }

    /// Stores what a search for a key found, and hands it out.
    pub fn store_search(
        &mut self,
        property: &str,
        key: &str,
        found: &Option<Vec<String>>,
    ) -> (r: Option<String>)
        ensures
            r.deep_view() == match found.deep_view() {
                Some(items) => if items.len() > 0 {
                    Some(items[0])
                } else {
                    None
                },
                None => None,
            },
            exists|now: u64|
                final(self).cache.pairs() == #[trigger] after_set(
                    old(self).cache.pairs(),
                    property@,
                    key@,
                    r.deep_view(),
                    now,
                    old(self).max_cache_size_per_property as nat,
                ),
            final(self).max_cache_size_per_property == old(self).max_cache_size_per_property,
    {
        let r = Self::first_found(found);
        self.set(property, key, text::copy_option(&r));
        r
    }
}

proof fn lemma_since(values: Values, t: u64, key: Seq<char>)
    requires
        forall|i: int| 0 <= i < values.len() ==> (#[trigger] values[i]).0 != key,
    ensures
        string_map::lookup(since(values, t), key) is None,
    decreases values.len(),
{
    if values.len() > 0 {
        let rest = values.drop_last();
        assert forall|i: int| 0 <= i < rest.len() implies (#[trigger] rest[i]).0 != key by {
            assert(rest[i] == values[i]);
        }
        assert(values[values.len() - 1].0 != key);
        lemma_since(rest, t, key);
        let earlier = since(rest, t);
        assert(earlier.push(values.last()).drop_last() == earlier);
    }
}

/// Where a key is among the values that were asked for since `t`.
proof fn lemma_since_keeps(values: Values, t: u64, i: int)
    requires
        0 <= i < values.len(),
        values[i].1.timestamp >= t,
        string_map::distinct_keys(values),
    ensures
        string_map::lookup(since(values, t), values[i].0) == Some(values[i].1),
    decreases values.len(),
{
    let rest = values.drop_last();
    let earlier = since(rest, t);
    assert forall|a: int, b: int| 0 <= a < b < rest.len() implies (#[trigger] rest[a]).0 != (
    #[trigger] rest[b]).0 by {
        assert(values[a].0 != values[b].0);
    }
    assert(earlier.push(values.last()).drop_last() == earlier);
    if i < rest.len() {
        assert(rest[i] == values[i]);
        lemma_since_keeps(rest, t, i);
        assert(values[i].0 != values[values.len() - 1].0);
    }
}

proof fn lemma_latest_is_kept(values: Values, i: int)
    requires
        0 <= i < values.len(),
        forall|j: int|
            0 <= j < values.len() ==> (#[trigger] values[j]).1.timestamp
                <= values[i].1.timestamp,
    ensures
        half_time(times_of(values)) <= values[i].1.timestamp,
{
    let times = times_of(values);
    let t = values[i].1.timestamp;
    assert forall|j: int| 0 <= j < times.len() implies (#[trigger] times[j]) <= t by {
        assert(times[j] == values[j].1.timestamp);
    }
    lemma_all_not_after(times, t);
    assert(times[i] == t);
    lemma_half_time_exists(times);
    let h = half_time(times);
    if h > t {
        lemma_counts(times, t, h);
    }
}

proof fn lemma_half_time_exists(times: Seq<u64>)
    requires
        times.len() > 0,
    ensures
        is_half_time(times, half_time(times)),
{
    let t = lemma_earliest_majority(times, times.len() as int);
    lemma_half_time(times, t);
}

/// The earliest of the first `n` times, and of the latest, that more than half of the times are
/// not after.
proof fn lemma_earliest_majority(times: Seq<u64>, n: int) -> (t: u64)
    requires
        0 <= n <= times.len(),
        times.len() > 0,
    ensures
        not_after(times, t) > times.len() / 2,
        forall|i: int|
            0 <= i < n && not_after(times, #[trigger] times[i]) > times.len() / 2 ==> t
                <= times[i],
    decreases n,
{
    if n == 0 {
        assert forall|i: int| 0 <= i < times.len() implies (#[trigger] times[i]) <= u64::MAX by {}
        lemma_all_not_after(times, u64::MAX);
        u64::MAX
    } else {
        let t = lemma_earliest_majority(times, n - 1);
        if not_after(times, times[n - 1]) > times.len() / 2 && times[n - 1] < t {
            times[n - 1]
        } else {
            t
        }
    }
}

proof fn lemma_put_distinct<T>(entries: string_map::Entries<T>, key: Seq<char>, value: T)
    requires
        string_map::distinct_keys(entries),
    ensures
        string_map::distinct_keys(string_map::put(entries, key, value)),
        exists|i: int|
            0 <= i < string_map::put(entries, key, value).len() && #[trigger] string_map::put(
                entries,
                key,
                value,
            )[i] == (key, value),
        forall|i: int|
            0 <= i < string_map::put(entries, key, value).len() ==> (#[trigger] string_map::put(
                entries,
                key,
                value,
            )[i]) == (key, value) || entries.contains(string_map::put(entries, key, value)[i]),
{
    string_map::lemma_lookup(entries, key);
    let r = string_map::put(entries, key, value);
    if string_map::lookup(entries, key) is Some {
        let i = choose|i: int| 0 <= i < entries.len() && (#[trigger] entries[i]).0 == key;
        assert(r[i] == (key, value));
        assert forall|a: int, b: int| 0 <= a < b < r.len() implies (#[trigger] r[a]).0 != (
        #[trigger] r[b]).0 by {
            assert(r[a].0 == entries[a].0 && r[b].0 == entries[b].0);
        }
        assert forall|j: int| 0 <= j < r.len() implies (#[trigger] r[j]) == (key, value)
            || entries.contains(r[j]) by {
            if entries[j].0 != key {
                assert(r[j] == entries[j]);
            }
        }
    } else {
        assert(r[entries.len() as int] == (key, value));
        assert forall|j: int| 0 <= j < r.len() implies (#[trigger] r[j]) == (key, value)
            || entries.contains(r[j]) by {
            if j < entries.len() {
                assert(r[j] == entries[j]);
            }
        }
        assert forall|a: int, b: int| 0 <= a < b < r.len() implies (#[trigger] r[a]).0 != (
        #[trigger] r[b]).0 by {
            assert(entries[a].0 != key);
        }
    }
}

/// What was set is what is known afterwards, as long as no value of the property was asked for
/// later than it was set.
pub proof fn law_get_after_set(
    cache: Cache,
    property: Seq<char>,
    key: Seq<char>,
    q: Option<Seq<char>>,
    now: u64,
    max: nat,
)
    requires
        string_map::distinct_keys(values_of(cache, property)),
        forall|i: int|
            0 <= i < values_of(cache, property).len() ==> (#[trigger] values_of(
                cache,
                property,
            )[i]).1.timestamp <= now,
    ensures
        string_map::lookup(
            values_of(after_set(cache, property, key, q, now, max), property),
            fixed(key),
        ) == Some(ValueModel { timestamp: now, key: q }),
{
    let values = values_of(cache, property);
    let v = ValueModel { timestamp: now, key: q };
    let set = string_map::put(values, fixed(key), v);
    let c = string_map::put(with_property(cache, property), property, set);
    string_map::lemma_put(with_property(cache, property), property, set);
    string_map::lemma_put(values, fixed(key), v);
    lemma_put_distinct(values, fixed(key), v);
    if set.len() >= max {
        string_map::lemma_put(c, property, newer_half(set));
        let i = choose|i: int| 0 <= i < set.len() && #[trigger] set[i] == (fixed(key), v);
        assert forall|j: int| 0 <= j < set.len() implies (#[trigger] set[j]).1.timestamp
            <= set[i].1.timestamp by {
            if set[j] != (fixed(key), v) {
                assert(values.contains(set[j]));
                let k = choose|k: int| 0 <= k < values.len() && values[k] == set[j];
                assert(values[k].1.timestamp <= now);
            }
        }
        lemma_latest_is_kept(set, i);
        lemma_since_keeps(set, half_time(times_of(set)), i);
    }
}

/// To set a value of one property leaves the values of every other alone.
pub proof fn law_set_leaves_other_properties(
    cache: Cache,
    property: Seq<char>,
    key: Seq<char>,
    q: Option<Seq<char>>,
    now: u64,
    max: nat,
    other: Seq<char>,
)
    requires
        other != property,
    ensures
        values_of(after_set(cache, property, key, q, now, max), other) == values_of(cache, other),
{
    let values = values_of(cache, property);
    let set = string_map::put(values, fixed(key), ValueModel { timestamp: now, key: q });
    let c = string_map::put(with_property(cache, property), property, set);
    string_map::lemma_put(cache, property, Seq::<(Seq<char>, ValueModel)>::empty());
    string_map::lemma_put(with_property(cache, property), property, set);
    string_map::lemma_put(c, property, newer_half(set));
}

proof fn lemma_since_len(values: Values, t: u64)
    ensures
        since(values, t).len() + before(times_of(values), t) == values.len(),
        forall|i: int|
            0 <= i < since(values, t).len() ==> (#[trigger] since(values, t)[i]).1.timestamp >= t,
    decreases values.len(),
{
    if values.len() > 0 {
        lemma_since_len(values.drop_last(), t);
        assert(times_of(values).drop_last() == times_of(values.drop_last()));
        assert(times_of(values).last() == values.last().1.timestamp);
    }
}

proof fn lemma_distinct_counts(times: Seq<u64>, t: u64)
    requires
        times.no_duplicates(),
    ensures
        not_after(times, t) <= before(times, t) + if times.contains(t) {
            1nat
        } else {
            0
        },
    decreases times.len(),
{
    if times.len() > 0 {
        let rest = times.drop_last();
        assert forall|a: int, b: int| 0 <= a < rest.len() && 0 <= b < rest.len() && a
            != b implies rest[a] != rest[b] by {
            assert(times[a] != times[b]);
        }
        lemma_distinct_counts(rest, t);
        if rest.contains(t) {
            let i = choose|i: int| 0 <= i < rest.len() && rest[i] == t;
            assert(times[i] == t);
            assert(times[times.len() - 1] != times[i]);
        }
        if times.last() == t {
            assert(times[times.len() - 1] == t);
        }
    }
}

/// To prune drops at most half of the values, and exactly half, rounded down, where no two were
/// last asked for at the same moment. What stays was asked for no earlier than the moment in the
/// middle.
pub proof fn law_prune_drops_the_older_half(values: Values)
    requires
        values.len() > 0,
    ensures
        newer_half(values).len() >= values.len() - values.len() / 2,
        times_of(values).no_duplicates() ==> newer_half(values).len() == values.len()
            - values.len() / 2,
        forall|i: int|
            0 <= i < newer_half(values).len() ==> (#[trigger] newer_half(values)[i]).1.timestamp
                >= half_time(times_of(values)),
{
    let times = times_of(values);
    let h = half_time(times);
    lemma_half_time_exists(times);
    lemma_since_len(values, h);
    if times.no_duplicates() {
        lemma_distinct_counts(times, h);
    }
}

// ---------------------------------------------------------------------------------------------
// Laws
// ---------------------------------------------------------------------------------------------

/// White space around a key and the case of its letters do not count: keys in ASCII are the same
/// just where they have the same letters between the white space.
pub proof fn law_keys(before1: Seq<char>, s: Seq<char>, after1: Seq<char>, t: Seq<char>)
    requires
        text::all_whitespace(before1),
        text::all_whitespace(after1),
        s.len() > 0 && !text::whitespace_of(s[0]) && !text::whitespace_of(s.last()),
        t.len() > 0 && !text::whitespace_of(t[0]) && !text::whitespace_of(t.last()),
        forall|k: int| 0 <= k < s.len() ==> text::ascii(#[trigger] s[k]),
        forall|k: int| 0 <= k < t.len() ==> text::ascii(#[trigger] t[k]),
    ensures
        fixed(before1 + s + after1) == fixed(t) <==> text::same_but_case(s, t),
{
    text::lemma_trim_padding(before1, s, after1);
    text::lemma_trim_padding(Seq::empty(), t, Seq::empty());
    assert(Seq::<char>::empty() + t + Seq::<char>::empty() =~= t);
}

/// To ask for a key that leads anywhere notes the time and changes nothing else; to ask for one
/// that does not changes nothing.
pub proof fn law_asked(
    cache: Cache,
    property: Seq<char>,
    key: Seq<char>,
    now: u64,
    other: Seq<char>,
    other_property: Seq<char>,
)
    ensures
        ({
            let before = values_of(cache, property);
            let after = values_of(asked(cache, property, key, now), property);
            &&& match string_map::lookup(before, fixed(key)) {
                Some(v) => string_map::lookup(after, fixed(key)) == Some(
                    ValueModel { timestamp: now, key: v.key },
                ),
                None => after == before,
            }
            &&& other != fixed(key) ==> string_map::lookup(after, other) == string_map::lookup(
                before,
                other,
            )
            &&& other_property != property ==> values_of(
                asked(cache, property, key, now),
                other_property,
            ) == values_of(cache, other_property)
        }),
{
    let c = with_property(cache, property);
    let values = values_of(cache, property);
    string_map::lemma_put(cache, property, Seq::<(Seq<char>, ValueModel)>::empty());
    if let Some(v) = string_map::lookup(values, fixed(key)) {
        let new = string_map::put(values, fixed(key), ValueModel { timestamp: now, ..v });
        string_map::lemma_put(values, fixed(key), ValueModel { timestamp: now, ..v });
        string_map::lemma_put(c, property, new);
        if other_property != property {
            assert(string_map::lookup(c, other_property) == string_map::lookup(
                cache,
                other_property,
            ));
        }
    }
}

/// What a key leads to is known where it was stored, and said as it was stored; else the item is
/// searched for by the value of the property.
pub proof fn law_known(cache: Cache, property: Seq<char>, key: Seq<char>, r: Lookup)
    requires
        knows(cache, property, key, r),
    ensures
        match string_map::lookup(values_of(cache, property), fixed(key)) {
            Some(v) => r matches Lookup::Known(q) && q.deep_view() == v.key,
            None => r matches Lookup::Unknown { query, key: k } && k@ == fixed(key) && query@
                == "haswbstatement:"@ + property + "="@ + fixed(key),
        },
{
}

/// What was stored under the other keys of a property stays while there is room.
pub proof fn law_set_leaves_other_keys(
    cache: Cache,
    property: Seq<char>,
    key: Seq<char>,
    q: Option<Seq<char>>,
    now: u64,
    max: nat,
    other: Seq<char>,
)
    requires
        values_of(cache, property).len() + 1 < max,
        other != fixed(key),
    ensures
        string_map::lookup(
            values_of(after_set(cache, property, key, q, now, max), property),
            other,
        ) == string_map::lookup(values_of(cache, property), other),
{
    let c = with_property(cache, property);
    let values = values_of(cache, property);
    let v = ValueModel { timestamp: now, key: q };
    let new = string_map::put(values, fixed(key), v);
    string_map::lemma_put(values, fixed(key), v);
    string_map::lemma_put(c, property, new);
    assert(string_map::lookup(string_map::put(c, property, new), property) == Some(new));
    assert(new.len() <= values.len() + 1);
}

/// Values are dropped just where a property has as many as it may have, and then those stay, in
/// their order, that are not older than the half time.
pub proof fn law_pruned(
    cache: Cache,
    property: Seq<char>,
    max: nat,
    values: Values,
    more: (Seq<char>, ValueModel),
    t: u64,
)
    ensures
        values_of(cache, property).len() < max ==> pruned(cache, property, max) == cache,
        string_map::lookup(cache, property) is Some && values_of(cache, property).len() >= max
            && values_of(cache, property).len() > 0 ==> values_of(
            pruned(cache, property, max),
            property,
        ) == since(
            values_of(cache, property),
            half_time(times_of(values_of(cache, property))),
        ),
        since(Seq::empty(), t).len() == 0,
        since(values.push(more), t) == if more.1.timestamp < t {
            since(values, t)
        } else {
            since(values, t).push(more)
        },
{
    assert(values.push(more).drop_last() == values);
    if let Some(all) = string_map::lookup(cache, property) {
        string_map::lemma_put(cache, property, newer_half(all));
    }
}

/// The half time is the time before which no more than half of all times lie, and up to which
/// more than half of them do.
pub proof fn law_half_time(times: Seq<u64>)
    requires
        times.len() > 0,
    ensures
        before(times, half_time(times)) <= times.len() / 2,
        not_after(times, half_time(times)) > times.len() / 2,
{
    lemma_half_time_exists(times);
}

/// A time counts as before another where it is earlier, and as not after it where it is not later.
pub proof fn law_times_count(times: Seq<u64>, more: u64, t: u64)
    ensures
        before(Seq::empty(), t) == 0,
        not_after(Seq::empty(), t) == 0,
        before(times.push(more), t) == before(times, t) + if more < t {
            1nat
        } else {
            0
        },
        not_after(times.push(more), t) == not_after(times, t) + if more > t {
            0nat
        } else {
            1
        },
{
    assert(times.push(more).drop_last() == times);
}

} // verus!
