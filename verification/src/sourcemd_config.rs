//! The batches that are running, that failed, and that are to be run.
use vstd::prelude::*;

use crate::clock;
use crate::numbers;
use crate::outside;
use crate::sourcemd_command::RowValue;
use crate::string_map;
use crate::string_map::StringMap;

verus! {

/// `dashmap::DashSet`, a set.
#[verifier::external_type_specification]
#[verifier::external_body]
#[verifier::reject_recursive_types(K)]
#[verifier::reject_recursive_types(S)]
pub struct ExDashSet<K, S>(dashmap::DashSet<K, S>);

/// The members of a set.
pub uninterp spec fn members(set: &dashmap::DashSet<i64, std::hash::RandomState>) -> Set<i64>;

/// `dashmap::DashSet::new`: a set without members.
#[verifier::external_body]
fn new_set() -> (r: dashmap::DashSet<i64, std::hash::RandomState>)
    ensures
        members(&r) == Set::<i64>::empty(),
{
    dashmap::DashSet::new()
}

/// `dashmap::DashSet::insert`: the value becomes a member; the answer says whether it was none
/// before.
#[verifier::external_body]
fn set_insert(set: &mut dashmap::DashSet<i64, std::hash::RandomState>, id: i64) -> (r: bool)
    ensures
        members(final(set)) == members(old(set)).insert(id),
        r == !members(old(set)).contains(id),
{
    set.insert(id)
}

/// `dashmap::DashSet::remove`: the value is no member any more; it is handed out where it was
/// one.
#[verifier::external_body]
fn set_remove(set: &mut dashmap::DashSet<i64, std::hash::RandomState>, id: i64) -> (r: Option<i64>)
    ensures
        members(final(set)) == members(old(set)).remove(id),
        r == if members(old(set)).contains(id) {
            Some(id)
        } else {
            None
        },
{
    set.remove(&id)
}

/// `dashmap::DashSet::contains`: whether the value is a member.
#[verifier::external_body]
fn set_contains(set: &dashmap::DashSet<i64, std::hash::RandomState>, id: i64) -> (r: bool)
    ensures
        r == members(set).contains(id),
{
    set.contains(&id)
}

/// `dashmap::DashSet::len`: the number of members.
#[verifier::external_body]
fn set_len(set: &dashmap::DashSet<i64, std::hash::RandomState>) -> (r: usize)
    ensures
        r == members(set).len(),
{
    set.len()
}

/// The first of some batches that can be run: it is a batch, it is not running, and it did not
/// fail.
pub open spec fn next_batch(
    candidates: Seq<i64>,
    running: Set<i64>,
    failed: Set<i64>,
) -> Option<i64>
    decreases candidates.len(),
{
    if candidates.len() == 0 {
        None
    } else {
        let id = candidates[0];
        if id >= 0 && !running.contains(id) && !failed.contains(id) {
            Some(id)
        } else {
            next_batch(candidates.drop_first(), running, failed)
        }
    }
}

/// Numbers by status, each status once, with the statuses that are empty left out.
pub open spec fn counted(counts: Seq<(Seq<char>, i64)>) -> string_map::Entries<i64>
    decreases counts.len(),
{
    if counts.len() == 0 {
        seq![("TOTAL"@, 0i64)]
    } else {
        let before = counted(counts.drop_last());
        if counts.last().0.len() == 0 {
            before
        } else {
            string_map::put(before, counts.last().0, counts.last().1)
        }
    }
}

/// The sum of the numbers whose status is not empty, within 64 bits.
pub open spec fn total(counts: Seq<(Seq<char>, i64)>) -> i64
    decreases counts.len(),
{
    if counts.len() == 0 {
        0
    } else {
        let before = total(counts.drop_last());
        if counts.last().0.len() == 0 {
            before
        } else {
            vstd::wrapping::i64_specs::wrapping_add(before, counts.last().1)
        }
    }
}

/// The numbers of commands by status, with their sum.
pub open spec fn overview_of(counts: Seq<(Seq<char>, i64)>) -> string_map::Entries<i64> {
    string_map::put(counted(counts), "TOTAL"@, total(counts))
}

/// The batches that are running, and those that failed.
pub struct SourceMD {
    running_batch_ids: dashmap::DashSet<i64, std::hash::RandomState>,
    failed_batch_ids: dashmap::DashSet<i64, std::hash::RandomState>,
}

impl SourceMD {
    /// The batches that are running.
    pub closed spec fn running(&self) -> Set<i64> {
        members(&self.running_batch_ids)
    }

    /// The batches that failed.
    pub closed spec fn failed(&self) -> Set<i64> {
        members(&self.failed_batch_ids)
    }

    /// No batch is running, and none failed.
    pub fn new() -> (r: Self)
        ensures
            r.running() == Set::<i64>::empty(),
            r.failed() == Set::<i64>::empty(),
    {
        SourceMD { running_batch_ids: new_set(), failed_batch_ids: new_set() }
    }

    /// A batch failed.
    pub fn set_batch_failed(&mut self, batch_id: i64)
        ensures
            final(self).failed() == old(self).failed().insert(batch_id),
            final(self).running() == old(self).running(),
    {
        set_insert(&mut self.failed_batch_ids, batch_id);
    }

    /// Whether a batch failed.
    pub fn has_failed(&self, batch_id: i64) -> (r: bool)
        ensures
            r == self.failed().contains(batch_id),
    {
        set_contains(&self.failed_batch_ids, batch_id)
    }

    /// A batch is running.
    pub fn set_batch_running(&mut self, batch_id: i64)
        ensures
            final(self).running() == old(self).running().insert(batch_id),
            final(self).failed() == old(self).failed(),
    {
        set_insert(&mut self.running_batch_ids, batch_id);
    }

    /// A batch is not running any more.
    pub fn set_batch_stopped(&mut self, batch_id: i64)
        ensures
            final(self).running() == old(self).running().remove(batch_id),
            final(self).failed() == old(self).failed(),
    {
        set_remove(&mut self.running_batch_ids, batch_id);
    }

    /// How many batches are running.
    pub fn number_of_bots_running(&self) -> (r: usize)
        ensures
            r == self.running().len(),
    {
        set_len(&self.running_batch_ids)
    }

    /// Whether work on a batch goes on, given whether the database has it with a status other than
    /// that of a batch that runs or is to be run.
    pub fn check_batch_not_stopped(batch_id: i64, stopped: bool) -> (r: Result<(), String>)
        ensures
            match r {
                Ok(_) => !stopped,
                Err(message) => stopped && message@ == "batch #"@ + numbers::signed_decimal(
                    batch_id as int,
                ) + " is not RUNNING or TODO"@,
            },
    {
        if stopped {
            let id = numbers::to_signed_decimal(batch_id);
            Err("batch #".to_owned().concat(id.as_str()).concat(" is not RUNNING or TODO"))
        } else {
            Ok(())
        }
    }

    /// The batch in a row, where it is one; a number below zero where it is not.
    pub fn batch_in_row(id: &RowValue) -> (r: i64)
        ensures
            r == match *id {
                RowValue::Int(x) => x,
                _ => -1i64,
            },
    {
        match id {
            RowValue::Int(x) => *x,
            _ => -1,
        }
    }

    /// The first of some batches that can be run.
    pub fn choose_next_batch(&self, candidates: &Vec<i64>) -> (r: Option<i64>)
        ensures
            r == next_batch(candidates@, self.running(), self.failed()),
    {
        let ghost all = candidates@;
        let ghost running = self.running();
        let ghost failed = self.failed();
        let mut i: usize = 0;
        assert(all.skip(0) == all);
        while i < candidates.len()
            invariant
                all == candidates@,
                running == self.running(),
                failed == self.failed(),
                i <= candidates.len(),
                next_batch(all, running, failed) == next_batch(
                    all.skip(i as int),
                    running,
                    failed,
                ),
            decreases candidates.len() - i,
        {
            let id = candidates[i];
            assert(all.skip(i as int)[0] == id);
            assert(all.skip(i as int).drop_first() == all.skip(i + 1));
            if id >= 0 && !set_contains(&self.running_batch_ids, id) && !set_contains(
                &self.failed_batch_ids,
                id,
            ) {
                return Some(id);
            }
            i = i + 1;
        }
        None
    }

    /// The numbers of commands by status, with their sum.
    pub fn batch_overview(counts: &Vec<(String, i64)>) -> (r: StringMap<i64>)
        ensures
            r.pairs() == overview_of(counts.deep_view()),
    {
        let ghost all = counts.deep_view();
        let mut r: StringMap<i64> = StringMap::new();
        r.insert("TOTAL".to_owned(), 0);
        assert(r.pairs() == seq![("TOTAL"@, 0i64)]);
        let mut sum: i64 = 0;
        let mut i: usize = 0;
        assert(all.take(0) == Seq::<(Seq<char>, i64)>::empty());
        while i < counts.len()
            invariant
                all == counts.deep_view(),
                i <= counts.len(),
                r.pairs() == counted(all.take(i as int)),
                sum == total(all.take(i as int)),
            decreases counts.len() - i,
        {
            assert(all.take(i + 1).drop_last() == all.take(i as int));
            assert(all.take(i + 1).last() == (counts@[i as int].0@, counts@[i as int].1));
            if !counts[i].0.as_str().is_empty() {
                r.insert(counts[i].0.clone(), counts[i].1);
                sum = sum.wrapping_add(counts[i].1);
            }
            i = i + 1;
        }
        assert(all.take(i as int) == all);
        r.insert("TOTAL".to_owned(), sum);
        r
    }

    /// The numbers of commands by status, with their sum, as the text of a JSON object.
    pub fn batch_overview_text(counts: &Vec<(String, i64)>) -> (r: String)
        ensures
            r@ == outside::object_text(overview_of(counts.deep_view())),
    {
        let map = Self::batch_overview(counts);
        let ghost all = map.pairs();
        let n = map.len();
        let mut entries: Vec<(String, i64)> = Vec::new();
        let mut i: usize = 0;
        while i < n
            invariant
                all == map.pairs(),
                n == all.len(),
                i <= n,
                entries.deep_view() == all.take(i as int),
            decreases n - i,
        {
            let ghost done = entries.deep_view();
            entries.push((map.key_at(i).to_owned(), *map.value_at(i)));
            assert(entries.deep_view() == done.push(all[i as int]));
            assert(all.take(i + 1) == all.take(i as int).push(all[i as int]));
            i = i + 1;
        }
        assert(all.take(i as int) == all);
        outside::json_object(&entries)
    }

    /// The time, as the database takes it.
    pub fn timestamp(&self) -> (r: String)
        ensures
            exists|m: clock::Moment| clock::is_moment(m) && r@ == #[trigger] clock::timestamp_of(m),
    {
        clock::timestamp()
    }
}

/// A batch that is run is counted once, however often it is started, and not counted any more
/// once it is stopped.
pub proof fn law_running_batches_are_counted_once(running: Set<i64>, id: i64)
    requires
        running.finite(),
    ensures
        running.insert(id).len() == if running.contains(id) {
            running.len()
        } else {
            running.len() + 1
        },
        running.insert(id).insert(id) == running.insert(id),
        running.insert(id).remove(id) == running.remove(id),
{
    assert(running.insert(id).insert(id) =~= running.insert(id));
    assert(running.insert(id).remove(id) =~= running.remove(id));
}

/// The batch that is run next is one of the candidates, is neither running nor failed, and every
/// candidate before it is no batch, running, or failed.
pub proof fn law_next_batch(candidates: Seq<i64>, running: Set<i64>, failed: Set<i64>)
    ensures
        match next_batch(candidates, running, failed) {
            Some(id) => id >= 0 && !running.contains(id) && !failed.contains(id) && exists|k: int|
                0 <= k < candidates.len() && #[trigger] candidates[k] == id && forall|j: int|
                    0 <= j < k ==> (#[trigger] candidates[j]) < 0 || running.contains(
                        candidates[j],
                    ) || failed.contains(candidates[j]),
            None => forall|j: int|
                0 <= j < candidates.len() ==> (#[trigger] candidates[j]) < 0 || running.contains(
                    candidates[j],
                ) || failed.contains(candidates[j]),
        },
    decreases candidates.len(),
{
    if candidates.len() > 0 {
        let rest = candidates.drop_first();
        let first = candidates[0];
        law_next_batch(rest, running, failed);
        assert forall|j: int| 0 < j < candidates.len() implies candidates[j] == rest[j - 1] by {}
        if first < 0 || running.contains(first) || failed.contains(first) {
            match next_batch(rest, running, failed) {
                Some(id) => {
                    let k = choose|k: int|
                        0 <= k < rest.len() && #[trigger] rest[k] == id && forall|j: int|
                            0 <= j < k ==> (#[trigger] rest[j]) < 0 || running.contains(rest[j])
                                || failed.contains(rest[j]);
                    assert(candidates[k + 1] == id);
                    assert forall|j: int| 0 <= j < k + 1 implies (#[trigger] candidates[j]) < 0
                        || running.contains(candidates[j]) || failed.contains(candidates[j]) by {
                        if j > 0 {
                            assert(candidates[j] == rest[j - 1]);
                        }
                    }
                },
                None => {
                    assert forall|j: int| 0 <= j < candidates.len() implies (
                    #[trigger] candidates[j]) < 0 || running.contains(candidates[j])
                        || failed.contains(candidates[j]) by {
                        if j > 0 {
                            assert(candidates[j] == rest[j - 1]);
                        }
                    }
                },
            }
        }
    }
}

// ---------------------------------------------------------------------------------------------
// Laws
// ---------------------------------------------------------------------------------------------

/// An overview gives for each status the last number that was counted for it, but for a status
/// without a name; under `TOTAL` it gives the sum of all of them.
pub proof fn law_overview(counts: Seq<(Seq<char>, i64)>, status: Seq<char>, n: i64, other: Seq<char>)
    ensures
        string_map::lookup(overview_of(Seq::empty()), "TOTAL"@) == Some(0i64),
        other != "TOTAL"@ ==> string_map::lookup(overview_of(Seq::empty()), other) is None,
        string_map::lookup(overview_of(counts), "TOTAL"@) == Some(total(counts)),
        status.len() > 0 && status != "TOTAL"@ ==> string_map::lookup(
            overview_of(counts.push((status, n))),
            status,
        ) == Some(n),
        other != status && other != "TOTAL"@ ==> string_map::lookup(
            overview_of(counts.push((status, n))),
            other,
        ) == string_map::lookup(overview_of(counts), other),
        status.len() == 0 ==> overview_of(counts.push((status, n))) == overview_of(counts),
{
    let all = counts.push((status, n));
    assert(all.drop_last() == counts);
    string_map::lemma_put(counted(counts), "TOTAL"@, total(counts));
    string_map::lemma_put(counted(all), "TOTAL"@, total(all));
    string_map::lemma_put(counted(counts), status, n);
    if other != status && other != "TOTAL"@ {
        assert(string_map::lookup(overview_of(all), other) == string_map::lookup(
            counted(all),
            other,
        ));
        assert(string_map::lookup(overview_of(counts), other) == string_map::lookup(
            counted(counts),
            other,
        ));
        if status.len() > 0 {
            assert(counted(all) == string_map::put(counted(counts), status, n));
        }
    }
    let none = Seq::<(Seq<char>, i64)>::empty();
    string_map::lemma_put(counted(none), "TOTAL"@, 0i64);
    let start = seq![("TOTAL"@, 0i64)];
    assert(counted(none) == start);
    assert(start.drop_first() =~= Seq::empty());
    reveal_with_fuel(string_map::lookup, 3);
}

/// The total is the sum of the numbers that were counted, as long as it can be held.
pub proof fn law_total(counts: Seq<(Seq<char>, i64)>, status: Seq<char>, n: i64)
    ensures
        total(Seq::empty()) == 0,
        status.len() == 0 ==> total(counts.push((status, n))) == total(counts),
        status.len() > 0 && i64::MIN <= total(counts) + n <= i64::MAX ==> total(
            counts.push((status, n)),
        ) == total(counts) + n,
{
    assert(counts.push((status, n)).drop_last() == counts);
}

} // verus!
