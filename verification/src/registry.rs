//! The registry of currently known peers: at most one host identifier per
//! service name.

use vstd::prelude::*;
use vstd::string::*;

verus! {

/// A discovered remote instance: its full service name and the host
/// identifier under which it was reported.
#[derive(Debug, PartialEq, Eq)]
pub struct PeerRecord {
    pub name: String,
    pub host: String,
}

/// No service name occurs in two records.
pub open spec fn distinct_names(records: Seq<PeerRecord>) -> bool {
    forall|i: int, j: int| 0 <= i < j < records.len() ==> records[i].name@ != records[j].name@
}

/// Some record carries the service name `name`.
pub open spec fn holds_name(records: Seq<PeerRecord>, name: Seq<char>) -> bool {
    exists|i: int| 0 <= i < records.len() && records[i].name@ == name
}

/// The position of a record that carries `name`, where there is one.
pub open spec fn index_of_name(records: Seq<PeerRecord>, name: Seq<char>) -> int {
    choose|i: int| 0 <= i < records.len() && records[i].name@ == name
}

/// The mapping from service name to host identifier that a sequence of
/// records stands for.
pub open spec fn records_map(records: Seq<PeerRecord>) -> Map<Seq<char>, Seq<char>> {
    Map::new(
        |name: Seq<char>| holds_name(records, name),
        |name: Seq<char>| records[index_of_name(records, name)].host@,
    )
}

/// With distinct names, the record at position `i` is the mapping's entry
/// for its name.
pub proof fn lemma_record_is_entry(records: Seq<PeerRecord>, i: int)
    requires
        distinct_names(records),
        0 <= i < records.len(),
    ensures
        holds_name(records, records[i].name@),
        index_of_name(records, records[i].name@) == i,
        records_map(records).contains_key(records[i].name@),
        records_map(records)[records[i].name@] == records[i].host@,
{
    let name = records[i].name@;
    assert(holds_name(records, name));
    let c = index_of_name(records, name);
    assert(0 <= c < records.len() && records[c].name@ == name);
    if c < i {
        assert(records[c].name@ != records[i].name@);
    }
    if i < c {
        assert(records[i].name@ != records[c].name@);
    }
}

/// Appending a record with a new name keeps the names distinct and adds its
/// entry to the mapping.
pub proof fn lemma_push_record(before: Seq<PeerRecord>, record: PeerRecord)
    requires
        distinct_names(before),
        !holds_name(before, record.name@),
    ensures
        distinct_names(before.push(record)),
        records_map(before.push(record)) == records_map(before).insert(record.name@, record.host@),
{
    let after = before.push(record);
    let last = before.len() as int;
    let key = record.name@;
    assert(distinct_names(after)) by {
        assert forall|a: int, b: int| 0 <= a < b < after.len() implies after[a].name@
            != after[b].name@ by {
            assert(after[a] == before[a]);
            if b < last {
                assert(after[b] == before[b]);
            }
        }
    }
    assert forall|k: Seq<char>| holds_name(after, k) == (holds_name(before, k) || k == key) by {
        if holds_name(after, k) {
            let c = index_of_name(after, k);
            if c < last {
                assert(before[c].name@ == k);
            }
        }
        if holds_name(before, k) {
            let c = index_of_name(before, k);
            assert(after[c].name@ == k);
        }
        if k == key {
            assert(after[last].name@ == k);
        }
    }
    assert forall|k: Seq<char>| holds_name(after, k) implies records_map(after)[k] == records_map(
        before,
    ).insert(key, record.host@)[k] by {
        let c = index_of_name(after, k);
        lemma_record_is_entry(after, c);
        if c < last {
            assert(after[c] == before[c]);
            lemma_record_is_entry(before, c);
        }
    }
    assert(records_map(after) =~= records_map(before).insert(key, record.host@));
}

/// With distinct names, the mapping has as many entries as there are
/// records.
pub proof fn lemma_records_count(records: Seq<PeerRecord>)
    requires
        distinct_names(records),
    ensures
        records_map(records).dom().finite(),
        records_map(records).dom().len() == records.len(),
    decreases records.len(),
{
    if records.len() == 0 {
        assert(records_map(records).dom() =~= Set::<Seq<char>>::empty());
    } else {
        let front = records.drop_last();
        let last = records.last();
        assert(distinct_names(front)) by {
            assert forall|a: int, b: int| 0 <= a < b < front.len() implies front[a].name@
                != front[b].name@ by {
                assert(front[a] == records[a]);
                assert(front[b] == records[b]);
            }
        }
        assert(!holds_name(front, last.name@)) by {
            if holds_name(front, last.name@) {
                let c = index_of_name(front, last.name@);
                assert(front[c] == records[c]);
                assert(records[c].name@ != records[records.len() - 1].name@);
            }
        }
        lemma_records_count(front);
        lemma_push_record(front, last);
        assert(records =~= front.push(last));
        assert(records_map(records).dom() =~= records_map(front).dom().insert(last.name@));
        assert(!records_map(front).dom().contains(last.name@));
    }
}

/// The peers known at one moment. Its view is the mapping from service name
/// to host identifier.
pub struct Registry {
    entries: Vec<PeerRecord>,
}

impl View for Registry {
    type V = Map<Seq<char>, Seq<char>>;

    closed spec fn view(&self) -> Map<Seq<char>, Seq<char>> {
        records_map(self.entries@)
    }
}

impl Registry {
    /// The registry's invariant: every service name has at most one entry.
    pub closed spec fn wf(&self) -> bool {
        distinct_names(self.entries@)
    }

    /// An empty registry.
    pub fn new() -> (registry: Registry)
        ensures
            registry.wf(),
            registry@ == Map::<Seq<char>, Seq<char>>::empty(),
    {
        let registry = Registry { entries: Vec::new() };
        assert(registry@ =~= Map::<Seq<char>, Seq<char>>::empty());
        registry
    }

    /// The position of the entry for `name`, if there is one.
    fn position(&self, name: &String) -> (found: Option<usize>)
        ensures
            match found {
                Some(i) => i < self.entries@.len() && self.entries@[i as int].name@ == name@,
                None => !holds_name(self.entries@, name@),
            },
    {
        let mut i: usize = 0;
        while i < self.entries.len()
            invariant
                i <= self.entries@.len(),
                forall|j: int| 0 <= j < i ==> self.entries@[j].name@ != name@,
            decreases self.entries@.len() - i,
        {
            if self.entries[i].name == *name {
                return Some(i);
            }
            i += 1;
        }
        None
    }

    /// Records that `name` is reachable at `host`, replacing any earlier
    /// entry for `name`.
    pub fn insert(&mut self, name: String, host: String)
        requires
            old(self).wf(),
        ensures
            final(self).wf(),
            final(self)@ == old(self)@.insert(name@, host@),
    {
        let ghost before = self.entries@;
        let ghost key = name@;
        let ghost value = host@;
        match self.position(&name) {
            Some(i) => {
                self.entries.set(i, PeerRecord { name, host });
                proof {
                    let after = self.entries@;
                    assert(distinct_names(after)) by {
                        assert forall|a: int, b: int| 0 <= a < b < after.len() implies after[a].name@
                            != after[b].name@ by {
                            assert(after[a].name@ == before[a].name@);
                            assert(after[b].name@ == before[b].name@);
                        }
                    }
                    assert forall|k: Seq<char>| holds_name(after, k) == holds_name(before, k) by {
                        if holds_name(after, k) {
                            let c = index_of_name(after, k);
                            assert(before[c].name@ == k);
                        }
                        if holds_name(before, k) {
                            let c = index_of_name(before, k);
                            assert(after[c].name@ == k);
                        }
                    }
                    lemma_record_is_entry(before, i as int);
                    assert forall|k: Seq<char>| holds_name(after, k) implies records_map(after)[k]
                        == records_map(before).insert(key, value)[k] by {
                        let c = index_of_name(after, k);
                        lemma_record_is_entry(after, c);
                        lemma_record_is_entry(before, c);
                    }
                    assert(records_map(after) =~= records_map(before).insert(key, value));
                }
            },
            None => {
                self.entries.push(PeerRecord { name, host });
                proof {
                    lemma_push_record(before, self.entries@[before.len() as int]);
                    assert(self.entries@ =~= before.push(self.entries@[before.len() as int]));
                }
            },
        }
    }

    /// Forgets the entry for `name`; a name without an entry leaves the
    /// registry as it was.
    pub fn remove(&mut self, name: &str)
        requires
            old(self).wf(),
        ensures
            final(self).wf(),
            final(self)@ == old(self)@.remove(name@),
    {
        let ghost before = self.entries@;
        let ghost key = name@;
        let wanted = name.to_owned();
        match self.position(&wanted) {
            Some(i) => {
                self.entries.remove(i);
                proof {
                    let after = self.entries@;
                    assert(after =~= before.remove(i as int));
                    assert(distinct_names(after)) by {
                        assert forall|a: int, b: int| 0 <= a < b < after.len() implies after[a].name@
                            != after[b].name@ by {
                            let a0 = if a < i { a } else { a + 1 };
                            let b0 = if b < i { b } else { b + 1 };
                            assert(after[a] == before[a0]);
                            assert(after[b] == before[b0]);
                        }
                    }
                    lemma_record_is_entry(before, i as int);
                    assert forall|k: Seq<char>| holds_name(after, k) == (holds_name(before, k) && k
                        != key) by {
                        if holds_name(after, k) {
                            let c = index_of_name(after, k);
                            let c0 = if c < i { c } else { c + 1 };
                            assert(after[c] == before[c0]);
                            assert(before[c0].name@ == k);
                            assert(before[c0].name@ != before[i as int].name@);
                        }
                        if holds_name(before, k) && k != key {
                            let c = index_of_name(before, k);
                            let c1 = if c < i { c } else { c - 1 };
                            assert(after[c1] == before[c]);
                            assert(after[c1].name@ == k);
                        }
                    }
                    assert forall|k: Seq<char>| holds_name(after, k) implies records_map(after)[k]
                        == records_map(before)[k] by {
                        let c = index_of_name(after, k);
                        let c0 = if c < i { c } else { c + 1 };
                        assert(after[c] == before[c0]);
                        lemma_record_is_entry(after, c);
                        lemma_record_is_entry(before, c0);
                    }
                    assert(records_map(after) =~= records_map(before).remove(key));
                }
            },
            None => {
                assert(records_map(before) =~= records_map(before).remove(key));
            },
        }
    }

    /// The host identifier recorded for `name`, if there is one.
    pub fn get(&self, name: &str) -> (host: Option<String>)
        requires
            self.wf(),
        ensures
            match host {
                Some(h) => self@.contains_key(name@) && self@[name@] == h@,
                None => !self@.contains_key(name@),
            },
    {
        let wanted = name.to_owned();
        match self.position(&wanted) {
            Some(i) => {
                proof {
                    lemma_record_is_entry(self.entries@, i as int);
                }
                Some(self.entries[i].host.clone())
            },
            None => None,
        }
    }

    /// Whether `name` has an entry.
    pub fn contains(&self, name: &str) -> (present: bool)
        ensures
            present == self@.contains_key(name@),
    {
        let wanted = name.to_owned();
        self.position(&wanted).is_some()
    }

    /// The number of known peers: one entry per service name.
    pub fn len(&self) -> (n: usize)
        requires
            self.wf(),
        ensures
            self@.dom().finite(),
            n == self@.dom().len(),
    {
        proof {
            lemma_records_count(self.entries@);
        }
        self.entries.len()
    }

    /// Whether the registry holds no peer.
    pub fn is_empty(&self) -> (empty: bool)
        ensures
            empty == (self@ == Map::<Seq<char>, Seq<char>>::empty()),
    {
        proof {
            if self.entries@.len() == 0 {
                assert(self@ =~= Map::<Seq<char>, Seq<char>>::empty());
            } else {
                assert(holds_name(self.entries@, self.entries@[0].name@));
                assert(self@.contains_key(self.entries@[0].name@));
            }
        }
        self.entries.len() == 0
    }

    /// A copy of the current contents, one record per known peer.
    pub fn snapshot(&self) -> (records: Vec<PeerRecord>)
        requires
            self.wf(),
        ensures
            distinct_names(records@),
            records_map(records@) == self@,
            records@.len() == self@.dom().len(),
    {
        let mut records: Vec<PeerRecord> = Vec::new();
        let mut i: usize = 0;
        while i < self.entries.len()
            invariant
                i <= self.entries@.len(),
                records@ =~= self.entries@.subrange(0, i as int),
            decreases self.entries@.len() - i,
        {
            let entry = &self.entries[i];
            records.push(PeerRecord { name: entry.name.clone(), host: entry.host.clone() });
            i += 1;
        }
        assert(records@ =~= self.entries@);
        proof {
            lemma_records_count(self.entries@);
        }
        records
    }
}

} // verus!
