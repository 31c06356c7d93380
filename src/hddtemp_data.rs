use crate::hddtemp_result::HDDTempResult;
use crate::hddtemp_units::HDDTempUnits;
use crate::text::same_text;
use vstd::prelude::*;

verus! {

/// Latest status of one device.
#[derive(Debug, Clone, PartialEq, Eq, PartialOrd, Ord, Default)]
pub struct HDDTempData {
    pub model: String,
    pub result: HDDTempResult,
    pub temperature: Option<u64>,
    pub units: Option<HDDTempUnits>,
}

/// Mathematical value of an `HDDTempData`.
pub struct DeviceStatus {
    pub model: Seq<char>,
    pub result: HDDTempResult,
    pub temperature: Option<u64>,
    pub units: Option<HDDTempUnits>,
}

impl View for HDDTempData {
    type V = DeviceStatus;

    open spec fn view(&self) -> DeviceStatus {
        DeviceStatus {
            model: self.model@,
            result: self.result,
            temperature: self.temperature,
            units: self.units,
        }
    }
}

/// The view of one table entry.
pub open spec fn entry_view(e: (String, HDDTempData)) -> (Seq<char>, DeviceStatus) {
    (e.0@, e.1@)
}

/// The map that inserting `entries` in order into an empty map gives: a later
/// entry replaces an earlier one with the same key.
pub open spec fn map_of(entries: Seq<(Seq<char>, DeviceStatus)>) -> Map<Seq<char>, DeviceStatus>
    decreases entries.len(),
{
    if entries.len() == 0 {
        Map::empty()
    } else {
        map_of(entries.drop_last()).insert(entries.last().0, entries.last().1)
    }
}

/// The value that `map_of` holds for the key of entry `j` is entry `j`'s own
/// value when no later entry has that key.
pub proof fn lemma_map_of_last_wins(entries: Seq<(Seq<char>, DeviceStatus)>, j: int)
    requires
        0 <= j < entries.len(),
        forall|l: int| j < l < entries.len() ==> #[trigger] entries[l].0 != entries[j].0,
    ensures
        map_of(entries).contains_key(entries[j].0),
        map_of(entries)[entries[j].0] == entries[j].1,
    decreases entries.len(),
{
    if j < entries.len() - 1 {
        let rest = entries.drop_last();
        assert forall|l: int| j < l < rest.len() implies #[trigger] rest[l].0 != rest[j].0 by {
            assert(rest[l] == entries[l]);
        }
        lemma_map_of_last_wins(rest, j);
        assert(entries[entries.len() - 1].0 != entries[j].0);
    }
}

/// No key occurs twice.
pub open spec fn keys_unique(entries: Seq<(Seq<char>, DeviceStatus)>) -> bool {
    forall|i: int, j: int|
        0 <= i < j < entries.len() ==> #[trigger] entries[i].0 != #[trigger] entries[j].0
}

/// Replacing the value of a key that occurs once is inserting it again.
proof fn lemma_map_of_update(entries: Seq<(Seq<char>, DeviceStatus)>, i: int, v: DeviceStatus)
    requires
        keys_unique(entries),
        0 <= i < entries.len(),
    ensures
        map_of(entries.update(i, (entries[i].0, v))) == map_of(entries).insert(entries[i].0, v),
    decreases entries.len(),
{
    let upd = entries.update(i, (entries[i].0, v));
    let k = entries[i].0;
    if i == entries.len() - 1 {
        assert(upd.drop_last() =~= entries.drop_last());
        assert(map_of(upd) =~= map_of(entries).insert(k, v));
    } else {
        let rest = entries.drop_last();
        assert(upd.drop_last() =~= rest.update(i, (rest[i].0, v)));
        lemma_map_of_update(rest, i, v);
        assert(entries.last().0 != k);
        assert(map_of(upd) =~= map_of(entries).insert(k, v));
    }
}

/// Device identifiers with their records, each identifier once, in the order
/// in which they were first inserted.
pub struct DeviceTable {
    entries: Vec<(String, HDDTempData)>,
}

impl DeviceTable {
    /// The entries' views, in order.
    pub closed spec fn entries_view(&self) -> Seq<(Seq<char>, DeviceStatus)> {
        self.entries@.map_values(|e: (String, HDDTempData)| entry_view(e))
    }

    /// Keys are unique.
    pub closed spec fn wf(&self) -> bool {
        keys_unique(self.entries_view())
    }

    /// An empty table.
    pub fn new() -> (t: DeviceTable)
        ensures
            t.wf(),
            t@ == Map::<Seq<char>, DeviceStatus>::empty(),
    {
        let t = DeviceTable { entries: Vec::new() };
        assert(t.entries_view() =~= Seq::empty());
        t
    }

    /// Number of devices.
    pub fn len(&self) -> (n: usize)
        requires
            self.wf(),
        ensures
            n == self@.len(),
    {
        proof {
            self.lemma_dom();
        }
        self.entries.len()
    }

    /// The domain of the view is the set of keys, one per entry.
    proof fn lemma_dom(&self)
        requires
            self.wf(),
        ensures
            self@.dom().finite(),
            self@.len() == self.entries@.len(),
            self.entries_view().len() == self.entries@.len(),
            forall|i: int| 0 <= i < self.entries@.len() ==>
                #[trigger] self.entries_view()[i] == entry_view(self.entries@[i]),
            forall|k: Seq<char>| #[trigger] self@.contains_key(k) <==> exists|i: int|
                0 <= i < self.entries_view().len() && self.entries_view()[i].0 == k,
            forall|i: int| 0 <= i < self.entries_view().len() ==>
                #[trigger] self@[self.entries_view()[i].0] == self.entries_view()[i].1,
    {
        lemma_map_of_facts(self.entries_view());
    }

    /// Stores `data` under `device`, replacing what was stored there.
    pub fn insert(&mut self, device: String, data: HDDTempData)
        requires
            old(self).wf(),
        ensures
            final(self).wf(),
            final(self)@ == old(self)@.insert(device@, data@),
    {
        let ghost ev = self.entries_view();
        let n = self.entries.len();
        let mut i: usize = 0;
        while i < n
            invariant
                n == self.entries@.len(),
                0 <= i <= n,
                ev == self.entries_view(),
                ev == old(self).entries_view(),
                keys_unique(ev),
                forall|j: int| 0 <= j < i ==> self.entries@[j].0@ != device@,
            decreases n - i,
        {
            if same_text(self.entries[i].0.as_str(), device.as_str()) {
                assert(ev[i as int] == entry_view(self.entries@[i as int]));
                assert(ev[i as int].0 == device@);
                proof {
                    lemma_map_of_update(ev, i as int, data@);
                }
                self.entries.set(i, (device, data));
                assert(self.entries_view() =~= ev.update(i as int, (ev[i as int].0, data@)));
                return;
            }
            i = i + 1;
        }
        let ghost e = (device@, data@);
        self.entries.push((device, data));
        assert(self.entries_view() =~= ev.push(e));
        assert(self.entries_view().drop_last() =~= ev);
        assert forall|a: int, b: int| 0 <= a < b < self.entries_view().len() implies
            #[trigger] self.entries_view()[a].0 != #[trigger] self.entries_view()[b].0 by {
            if b == n {
                assert(self.entries_view()[a] == entry_view(self.entries@[a]));
            }
        }
    }

    /// The record stored under `device`, if any.
    pub fn get(&self, device: &str) -> (r: Option<&HDDTempData>)
        requires
            self.wf(),
        ensures
            match r {
                Some(d) => self@.contains_key(device@) && d@ == self@[device@],
                None => !self@.contains_key(device@),
            },
    {
        proof {
            self.lemma_dom();
        }
        let n = self.entries.len();
        let mut i: usize = 0;
        while i < n
            invariant
                n == self.entries@.len(),
                0 <= i <= n,
                self.wf(),
                forall|j: int| 0 <= j < i ==> self.entries@[j].0@ != device@,
            decreases n - i,
        {
            if same_text(self.entries[i].0.as_str(), device) {
                proof {
                    self.lemma_dom();
                }
                assert(self.entries_view()[i as int] == entry_view(self.entries@[i as int]));
                assert(self@[self.entries_view()[i as int].0] == self.entries_view()[i as int].1);
                assert(self@.contains_key(self.entries_view()[i as int].0));
                return Some(&self.entries[i].1);
            }
            i = i + 1;
        }
        None
    }

    /// The entries, in insertion order.
    pub fn into_entries(self) -> (r: Vec<(String, HDDTempData)>)
        requires
            self.wf(),
        ensures
            keys_unique(r@.map_values(|e: (String, HDDTempData)| entry_view(e))),
            map_of(r@.map_values(|e: (String, HDDTempData)| entry_view(e))) == self@,
    {
        self.entries
    }
}

impl View for DeviceTable {
    type V = Map<Seq<char>, DeviceStatus>;

    closed spec fn view(&self) -> Map<Seq<char>, DeviceStatus> {
        map_of(self.entries_view())
    }
}

/// With unique keys, `map_of` has one key per entry and maps it to that entry's value.
proof fn lemma_map_of_facts(s: Seq<(Seq<char>, DeviceStatus)>)
    requires
        keys_unique(s),
    ensures
        map_of(s).dom().finite(),
        map_of(s).len() == s.len(),
        forall|k: Seq<char>| #[trigger] map_of(s).contains_key(k) <==> exists|i: int|
            0 <= i < s.len() && s[i].0 == k,
        forall|i: int| 0 <= i < s.len() ==> #[trigger] map_of(s)[s[i].0] == s[i].1,
    decreases s.len(),
{
    if s.len() > 0 {
        let r = s.drop_last();
        lemma_map_of_facts(r);
        let k = s.last().0;
        assert(!map_of(r).contains_key(k)) by {
            if map_of(r).contains_key(k) {
                let i = choose|i: int| 0 <= i < r.len() && r[i].0 == k;
                assert(s[i].0 == s[s.len() - 1].0);
            }
        }
        assert forall|k2: Seq<char>| #[trigger] map_of(s).contains_key(k2) <==> exists|i: int|
            0 <= i < s.len() && s[i].0 == k2 by {
            if map_of(s).contains_key(k2) && k2 != k {
                let i = choose|i: int| 0 <= i < r.len() && r[i].0 == k2;
                assert(s[i].0 == k2);
            }
            if exists|i: int| 0 <= i < s.len() && s[i].0 == k2 {
                let i = choose|i: int| 0 <= i < s.len() && s[i].0 == k2;
                if i < s.len() - 1 {
                    assert(r[i].0 == k2);
                }
            }
        }
        assert forall|i: int| 0 <= i < s.len() implies #[trigger] map_of(s)[s[i].0] == s[i].1 by {
            if i < s.len() - 1 {
                assert(r[i] == s[i]);
                assert(s[i].0 != k);
            }
        }
    }
}

} // verus!
