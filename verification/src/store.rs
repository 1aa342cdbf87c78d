//! An in-memory store with the same atomic primitives the limiter asks of a
//! shared store: increment-and-expire as one step, a plain read, a read of
//! the remaining time to live, and an explicit clock. Its behaviour is stated
//! over `StoreModel`, a map from key text to live counters.

use vstd::map::*;
use vstd::prelude::*;

verus! {

/// One live counter as the model sees it: how many requests the current
/// window has counted, and the absolute second at which the window ends.
pub struct EntryModel {
    pub count: u64,
    pub deadline: u64,
}

/// The model of the store: every live counter, keyed by its key text, and
/// the store's clock in whole seconds. A counter whose deadline has passed
/// is no longer in the map.
pub struct StoreModel {
    pub entries: Map<Seq<char>, EntryModel>,
    pub now: u64,
}

/// `a + b` in `u64`, stopping at the top of the range.
pub open spec fn sat_add64(a: u64, b: u64) -> u64 {
    if a + b > u64::MAX {
        u64::MAX
    } else {
        (a + b) as u64
    }
}

/// The counter value that one atomic check hands back: the counter after
/// the increment, or 1 when the key had no live counter.
pub open spec fn check_count(m: StoreModel, key: Seq<char>) -> u64 {
    if m.entries.contains_key(key) {
        sat_add64(m.entries[key].count, 1)
    } else {
        1
    }
}

/// The store after one atomic check of `key`: an existing live counter is
/// incremented and keeps its deadline; otherwise a fresh counter starts at 1
/// with its window ending `ttl_secs` from now. (At the very top of the clock
/// range the fresh window would end at once and no live counter remains.)
pub open spec fn check_step(m: StoreModel, key: Seq<char>, ttl_secs: u64) -> StoreModel {
    if m.entries.contains_key(key) {
        StoreModel {
            entries: m.entries.insert(
                key,
                (EntryModel {
                    count: sat_add64(m.entries[key].count, 1),
                    deadline: m.entries[key].deadline,
                }),
            ),
            now: m.now,
        }
    } else {
        let d = sat_add64(m.now, ttl_secs);
        if d > m.now {
            StoreModel {
                entries: m.entries.insert(key, (EntryModel { count: 1, deadline: d })),
                now: m.now,
            }
        } else {
            m
        }
    }
}

/// The store after the clock has moved `secs` forward: counters whose
/// deadline the new clock has reached fall out of the map.
pub open spec fn advance_model(m: StoreModel, secs: u64) -> StoreModel {
    let n2 = sat_add64(m.now, secs);
    StoreModel {
        entries: Map::new(
            |k: Seq<char>| m.entries.contains_key(k) && m.entries[k].deadline > n2,
            |k: Seq<char>| m.entries[k],
        ),
        now: n2,
    }
}

/// Every counter the model holds is live (its deadline lies ahead of the
/// clock) and lies no further ahead than a time to live can express.
pub open spec fn model_wf(m: StoreModel) -> bool {
    forall|k: Seq<char>| #[trigger]
        m.entries.contains_key(k) ==> m.now < m.entries[k].deadline <= m.now + i64::MAX
}

/// The counter value a plain read sees: 0 when no live counter exists.
pub open spec fn count_of(m: StoreModel, key: Seq<char>) -> u64 {
    if m.entries.contains_key(key) {
        m.entries[key].count
    } else {
        0
    }
}

/// The remaining time to live a read sees: the seconds until the window
/// ends, or -2 when no live counter exists.
pub open spec fn ttl_of(m: StoreModel, key: Seq<char>) -> int {
    if m.entries.contains_key(key) {
        m.entries[key].deadline - m.now
    } else {
        -2
    }
}

struct Entry {
    key: String,
    count: u64,
    deadline: u64,
}

/// An in-memory store: a list of counters, each with the key it belongs to,
/// and a clock. A counter stays in the list after its deadline has passed;
/// every operation treats such a counter as absent.
pub struct MemoryStore {
    entries: Vec<Entry>,
    now: u64,
}

spec fn entry_model(e: Entry) -> EntryModel {
    EntryModel { count: e.count, deadline: e.deadline }
}

spec fn distinct_keys(s: Seq<Entry>) -> bool {
    forall|i: int, j: int|
        0 <= i < j < s.len() ==> s[i].key@ != s[j].key@
}

spec fn live_map(s: Seq<Entry>, now: u64) -> Map<Seq<char>, EntryModel>
    decreases s.len(),
{
    if s.len() == 0 {
        Map::empty()
    } else {
        let rest = live_map(s.drop_last(), now);
        let e = s.last();
        if e.deadline > now {
            rest.insert(e.key@, entry_model(e))
        } else {
            rest
        }
    }
}

proof fn lemma_live_map_contains(s: Seq<Entry>, now: u64, key: Seq<char>)
    ensures
        live_map(s, now).contains_key(key) <==> exists|i: int|
            #![auto]
            0 <= i < s.len() && s[i].key@ == key && s[i].deadline > now,
    decreases s.len(),
{
    if s.len() == 0 {
    } else {
        let prefix = s.drop_last();
        lemma_live_map_contains(prefix, now, key);
        let e = s.last();
        assert(forall|i: int| 0 <= i < prefix.len() ==> prefix[i] == s[i]);
        if live_map(s, now).contains_key(key) {
            if e.deadline > now && e.key@ == key {
                assert(s[s.len() - 1].key@ == key && s[s.len() - 1].deadline > now);
            } else {
                let i = choose|i: int|
                    #![auto]
                    0 <= i < prefix.len() && prefix[i].key@ == key && prefix[i].deadline > now;
                assert(s[i].key@ == key && s[i].deadline > now);
            }
        }
        if exists|i: int|
            #![auto]
            0 <= i < s.len() && s[i].key@ == key && s[i].deadline > now {
            let i = choose|i: int|
                #![auto]
                0 <= i < s.len() && s[i].key@ == key && s[i].deadline > now;
            if i == s.len() - 1 {
                assert(live_map(s, now).contains_key(key));
            } else {
                assert(prefix[i].key@ == key && prefix[i].deadline > now);
                assert(live_map(s, now).contains_key(key));
            }
        }
    }
}

proof fn lemma_live_map_get(s: Seq<Entry>, now: u64, i: int)
    requires
        distinct_keys(s),
        0 <= i < s.len(),
        s[i].deadline > now,
    ensures
        live_map(s, now).contains_key(s[i].key@),
        live_map(s, now)[s[i].key@] == entry_model(s[i]),
    decreases s.len(),
{
    let prefix = s.drop_last();
    let e = s.last();
    assert(forall|j: int| 0 <= j < prefix.len() ==> prefix[j] == s[j]);
    if i == s.len() - 1 {
        assert(live_map(s, now) == live_map(prefix, now).insert(e.key@, entry_model(e)));
    } else {
        lemma_live_map_get(prefix, now, i);
        if e.deadline > now {
            assert(e.key@ != s[i].key@);
        }
    }
}

/// A counter that stands in the list but whose deadline has passed is not in
/// the model's map.
proof fn lemma_dead_entry_not_contained(s: Seq<Entry>, now: u64, i: int)
    requires
        distinct_keys(s),
        0 <= i < s.len(),
        s[i].deadline <= now,
    ensures
        !live_map(s, now).contains_key(s[i].key@),
{
    let key = s[i].key@;
    lemma_live_map_contains(s, now, key);
    if live_map(s, now).contains_key(key) {
        let j = choose|j: int|
            #![auto]
            0 <= j < s.len() && s[j].key@ == key && s[j].deadline > now;
        assert(j != i);
        if j < i {
            assert(s[j].key@ != s[i].key@);
        } else {
            assert(s[i].key@ != s[j].key@);
        }
    }
}

/// A key that no entry of the list carries is not in the model's map.
proof fn lemma_absent_key_not_contained(s: Seq<Entry>, now: u64, key: Seq<char>)
    requires
        forall|i: int| 0 <= i < s.len() ==> s[i].key@ != key,
    ensures
        !live_map(s, now).contains_key(key),
{
    lemma_live_map_contains(s, now, key);
}

/// Replacing the entry at `i` by one with the same key moves the model's map
/// to the matching insert, or drops the key when the new entry is dead.
proof fn lemma_live_map_update(s: Seq<Entry>, now: u64, i: int, e: Entry)
    requires
        distinct_keys(s),
        0 <= i < s.len(),
        e.key@ == s[i].key@,
    ensures
        live_map(s.update(i, e), now) == (if e.deadline > now {
            live_map(s, now).insert(e.key@, entry_model(e))
        } else {
            live_map(s, now).remove(e.key@)
        }),
{
    let s2 = s.update(i, e);
    let k0 = e.key@;
    assert(distinct_keys(s2));
    let lhs = live_map(s2, now);
    let rhs = if e.deadline > now {
        live_map(s, now).insert(k0, entry_model(e))
    } else {
        live_map(s, now).remove(k0)
    };
    assert_maps_equal!(lhs, rhs, k => {
        if lhs.contains_key(k) {
            lemma_live_map_contains(s2, now, k);
            let j = choose|j: int|
                #![auto]
                0 <= j < s2.len() && s2[j].key@ == k && s2[j].deadline > now;
            lemma_live_map_get(s2, now, j);
            if j == i {
                assert(k == k0 && e.deadline > now);
                assert(lhs[k] == entry_model(e));
            } else {
                assert(s2[j] == s[j]);
                assert(k != k0);
                lemma_live_map_get(s, now, j);
            }
        }
        if rhs.contains_key(k) {
            if k == k0 {
                assert(e.deadline > now);
                lemma_live_map_get(s2, now, i);
            } else {
                lemma_live_map_contains(s, now, k);
                let j = choose|j: int|
                    #![auto]
                    0 <= j < s.len() && s[j].key@ == k && s[j].deadline > now;
                assert(j != i);
                assert(s2[j] == s[j]);
                lemma_live_map_get(s2, now, j);
            }
        }
    });
}

/// Appending an entry with a key no other entry carries inserts it into the
/// model's map when it is live, and changes nothing when it is dead.
proof fn lemma_live_map_push(s: Seq<Entry>, now: u64, e: Entry)
    ensures
        live_map(s.push(e), now) == (if e.deadline > now {
            live_map(s, now).insert(e.key@, entry_model(e))
        } else {
            live_map(s, now)
        }),
{
    let s2 = s.push(e);
    assert(s2.drop_last() =~= s);
    assert(s2.last() == e);
}

/// Moving the clock forward keeps exactly the counters whose deadline the
/// new clock has not reached, unchanged.
proof fn lemma_live_map_advance(s: Seq<Entry>, now: u64, secs: u64)
    requires
        distinct_keys(s),
    ensures
        live_map(s, sat_add64(now, secs)) == advance_model(
            (StoreModel { entries: live_map(s, now), now }),
            secs,
        ).entries,
{
    let n2 = sat_add64(now, secs);
    let lhs = live_map(s, n2);
    let rhs = advance_model((StoreModel { entries: live_map(s, now), now }), secs).entries;
    assert_maps_equal!(lhs, rhs, k => {
        if lhs.contains_key(k) {
            lemma_live_map_contains(s, n2, k);
            let j = choose|j: int|
                #![auto]
                0 <= j < s.len() && s[j].key@ == k && s[j].deadline > n2;
            lemma_live_map_get(s, n2, j);
            lemma_live_map_get(s, now, j);
        }
        if rhs.contains_key(k) {
            lemma_live_map_contains(s, now, k);
            let j = choose|j: int|
                #![auto]
                0 <= j < s.len() && s[j].key@ == k && s[j].deadline > now;
            lemma_live_map_get(s, now, j);
            lemma_live_map_get(s, n2, j);
        }
    });
}

impl View for MemoryStore {
    type V = StoreModel;

    closed spec fn view(&self) -> StoreModel {
        StoreModel { entries: live_map(self.entries@, self.now), now: self.now }
    }
}

impl MemoryStore {
    /// The store is well formed: no two entries share a key, and no deadline
    /// lies further ahead of the clock than a time to live can express.
    pub closed spec fn wf(&self) -> bool {
        &&& distinct_keys(self.entries@)
        &&& forall|i: int|
            0 <= i < self.entries@.len() ==> self.entries@[i].deadline <= self.now + i64::MAX
    }

    /// A well-formed store's model only holds live counters within reach of
    /// a time to live.
    pub proof fn lemma_model_wf(&self)
        requires
            self.wf(),
        ensures
            model_wf(self@),
    {
        assert forall|k: Seq<char>| #[trigger]
            self@.entries.contains_key(k) implies self@.now < self@.entries[k].deadline
            <= self@.now + i64::MAX by {
            lemma_live_map_contains(self.entries@, self.now, k);
            let j = choose|j: int|
                #![auto]
                0 <= j < self.entries@.len() && self.entries@[j].key@ == k
                    && self.entries@[j].deadline > self.now;
            lemma_live_map_get(self.entries@, self.now, j);
        }
    }

    /// A fresh store: no counters, clock at zero.
    pub fn new() -> (r: MemoryStore)
        ensures
            r.wf(),
            r@.now == 0,
            r@.entries == Map::<Seq<char>, EntryModel>::empty(),
    {
        MemoryStore { entries: Vec::new(), now: 0 }
    }

    fn find(&self, key: &String) -> (r: Option<usize>)
        ensures
            match r {
                Some(i) => i < self.entries@.len() && self.entries@[i as int].key@ == key@,
                None => forall|i: int| 0 <= i < self.entries@.len() ==> self.entries@[i].key@
                    != key@,
            },
    {
        let n = self.entries.len();
        let mut i: usize = 0;
        while i < n
            invariant
                n == self.entries@.len(),
                i <= n,
                forall|j: int| 0 <= j < i ==> self.entries@[j].key@ != key@,
            decreases n - i,
        {
            if self.entries[i].key == *key {
                return Some(i);
            }
            i = i + 1;
        }
        None
    }

    /// The atomic check: increment the counter under `key`, starting a fresh
    /// window of `ttl_secs` when no live counter existed, and hand back the
    /// counter after the increment. This is the whole read-increment-expire
    /// sequence as one step: no caller of the same store can observe a state
    /// between the increment and the expiry.
    pub fn incr_and_expire(&mut self, key: &String, ttl_secs: u64) -> (r: u64)
        requires
            old(self).wf(),
            1 <= ttl_secs <= i64::MAX,
        ensures
            final(self).wf(),
            final(self)@ == check_step(old(self)@, key@, ttl_secs),
            r == check_count(old(self)@, key@),
    {
        let ghost s0 = self.entries@;
        let d = if self.now > u64::MAX - ttl_secs {
            u64::MAX
        } else {
            self.now + ttl_secs
        };
        match self.find(key) {
            Some(i) => {
                if self.entries[i].deadline > self.now {
                    proof {
                        lemma_live_map_get(s0, self.now, i as int);
                    }
                    let c0 = self.entries[i].count;
                    let c = if c0 == u64::MAX {
                        u64::MAX
                    } else {
                        c0 + 1
                    };
                    let k2 = self.entries[i].key.clone();
                    let deadline = self.entries[i].deadline;
                    self.entries[i] = Entry { key: k2, count: c, deadline };
                    proof {
                        lemma_live_map_update(
                            s0,
                            self.now,
                            i as int,
                            self.entries@[i as int],
                        );
                    }
                    c
                } else {
                    proof {
                        lemma_dead_entry_not_contained(s0, self.now, i as int);
                    }
                    let k2 = self.entries[i].key.clone();
                    self.entries[i] = Entry { key: k2, count: 1, deadline: d };
                    proof {
                        lemma_live_map_update(
                            s0,
                            self.now,
                            i as int,
                            self.entries@[i as int],
                        );
                        if d <= self.now {
                            assert(live_map(s0, self.now).remove(key@) =~= live_map(
                                s0,
                                self.now,
                            ));
                        }
                    }
                    1
                }
            },
            None => {
                proof {
                    lemma_absent_key_not_contained(s0, self.now, key@);
                }
                self.entries.push(Entry { key: key.clone(), count: 1, deadline: d });
                proof {
                    lemma_live_map_push(s0, self.now, self.entries@.last());
                }
                1
            },
        }
    }

    /// A plain read of the counter under `key`: `None` when no live counter
    /// exists. Does not change the store.
    pub fn get(&self, key: &String) -> (r: Option<u64>)
        requires
            self.wf(),
        ensures
            r == (if self@.entries.contains_key(key@) {
                Some(self@.entries[key@].count)
            } else {
                None::<u64>
            }),
    {
        match self.find(key) {
            Some(i) => {
                if self.entries[i].deadline > self.now {
                    proof {
                        lemma_live_map_get(self.entries@, self.now, i as int);
                    }
                    Some(self.entries[i].count)
                } else {
                    proof {
                        lemma_dead_entry_not_contained(self.entries@, self.now, i as int);
                    }
                    None
                }
            },
            None => {
                proof {
                    lemma_absent_key_not_contained(self.entries@, self.now, key@);
                }
                None
            },
        }
    }

    /// The remaining time to live of the counter under `key`, in whole
    /// seconds: positive while a window is open, -2 when no live counter
    /// exists. Does not change the store.
    pub fn get_ttl(&self, key: &String) -> (r: i64)
        requires
            self.wf(),
        ensures
            r == ttl_of(self@, key@),
    {
        match self.find(key) {
            Some(i) => {
                if self.entries[i].deadline > self.now {
                    proof {
                        lemma_live_map_get(self.entries@, self.now, i as int);
                    }
                    let diff = self.entries[i].deadline - self.now;
                    diff as i64
                } else {
                    proof {
                        lemma_dead_entry_not_contained(self.entries@, self.now, i as int);
                    }
                    -2
                }
            },
            None => {
                proof {
                    lemma_absent_key_not_contained(self.entries@, self.now, key@);
                }
                -2
            },
        }
    }

    /// Move the store's clock forward by `secs` seconds. Counters whose
    /// window has by then ended are gone.
    pub fn advance(&mut self, secs: u64)
        requires
            old(self).wf(),
        ensures
            final(self).wf(),
            final(self)@ == advance_model(old(self)@, secs),
    {
        proof {
            lemma_live_map_advance(self.entries@, self.now, secs);
        }
        self.now = if self.now > u64::MAX - secs {
            u64::MAX
        } else {
            self.now + secs
        };
    }
}

} // verus!
