//! The registry of peers: one record per peer id, as a map from id to
//! `Client`.
use vstd::prelude::*;
use crate::types::{Client, Endpoint, THRESHOLD};

verus! {

/// The map that a list of (id, record) pairs stands for; a later pair for
/// an id wins over an earlier one.
pub open spec fn map_of(s: Seq<(String, Client)>) -> Map<Seq<char>, Client>
    decreases s.len(),
{
    if s.len() == 0 {
        Map::empty()
    } else {
        map_of(s.drop_last()).insert(s.last().0@, s.last().1)
    }
}

/// No id occurs twice in the list.
pub open spec fn keys_unique(s: Seq<(String, Client)>) -> bool {
    forall|i: int, j: int| 0 <= i < j < s.len() ==> s[i].0@ != s[j].0@
}

/// A peer silent for longer than the threshold at time `now`.
pub open spec fn expired(c: Client, now: i64) -> bool {
    now - c.last_seen > THRESHOLD
}

/// The registry after a message from `id`, sent from `addr`, was received at
/// `now`: a new peer is recorded with that address; a known one keeps its
/// address, and its last-seen time is brought forward to `now` unless it is
/// later already, so that messages taken in out of order never move it back.
pub open spec fn upserted(m: Map<Seq<char>, Client>, id: Seq<char>, addr: Endpoint, now: i64) -> Map<
    Seq<char>,
    Client,
> {
    if m.contains_key(id) {
        m.insert(
            id,
            Client {
                address: m[id].address,
                last_seen: if m[id].last_seen < now { now } else { m[id].last_seen },
            },
        )
    } else {
        m.insert(id, Client { address: addr, last_seen: now })
    }
}

/// Whether `ids` holds the id `k`.
pub open spec fn lists(ids: Seq<String>, k: Seq<char>) -> bool {
    exists|j: int| 0 <= j < ids.len() && ids[j]@ == k
}

/// The registry with every peer expired at `now` taken out.
pub open spec fn swept(m: Map<Seq<char>, Client>, now: i64) -> Map<Seq<char>, Client> {
    Map::new(|k: Seq<char>| m.contains_key(k) && !expired(m[k], now), |k: Seq<char>| m[k])
}

proof fn lemma_map_of_dom(s: Seq<(String, Client)>, k: Seq<char>)
    ensures
        map_of(s).contains_key(k) <==> exists|i: int| 0 <= i < s.len() && s[i].0@ == k,
    decreases s.len(),
{
    if s.len() > 0 {
        lemma_map_of_dom(s.drop_last(), k);
        if map_of(s).contains_key(k) && k != s.last().0@ {
            let i = choose|i: int| 0 <= i < s.len() - 1 && s.drop_last()[i].0@ == k;
            assert(s[i].0@ == k);
        }
        if exists|i: int| 0 <= i < s.len() && s[i].0@ == k {
            let i = choose|i: int| 0 <= i < s.len() && s[i].0@ == k;
            if i < s.len() - 1 {
                assert(s.drop_last()[i].0@ == k);
            }
        }
    }
}

proof fn lemma_map_of_at(s: Seq<(String, Client)>, i: int)
    requires
        keys_unique(s),
        0 <= i < s.len(),
    ensures
        map_of(s).contains_key(s[i].0@),
        map_of(s)[s[i].0@] == s[i].1,
    decreases s.len(),
{
    if i < s.len() - 1 {
        assert(keys_unique(s.drop_last()));
        lemma_map_of_at(s.drop_last(), i);
        assert(s.drop_last()[i] == s[i]);
    }
}

proof fn lemma_map_of_update(s: Seq<(String, Client)>, i: int, e: (String, Client))
    requires
        keys_unique(s),
        0 <= i < s.len(),
        e.0@ == s[i].0@,
    ensures
        keys_unique(s.update(i, e)),
        map_of(s.update(i, e)) == map_of(s).insert(e.0@, e.1),
{
    let t = s.update(i, e);
    assert forall|k: Seq<char>| #[trigger] map_of(t).contains_key(k) == map_of(s).insert(e.0@, e.1).contains_key(k) by {
        lemma_map_of_dom(t, k);
        lemma_map_of_dom(s, k);
        if exists|j: int| 0 <= j < s.len() && s[j].0@ == k {
            let j = choose|j: int| 0 <= j < s.len() && s[j].0@ == k;
            assert(t[j].0@ == k);
        }
    }
    assert forall|k: Seq<char>| #[trigger] map_of(t).contains_key(k) implies map_of(t)[k] == map_of(s).insert(e.0@, e.1)[k] by {
        lemma_map_of_dom(t, k);
        let j = choose|j: int| 0 <= j < t.len() && t[j].0@ == k;
        lemma_map_of_at(t, j);
        if j != i {
            lemma_map_of_at(s, j);
        }
    }
    assert(map_of(t) =~= map_of(s).insert(e.0@, e.1));
}

/// The peers that a node knows of.
pub struct Registry {
    entries: Vec<(String, Client)>,
}

impl View for Registry {
    type V = Map<Seq<char>, Client>;

    closed spec fn view(&self) -> Map<Seq<char>, Client> {
        map_of(self.entries@)
    }
}

impl Registry {
    /// Each id has one record.
    pub closed spec fn wf(&self) -> bool {
        keys_unique(self.entries@)
    }

    /// An empty registry.
    pub fn new() -> (r: Registry)
        ensures
            r.wf(),
            r@ == Map::<Seq<char>, Client>::empty(),
    {
        Registry { entries: Vec::new() }
    }

    /// The number of peers recorded.
    pub fn len(&self) -> (r: usize)
        requires
            self.wf(),
        ensures
            r == self@.len(),
    {
        proof {
            self.lemma_len();
        }
        self.entries.len()
    }

    proof fn lemma_len(&self)
        requires
            self.wf(),
        ensures
            self@.len() == self.entries@.len(),
            self@.dom().finite(),
    {
        let s = self.entries@;
        let keys = Set::new(|i: int| 0 <= i < s.len());
        assert(keys == vstd::set_lib::set_int_range(0, s.len() as int));
        vstd::set_lib::lemma_int_range(0, s.len() as int);
        let f = |i: int| s[i].0@;
        assert forall|k: Seq<char>| #[trigger] self@.contains_key(k) == keys.map(f).contains(k) by {
            lemma_map_of_dom(s, k);
            if self@.contains_key(k) {
                let i = choose|i: int| 0 <= i < s.len() && s[i].0@ == k;
                assert(keys.contains(i));
            }
        }
        assert(self@.dom() =~= keys.map(f));
        vstd::set_lib::lemma_map_size(keys, keys.map(f), f);
    }

    /// Where the record of `id` stands in the list, if there is one.
    fn find(&self, id: &String) -> (r: Option<usize>)
        requires
            self.wf(),
        ensures
            match r {
                Some(i) => i < self.entries@.len() && self.entries@[i as int].0@ == id@,
                None => !self@.contains_key(id@),
            },
    {
        let mut i: usize = 0;
        while i < self.entries.len()
            invariant
                i <= self.entries@.len(),
                forall|j: int| 0 <= j < i ==> self.entries@[j].0@ != id@,
            decreases self.entries@.len() - i,
        {
            if self.entries[i].0 == *id {
                return Some(i);
            }
            i = i + 1;
        }
        proof {
            lemma_map_of_dom(self.entries@, id@);
        }
        None
    }

    /// Whether `id` is recorded.
    pub fn contains(&self, id: &String) -> (r: bool)
        requires
            self.wf(),
        ensures
            r == self@.contains_key(id@),
    {
        match self.find(id) {
            Some(i) => {
                proof {
                    lemma_map_of_at(self.entries@, i as int);
                }
                true
            },
            None => false,
        }
    }

    /// The record of `id`, if there is one.
    pub fn get(&self, id: &String) -> (r: Option<Client>)
        requires
            self.wf(),
        ensures
            r == if self@.contains_key(id@) {
                Some(self@[id@])
            } else {
                None::<Client>
            },
    {
        match self.find(id) {
            Some(i) => {
                proof {
                    lemma_map_of_at(self.entries@, i as int);
                }
                Some(self.entries[i].1)
            },
            None => None,
        }
    }

    /// Records that `id` was heard from at `addr` at time `now`: a new peer
    /// is inserted, a known one refreshed.
    pub fn upsert(&mut self, id: String, addr: Endpoint, now: i64)
        requires
            old(self).wf(),
        ensures
            final(self).wf(),
            final(self)@ == upserted(old(self)@, id@, addr, now),
    {
        match self.find(&id) {
            Some(i) => {
                let c = self.entries[i].1;
                let last_seen = if c.last_seen < now { now } else { c.last_seen };
                let e = (id, Client { address: c.address, last_seen });
                proof {
                    lemma_map_of_at(self.entries@, i as int);
                    lemma_map_of_update(self.entries@, i as int, e);
                }
                self.entries.set(i, e);
            },
            None => {
                proof {
                    assert forall|j: int| 0 <= j < self.entries@.len() implies self.entries@[j].0@ != id@ by {
                        lemma_map_of_dom(self.entries@, id@);
                    }
                }
                let e = (id, Client { address: addr, last_seen: now });
                self.entries.push(e);
                proof {
                    assert(self.entries@.drop_last() =~= old(self).entries@);
                }
            },
        }
    }

    /// Takes out every peer expired at `now` and returns the ids taken out.
    pub fn sweep(&mut self, now: i64) -> (removed: Vec<String>)
        requires
            old(self).wf(),
        ensures
            final(self).wf(),
            final(self)@ == swept(old(self)@, now),
            forall|k: Seq<char>|
                #[trigger] lists(removed@, k) <==> (old(self)@.contains_key(k) && expired(
                    old(self)@[k],
                    now,
                )),
    {
        let ghost s = self.entries@;
        let mut kept: Vec<(String, Client)> = Vec::new();
        let mut removed: Vec<String> = Vec::new();
        // where each kept or removed id came from, and where each one went
        let ghost mut src: Seq<int> = Seq::empty();
        let ghost mut rsrc: Seq<int> = Seq::empty();
        let ghost mut at: Seq<int> = Seq::empty();
        let mut i: usize = 0;
        while i < self.entries.len()
            invariant
                s == self.entries@,
                keys_unique(s),
                i <= s.len(),
                src.len() == kept@.len(),
                rsrc.len() == removed@.len(),
                at.len() == i,
                forall|a: int, b: int| 0 <= a < b < src.len() ==> src[a] < src[b],
                forall|m: int|
                    0 <= m < src.len() ==> 0 <= #[trigger] src[m] < i && kept@[m].0@ == s[src[m]].0@
                        && kept@[m].1 == s[src[m]].1 && !expired(s[src[m]].1, now),
                forall|m: int|
                    0 <= m < rsrc.len() ==> 0 <= #[trigger] rsrc[m] < i && removed@[m]@
                        == s[rsrc[m]].0@ && expired(s[rsrc[m]].1, now),
                forall|j: int|
                    0 <= j < i ==> if expired(s[j].1, now) {
                        0 <= #[trigger] at[j] < rsrc.len() && rsrc[at[j]] == j
                    } else {
                        0 <= at[j] < src.len() && src[at[j]] == j
                    },
            decreases s.len() - i,
        {
            let c = self.entries[i].1;
            let id = self.entries[i].0.clone();
            if (now as i128) - (c.last_seen as i128) > THRESHOLD as i128 {
                proof {
                    at = at.push(rsrc.len() as int);
                    rsrc = rsrc.push(i as int);
                }
                removed.push(id);
            } else {
                proof {
                    at = at.push(src.len() as int);
                    src = src.push(i as int);
                }
                kept.push((id, c));
            }
            i = i + 1;
        }
        proof {
            let m0 = map_of(s);
            let m1 = map_of(kept@);
            assert(keys_unique(kept@)) by {
                assert forall|a: int, b: int| 0 <= a < b < kept@.len() implies kept@[a].0@
                    != kept@[b].0@ by {
                    assert(src[a] < src[b]);
                }
            }
            assert forall|k: Seq<char>| #[trigger] m1.contains_key(k) == swept(m0, now).contains_key(k) by {
                lemma_map_of_dom(kept@, k);
                lemma_map_of_dom(s, k);
                if m1.contains_key(k) {
                    let m = choose|m: int| 0 <= m < kept@.len() && kept@[m].0@ == k;
                    assert(src[m] == src[m]);
                    lemma_map_of_at(s, src[m]);
                }
                if swept(m0, now).contains_key(k) {
                    let j = choose|j: int| 0 <= j < s.len() && s[j].0@ == k;
                    lemma_map_of_at(s, j);
                    assert(at[j] == at[j]);
                    assert(kept@[at[j]].0@ == k);
                }
            }
            assert forall|k: Seq<char>| #[trigger] m1.contains_key(k) implies m1[k] == swept(m0, now)[k] by {
                lemma_map_of_dom(kept@, k);
                let m = choose|m: int| 0 <= m < kept@.len() && kept@[m].0@ == k;
                assert(src[m] == src[m]);
                lemma_map_of_at(s, src[m]);
                lemma_map_of_at(kept@, m);
            }
            assert(m1 =~= swept(m0, now));
            assert forall|k: Seq<char>|
                #[trigger] lists(removed@, k) <==> (m0.contains_key(k) && expired(m0[k], now)) by {
                lemma_map_of_dom(s, k);
                if exists|j: int| 0 <= j < removed@.len() && #[trigger] removed@[j]@ == k {
                    let m = choose|m: int| 0 <= m < removed@.len() && #[trigger] removed@[m]@ == k;
                    assert(rsrc[m] == rsrc[m]);
                    lemma_map_of_at(s, rsrc[m]);
                }
                if m0.contains_key(k) && expired(m0[k], now) {
                    let j = choose|j: int| 0 <= j < s.len() && s[j].0@ == k;
                    lemma_map_of_at(s, j);
                    assert(at[j] == at[j]);
                    assert(removed@[at[j]]@ == k);
                }
            }
        }
        self.entries = kept;
        removed
    }
}

} // verus!
