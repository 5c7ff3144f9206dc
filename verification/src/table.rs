use vstd::prelude::*;

use crate::types::PeerIp;

verus! {

/// No address occurs twice among the keys of `s`.
pub open spec fn keys_distinct<V>(s: Seq<(PeerIp, V)>) -> bool {
    forall|i: int, j: int|
        0 <= i < s.len() && 0 <= j < s.len() && i != j ==> #[trigger] s[i].0 != #[trigger] s[j].0
}

/// Some entry of `s` has the key `ip`.
pub open spec fn has_key<V>(s: Seq<(PeerIp, V)>, ip: PeerIp) -> bool {
    exists|i: int| 0 <= i < s.len() && #[trigger] s[i].0 == ip
}

/// The map that a sequence of keyed entries denotes.
pub open spec fn pairs_to_map<V>(s: Seq<(PeerIp, V)>) -> Map<PeerIp, V> {
    Map::new(
        |ip: PeerIp| has_key(s, ip),
        |ip: PeerIp| s[choose|i: int| 0 <= i < s.len() && #[trigger] s[i].0 == ip].1,
    )
}

/// Each entry of a table whose keys are distinct is what the table maps its key to.
pub proof fn lemma_entry_in_map<V>(s: Seq<(PeerIp, V)>, j: int)
    requires
        keys_distinct(s),
        0 <= j < s.len(),
    ensures
        pairs_to_map(s).contains_key(s[j].0),
        pairs_to_map(s)[s[j].0] == s[j].1,
{
    let ip = s[j].0;
    assert(has_key(s, ip));
    let k = choose|i: int| 0 <= i < s.len() && #[trigger] s[i].0 == ip;
    assert(k == j);
}

/// A table keyed by peer address, kept in the order in which keys first arrived.
pub struct PeerTable<V> {
    entries: Vec<(PeerIp, V)>,
}

impl<V> PeerTable<V> {
    #[verifier::type_invariant]
    spec fn distinct_keys(self) -> bool {
        keys_distinct(self.entries@)
    }

    /// The entries in table order.
    pub closed spec fn pairs(&self) -> Seq<(PeerIp, V)> {
        self.entries@
    }
}

impl<V> View for PeerTable<V> {
    type V = Map<PeerIp, V>;

    closed spec fn view(&self) -> Map<PeerIp, V> {
        pairs_to_map(self.entries@)
    }
}

proof fn lemma_update<V>(s: Seq<(PeerIp, V)>, j: int, value: V)
    requires
        keys_distinct(s),
        0 <= j < s.len(),
    ensures
        keys_distinct(s.update(j, (s[j].0, value))),
        pairs_to_map(s.update(j, (s[j].0, value))) == pairs_to_map(s).insert(s[j].0, value),
{
    let t = s.update(j, (s[j].0, value));
    let ip = s[j].0;
    assert(keys_distinct(t)) by {
        assert forall|a: int, b: int|
            0 <= a < t.len() && 0 <= b < t.len() && a != b implies #[trigger] t[a].0 != #[trigger] t[b].0 by {
            assert(t[a].0 == s[a].0);
            assert(t[b].0 == s[b].0);
        }
    }
    let lhs = pairs_to_map(t);
    let rhs = pairs_to_map(s).insert(ip, value);
    assert forall|k: PeerIp| #[trigger] lhs.contains_key(k) <==> rhs.contains_key(k) by {
        if has_key(t, k) {
            let m = choose|m: int| 0 <= m < t.len() && #[trigger] t[m].0 == k;
            assert(s[m].0 == k);
        }
        if has_key(s, k) {
            let m = choose|m: int| 0 <= m < s.len() && #[trigger] s[m].0 == k;
            assert(t[m].0 == k);
        }
    }
    assert forall|k: PeerIp| #[trigger] lhs.contains_key(k) implies lhs[k] == rhs[k] by {
        let m = choose|m: int| 0 <= m < t.len() && #[trigger] t[m].0 == k;
        lemma_entry_in_map(t, m);
        if m != j {
            assert(s[m] == t[m]);
            lemma_entry_in_map(s, m);
        }
    }
    assert(lhs =~= rhs);
}

proof fn lemma_push<V>(s: Seq<(PeerIp, V)>, ip: PeerIp, value: V)
    requires
        keys_distinct(s),
        !has_key(s, ip),
    ensures
        keys_distinct(s.push((ip, value))),
        pairs_to_map(s.push((ip, value))) == pairs_to_map(s).insert(ip, value),
{
    let t = s.push((ip, value));
    assert(keys_distinct(t)) by {
        assert forall|a: int, b: int|
            0 <= a < t.len() && 0 <= b < t.len() && a != b implies #[trigger] t[a].0 != #[trigger] t[b].0 by {
            if a < s.len() && b < s.len() {
                assert(t[a] == s[a] && t[b] == s[b]);
            } else if a < s.len() {
                assert(t[a] == s[a]);
            } else {
                assert(t[b] == s[b]);
            }
        }
    }
    let lhs = pairs_to_map(t);
    let rhs = pairs_to_map(s).insert(ip, value);
    assert forall|k: PeerIp| #[trigger] lhs.contains_key(k) <==> rhs.contains_key(k) by {
        if has_key(t, k) {
            let m = choose|m: int| 0 <= m < t.len() && #[trigger] t[m].0 == k;
            if m < s.len() {
                assert(s[m].0 == k);
            }
        }
        if has_key(s, k) {
            let m = choose|m: int| 0 <= m < s.len() && #[trigger] s[m].0 == k;
            assert(t[m].0 == k);
        }
        if k == ip {
            assert(t[s.len() as int].0 == k);
        }
    }
    assert forall|k: PeerIp| #[trigger] lhs.contains_key(k) implies lhs[k] == rhs[k] by {
        let m = choose|m: int| 0 <= m < t.len() && #[trigger] t[m].0 == k;
        lemma_entry_in_map(t, m);
        if m < s.len() {
            assert(s[m] == t[m]);
            lemma_entry_in_map(s, m);
        }
    }
    assert(lhs =~= rhs);
}

proof fn lemma_remove<V>(s: Seq<(PeerIp, V)>, j: int)
    requires
        keys_distinct(s),
        0 <= j < s.len(),
    ensures
        keys_distinct(s.remove(j)),
        pairs_to_map(s.remove(j)) == pairs_to_map(s).remove(s[j].0),
{
    let t = s.remove(j);
    let ip = s[j].0;
    assert forall|a: int| 0 <= a < t.len() implies #[trigger] t[a] == (if a < j { s[a] } else { s[a + 1] }) by {}
    assert(keys_distinct(t)) by {
        assert forall|a: int, b: int|
            0 <= a < t.len() && 0 <= b < t.len() && a != b implies #[trigger] t[a].0 != #[trigger] t[b].0 by {
            let sa = if a < j { a } else { a + 1 };
            let sb = if b < j { b } else { b + 1 };
            assert(t[a] == s[sa]);
            assert(t[b] == s[sb]);
        }
    }
    let lhs = pairs_to_map(t);
    let rhs = pairs_to_map(s).remove(ip);
    assert forall|k: PeerIp| #[trigger] lhs.contains_key(k) <==> rhs.contains_key(k) by {
        if has_key(t, k) {
            let m = choose|m: int| 0 <= m < t.len() && #[trigger] t[m].0 == k;
            let sm = if m < j { m } else { m + 1 };
            assert(t[m] == s[sm]);
            assert(s[sm].0 == k);
        }
        if has_key(s, k) && k != ip {
            let m = choose|m: int| 0 <= m < s.len() && #[trigger] s[m].0 == k;
            let tm = if m < j { m } else { m - 1 };
            assert(t[tm] == s[m]);
            assert(t[tm].0 == k);
        }
    }
    assert forall|k: PeerIp| #[trigger] lhs.contains_key(k) implies lhs[k] == rhs[k] by {
        let m = choose|m: int| 0 <= m < t.len() && #[trigger] t[m].0 == k;
        lemma_entry_in_map(t, m);
        let sm = if m < j { m } else { m + 1 };
        assert(t[m] == s[sm]);
        lemma_entry_in_map(s, sm);
    }
    assert(lhs =~= rhs);
}

/// Position of the entry with key `ip` in `entries`, if any.
fn find_key<V>(entries: &Vec<(PeerIp, V)>, ip: PeerIp) -> (pos: Option<usize>)
    ensures
        match pos {
            Some(j) => j < entries@.len() && entries@[j as int].0 == ip,
            None => !has_key(entries@, ip),
        },
{
    let n = entries.len();
    let mut i: usize = 0;
    while i < n
        invariant
            n == entries@.len(),
            i <= n,
            forall|k: int| 0 <= k < i ==> #[trigger] entries@[k].0 != ip,
        decreases n - i,
    {
        if entries[i].0 == ip {
            return Some(i);
        }
        i = i + 1;
    }
    None
}

impl<V> PeerTable<V> {
    /// An empty table.
    pub fn new() -> (table: Self)
        ensures
            table@ == Map::<PeerIp, V>::empty(),
            table.pairs() == Seq::<(PeerIp, V)>::empty(),
    {
        let table = PeerTable { entries: Vec::new() };
        assert(table@ =~= Map::<PeerIp, V>::empty());
        table
    }

    /// Inserts `value` under `ip`, replacing and returning the previous value.
    pub fn insert(&mut self, ip: PeerIp, value: V) -> (previous: Option<V>)
        ensures
            final(self)@ == old(self)@.insert(ip, value),
            match previous {
                Some(v) => old(self)@.contains_key(ip) && v == old(self)@[ip],
                None => !old(self)@.contains_key(ip),
            },
    {
        proof { use_type_invariant(&*self); }
        let ghost old_entries = self.entries@;
        let mut entries: Vec<(PeerIp, V)> = Vec::new();
        std::mem::swap(&mut entries, &mut self.entries);
        let result = match find_key(&entries, ip) {
            Some(j) => {
                proof {
                    lemma_entry_in_map(old_entries, j as int);
                    lemma_update(old_entries, j as int, value);
                }
                let (_, old_value) = entries.remove(j);
                entries.insert(j, (ip, value));
                assert(entries@ =~= old_entries.update(j as int, (ip, value)));
                Some(old_value)
            },
            None => {
                proof {
                    lemma_push(old_entries, ip, value);
                }
                entries.push((ip, value));
                None
            },
        };
        self.entries = entries;
        result
    }

    /// Number of entries.
    pub fn len(&self) -> (n: usize)
        ensures
            n == self@.len(),
            n == self.pairs().len(),
    {
        proof {
            use_type_invariant(self);
            let keys = self.entries@.map_values(|p: (PeerIp, V)| p.0);
            assert(keys.no_duplicates());
            keys.unique_seq_to_set();
            assert forall|k: PeerIp| #[trigger] self@.dom().contains(k) <==> keys.to_set().contains(k) by {
                if has_key(self.entries@, k) {
                    let m = choose|m: int| 0 <= m < self.entries@.len() && #[trigger] self.entries@[m].0 == k;
                    assert(keys[m] == k);
                }
                if keys.contains(k) {
                    let m = choose|m: int| 0 <= m < keys.len() && keys[m] == k;
                    assert(self.entries@[m].0 == k);
                }
            }
            assert(self@.dom() =~= keys.to_set());
        }
        self.entries.len()
    }

    /// The value stored under `ip`, if any.
    pub fn get(&self, ip: PeerIp) -> (value: Option<&V>)
        ensures
            match value {
                Some(v) => self@.contains_key(ip) && *v == self@[ip],
                None => !self@.contains_key(ip),
            },
    {
        proof { use_type_invariant(self); }
        match find_key(&self.entries, ip) {
            Some(j) => {
                proof { lemma_entry_in_map(self.entries@, j as int); }
                Some(&self.entries[j].1)
            },
            None => None,
        }
    }

    /// Whether some entry has the key `ip`.
    pub fn contains_key(&self, ip: PeerIp) -> (found: bool)
        ensures
            found == self@.contains_key(ip),
    {
        match self.get(ip) {
            Some(_) => true,
            None => false,
        }
    }

    /// Removes the entry for `ip` and returns its value, if there was one.
    pub fn remove(&mut self, ip: PeerIp) -> (removed: Option<V>)
        ensures
            final(self)@ == old(self)@.remove(ip),
            match removed {
                Some(v) => old(self)@.contains_key(ip) && v == old(self)@[ip],
                None => !old(self)@.contains_key(ip),
            },
    {
        proof { use_type_invariant(&*self); }
        let ghost old_entries = self.entries@;
        let mut entries: Vec<(PeerIp, V)> = Vec::new();
        std::mem::swap(&mut entries, &mut self.entries);
        let result = match find_key(&entries, ip) {
            Some(j) => {
                proof {
                    lemma_entry_in_map(old_entries, j as int);
                    lemma_remove(old_entries, j as int);
                }
                let (_, value) = entries.remove(j);
                Some(value)
            },
            None => {
                assert(pairs_to_map(old_entries).remove(ip) =~= pairs_to_map(old_entries));
                None
            },
        };
        self.entries = entries;
        result
    }

    /// Removes every entry.
    pub fn clear(&mut self)
        ensures
            final(self)@ == Map::<PeerIp, V>::empty(),
            final(self).pairs() == Seq::<(PeerIp, V)>::empty(),
    {
        let mut entries: Vec<(PeerIp, V)> = Vec::new();
        std::mem::swap(&mut entries, &mut self.entries);
        assert(pairs_to_map(self.entries@) =~= Map::<PeerIp, V>::empty());
    }

    /// The entries in table order: their keys are distinct and they are exactly
    /// what the table maps each key to.
    pub fn entries(&self) -> (entries: &Vec<(PeerIp, V)>)
        ensures
            entries@ == self.pairs(),
            keys_distinct(entries@),
            self@ == pairs_to_map(entries@),
    {
        proof { use_type_invariant(self); }
        &self.entries
    }
}

} // verus!
