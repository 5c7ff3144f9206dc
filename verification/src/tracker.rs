use vstd::prelude::*;

verus! {

/// What remembering `hash` does to the window `recent` of a tracker that holds
/// at most `capacity` hashes: a hash already present changes nothing; a new one
/// is appended, and when the window is full its oldest hash is dropped.
pub open spec fn remember(recent: Seq<u64>, capacity: nat, hash: u64) -> Seq<u64> {
    if recent.contains(hash) {
        recent
    } else if recent.len() < capacity {
        recent.push(hash)
    } else {
        recent.drop_first().push(hash)
    }
}

/// The hashes of the most recent distinct clipboard contents, oldest first,
/// bounded by a fixed capacity. Used to recognise content that this device
/// has already sent or applied, so that it is not echoed back.
pub struct HashTracker {
    recent: Vec<u64>,
    capacity: usize,
}

impl HashTracker {
    #[verifier::type_invariant]
    spec fn bounded(self) -> bool {
        &&& 0 < self.capacity
        &&& self.recent@.len() <= self.capacity
        &&& self.recent@.no_duplicates()
    }

    /// The most hashes that the tracker keeps.
    pub closed spec fn capacity(&self) -> nat {
        self.capacity as nat
    }
}

impl View for HashTracker {
    type V = Seq<u64>;

    closed spec fn view(&self) -> Seq<u64> {
        self.recent@
    }
}

impl HashTracker {
    /// An empty tracker that keeps at most `capacity` hashes.
    pub fn new(capacity: usize) -> (tracker: Self)
        requires
            capacity > 0,
        ensures
            tracker@ == Seq::<u64>::empty(),
            tracker.capacity() == capacity,
    {
        HashTracker { recent: Vec::new(), capacity }
    }

    /// Whether `hash` is among the remembered hashes.
    pub fn contains(&self, hash: u64) -> (found: bool)
        ensures
            found == self@.contains(hash),
    {
        let n = self.recent.len();
        let mut i: usize = 0;
        while i < n
            invariant
                n == self.recent@.len(),
                i <= n,
                forall|k: int| 0 <= k < i ==> self.recent@[k] != hash,
            decreases n - i,
        {
            if self.recent[i] == hash {
                return true;
            }
            i = i + 1;
        }
        false
    }

    /// Remembers `hash`, forgetting the oldest hash when the tracker is full.
    pub fn insert(&mut self, hash: u64)
        ensures
            final(self).capacity() == old(self).capacity(),
            final(self)@ == remember(old(self)@, old(self).capacity(), hash),
            final(self)@.contains(hash),
            final(self)@.len() <= final(self).capacity(),
            final(self)@.no_duplicates(),
    {
        proof { use_type_invariant(&*self); }
        if self.contains(hash) {
            return;
        }
        let ghost old_recent = self.recent@;
        let mut recent: Vec<u64> = Vec::new();
        std::mem::swap(&mut recent, &mut self.recent);
        if recent.len() >= self.capacity {
            recent.remove(0);
            assert(recent@ =~= old_recent.drop_first());
        }
        recent.push(hash);
        proof {
            assert(recent@.last() == hash);
            assert forall|a: int, b: int|
                0 <= a < recent@.len() && 0 <= b < recent@.len() && a != b implies recent@[a]
                != recent@[b] by {
                if a < recent@.len() - 1 && b < recent@.len() - 1 {
                    if old_recent.len() >= self.capacity {
                        assert(recent@[a] == old_recent[a + 1]);
                        assert(recent@[b] == old_recent[b + 1]);
                    } else {
                        assert(recent@[a] == old_recent[a]);
                        assert(recent@[b] == old_recent[b]);
                    }
                } else if a < recent@.len() - 1 {
                    let oa = if old_recent.len() >= self.capacity { a + 1 } else { a };
                    assert(recent@[a] == old_recent[oa]);
                } else {
                    let ob = if old_recent.len() >= self.capacity { b + 1 } else { b };
                    assert(recent@[b] == old_recent[ob]);
                }
            }
            assert(recent@[recent@.len() - 1] == hash);
        }
        self.recent = recent;
    }
}

/// Remembering a hash keeps a window of at most `capacity` distinct hashes
/// that holds the new hash last when it was not there; a hash leaves the
/// window only when the window was full, and then only the oldest one.
pub proof fn lemma_remember_window(recent: Seq<u64>, capacity: nat, hash: u64)
    requires
        0 < capacity,
        recent.len() <= capacity,
        recent.no_duplicates(),
    ensures
        ({
            let after = remember(recent, capacity, hash);
            &&& after.contains(hash)
            &&& after.len() <= capacity
            &&& after.no_duplicates()
            &&& forall|x: u64| #[trigger] after.contains(x) ==> recent.contains(x) || x == hash
            &&& !recent.contains(hash) ==> after.last() == hash
            &&& forall|k: int| 0 < k < recent.len() ==> after.contains(#[trigger] recent[k])
            &&& (recent.contains(hash) || recent.len() < capacity) ==> forall|x: u64|
                #[trigger] recent.contains(x) ==> after.contains(x)
        }),
{
    let after = remember(recent, capacity, hash);
    if !recent.contains(hash) {
        assert(after[after.len() - 1] == hash);
        if recent.len() < capacity {
            assert forall|x: u64| #[trigger] recent.contains(x) implies after.contains(x) by {
                let k = choose|k: int| 0 <= k < recent.len() && recent[k] == x;
                assert(after[k] == x);
            }
            assert forall|x: u64| #[trigger] after.contains(x) implies recent.contains(x) || x == hash by {
                let k = choose|k: int| 0 <= k < after.len() && after[k] == x;
                if k < recent.len() {
                    assert(recent[k] == x);
                }
            }
            assert forall|k: int| 0 <= k < recent.len() implies after.contains(#[trigger] recent[k]) by {
                assert(after[k] == recent[k]);
            }
        } else {
            assert forall|k: int| 0 < k < recent.len() implies after.contains(#[trigger] recent[k]) by {
                assert(after[k - 1] == recent[k]);
            }
            assert forall|x: u64| #[trigger] after.contains(x) implies recent.contains(x) || x == hash by {
                let k = choose|k: int| 0 <= k < after.len() && after[k] == x;
                if k < after.len() - 1 {
                    assert(recent[k + 1] == x);
                }
            }
        }
        assert forall|a: int, b: int| 0 <= a < after.len() && 0 <= b < after.len() && a != b implies after[a]
            != after[b] by {
            let shift: int = if recent.len() < capacity { 0 } else { 1 };
            if a < after.len() - 1 && b < after.len() - 1 {
                assert(after[a] == recent[a + shift]);
                assert(after[b] == recent[b + shift]);
            } else if a < after.len() - 1 {
                assert(after[a] == recent[a + shift]);
            } else if b < after.len() - 1 {
                assert(after[b] == recent[b + shift]);
            }
        }
    }
}

} // verus!
