//! A registry: a map from textual handles to entries, with unique keys.
use vstd::prelude::*;
use vstd::string::StringSliceAdditionalSpecFns;
use vstd::utf8::encode_utf8_decode_utf8;

verus! {

/// Whether two texts are equal, decided byte by byte.
fn same_text(a: &str, b: &str) -> (r: bool)
    ensures
        r == (a@ == b@),
{
    let x = a.as_bytes();
    let y = b.as_bytes();
    if x.len() != y.len() {
        return false;
    }
    let n = x.len();
    let mut i: usize = 0;
    while i < n
        invariant
            n == x@.len(),
            n == y@.len(),
            x@ == a.spec_bytes(),
            y@ == b.spec_bytes(),
            i <= n,
            forall|k: int| 0 <= k < i ==> x@[k] == y@[k],
        decreases n - i,
    {
        if x[i] != y[i] {
            return false;
        }
        i = i + 1;
    }
    proof {
        assert(x@ =~= y@);
        encode_utf8_decode_utf8(a@);
        encode_utf8_decode_utf8(b@);
    }
    true
}

/// Entries keyed by handle. The keys of `entries` are pairwise distinct, and
/// `map` is the mapping they spell.
pub struct Registry<T> {
    entries: Vec<(String, T)>,
    map: Ghost<Map<Seq<char>, T>>,
}

impl<T> View for Registry<T> {
    type V = Map<Seq<char>, T>;

    closed spec fn view(&self) -> Map<Seq<char>, T> {
        self.map@
    }
}

impl<T> Registry<T> {
    /// Keys are unique and the entries spell exactly the mapping `self@`.
    pub closed spec fn wf(&self) -> bool {
        &&& forall|i: int, j: int|
            0 <= i < j < self.entries@.len() ==> #[trigger] self.entries@[i].0@
                != #[trigger] self.entries@[j].0@
        &&& forall|i: int|
            #![trigger self.entries@[i]]
            0 <= i < self.entries@.len() ==> self.map@.contains_key(self.entries@[i].0@)
                && self.map@[self.entries@[i].0@] == self.entries@[i].1
        &&& forall|k: Seq<char>|
            #[trigger] self.map@.contains_key(k) ==> exists|i: int|
                0 <= i < self.entries@.len() && #[trigger] self.entries@[i].0@ == k
    }

    /// An empty registry.
    pub fn new() -> (r: Self)
        ensures
            r.wf(),
            r@ == Map::<Seq<char>, T>::empty(),
    {
        Registry { entries: Vec::new(), map: Ghost(Map::empty()) }
    }

    /// The number of entries.
    pub fn len(&self) -> (r: usize)
        requires
            self.wf(),
        ensures
            r == self@.len(),
    {
        proof {
            self.lemma_len();
        }
        self.entries.len()
    }

    proof fn lemma_len(&self)
        requires
            self.wf(),
        ensures
            self@.len() == self.entries@.len(),
    {
        let keys = Seq::new(self.entries@.len(), |i: int| self.entries@[i].0@);
        assert forall|i: int, j: int| 0 <= i < j < keys.len() implies keys[i] != keys[j] by {
            assert(self.entries@[i].0@ != self.entries@[j].0@);
        }
        keys.unique_seq_to_set();
        assert(keys.to_set() =~= self.map@.dom()) by {
            assert forall|k: Seq<char>| self.map@.contains_key(k) implies keys.contains(k) by {
                let i = choose|i: int|
                    0 <= i < self.entries@.len() && #[trigger] self.entries@[i].0@ == k;
                assert(keys[i] == k);
            }
            assert forall|k: Seq<char>| keys.contains(k) implies self.map@.contains_key(k) by {
                let i = choose|i: int| 0 <= i < keys.len() && keys[i] == k;
                assert(self.entries@[i].0@ == k);
            }
        }
    }

    fn find(&self, h: &str) -> (r: Option<usize>)
        requires
            self.wf(),
        ensures
            match r {
                Some(i) => i < self.entries@.len() && self.entries@[i as int].0@ == h@,
                None => !self@.contains_key(h@),
            },
    {
        let mut i: usize = 0;
        while i < self.entries.len()
            invariant
                self.wf(),
                i <= self.entries@.len(),
                forall|k: int| 0 <= k < i ==> #[trigger] self.entries@[k].0@ != h@,
            decreases self.entries@.len() - i,
        {
            if same_text(self.entries[i].0.as_str(), h) {
                return Some(i);
            }
            i = i + 1;
        }
        None
    }

    /// Whether `h` names an entry.
    pub fn contains(&self, h: &str) -> (r: bool)
        requires
            self.wf(),
        ensures
            r == self@.contains_key(h@),
    {
        match self.find(h) {
            Some(_) => true,
            None => false,
        }
    }

    /// The entry that `h` names, if any.
    pub fn get(&self, h: &str) -> (r: Option<&T>)
        requires
            self.wf(),
        ensures
            match r {
                Some(v) => self@.contains_key(h@) && *v == self@[h@],
                None => !self@.contains_key(h@),
            },
    {
        match self.find(h) {
            Some(i) => Some(&self.entries[i].1),
            None => None,
        }
    }

    /// Puts `v` under `h`, in place of any entry that `h` named before.
    pub fn insert(&mut self, h: String, v: T)
        requires
            old(self).wf(),
        ensures
            final(self).wf(),
            final(self)@ == old(self)@.insert(h@, v),
    {
        let ghost key = h@;
        let ghost m = self.map@.insert(key, v);
        match self.find(h.as_str()) {
            Some(i) => {
                self.entries.set(i, (h, v));
                self.map = Ghost(m);
                assert forall|k: Seq<char>| #[trigger] self.map@.contains_key(k) implies exists|
                    j: int,
                | 0 <= j < self.entries@.len() && #[trigger] self.entries@[j].0@ == k by {
                    if k == key {
                        assert(self.entries@[i as int].0@ == k);
                    } else {
                        let j = choose|j: int|
                            0 <= j < old(self).entries@.len() && #[trigger] old(
                                self,
                            ).entries@[j].0@ == k;
                        assert(self.entries@[j].0@ == k);
                    }
                }
            },
            None => {
                let ghost n = self.entries@.len();
                self.entries.push((h, v));
                self.map = Ghost(m);
                assert forall|k: Seq<char>| #[trigger] self.map@.contains_key(k) implies exists|
                    j: int,
                | 0 <= j < self.entries@.len() && #[trigger] self.entries@[j].0@ == k by {
                    if k == key {
                        assert(self.entries@[n as int].0@ == k);
                    } else {
                        let j = choose|j: int|
                            0 <= j < old(self).entries@.len() && #[trigger] old(
                                self,
                            ).entries@[j].0@ == k;
                        assert(self.entries@[j].0@ == k);
                    }
                }
            },
        }
    }

    /// Takes out the entry that `h` names, if any, with its key.
    pub fn remove(&mut self, h: &str) -> (r: Option<(String, T)>)
        requires
            old(self).wf(),
        ensures
            final(self).wf(),
            match r {
                Some(kv) => old(self)@.contains_key(h@) && kv.0@ == h@ && kv.1 == old(self)@[h@]
                    && final(self)@
                    == old(self)@.remove(h@),
                None => !old(self)@.contains_key(h@) && final(self)@ == old(self)@,
            },
    {
        match self.find(h) {
            Some(i) => {
                let ghost old_entries = self.entries@;
                let ghost last = (self.entries@.len() - 1) as int;
                let ghost m = self.map@.remove(h@);
                let (k, v) = self.entries.swap_remove(i);
                self.map = Ghost(m);
                assert forall|a: int, b: int|
                    0 <= a < b < self.entries@.len() implies #[trigger] self.entries@[a].0@
                    != #[trigger] self.entries@[b].0@ by {
                    let oa = if a == i { last } else { a };
                    let ob = if b == i { last } else { b };
                    assert(old_entries[oa].0@ != old_entries[ob].0@);
                }
                assert forall|a: int| #![trigger self.entries@[a]] 0 <= a < self.entries@.len()
                    implies self.map@.contains_key(self.entries@[a].0@) && self.map@[self.entries@[
                    a].0@] == self.entries@[a].1 by {
                    let oa = if a == i { last } else { a };
                    assert(old_entries[oa] == self.entries@[a]);
                    assert(old_entries[oa].0@ != old_entries[i as int].0@);
                }
                assert forall|k: Seq<char>| #[trigger] self.map@.contains_key(k) implies exists|
                    j: int,
                | 0 <= j < self.entries@.len() && #[trigger] self.entries@[j].0@ == k by {
                    let j = choose|j: int|
                        0 <= j < old_entries.len() && #[trigger] old_entries[j].0@ == k;
                    if j == last {
                        assert(self.entries@[i as int].0@ == k);
                    } else {
                        assert(self.entries@[j].0@ == k);
                    }
                }
                Some((k, v))
            },
            None => None,
        }
    }
}

} // verus!
