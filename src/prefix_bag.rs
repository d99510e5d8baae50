//! A mapping from hierarchical addresses to values, with longest-prefix lookup
//! that respects path boundaries.
use vstd::prelude::*;
use vstd::string::*;

verus! {

/// `addr` equals `key`, or lies below it: it starts with `key` followed by `/`.
pub open spec fn is_path_prefix(key: Seq<char>, addr: Seq<char>) -> bool {
    addr == key || (key.len() < addr.len() && addr.subrange(0, key.len() as int) == key
        && addr[key.len() as int] == '/')
}

/// `key` is stored in `m` and covers `addr`.
pub open spec fn covers<T>(m: Map<Seq<char>, T>, addr: Seq<char>, key: Seq<char>) -> bool {
    m.contains_key(key) && is_path_prefix(key, addr)
}

/// `key` is the longest stored key that covers `addr`.
pub open spec fn is_longest_match<T>(m: Map<Seq<char>, T>, addr: Seq<char>, key: Seq<char>) -> bool {
    &&& covers(m, addr, key)
    &&& forall|k: Seq<char>| #[trigger] covers(m, addr, k) ==> k.len() <= key.len()
}

/// The key that a lookup of `addr` selects, if any key covers `addr`.
pub open spec fn longest_match<T>(m: Map<Seq<char>, T>, addr: Seq<char>) -> Option<Seq<char>> {
    if exists|k: Seq<char>| is_longest_match(m, addr, k) {
        Some(choose|k: Seq<char>| is_longest_match(m, addr, k))
    } else {
        None
    }
}

/// A key that covers an address is the address's prefix of the key's length.
pub proof fn lemma_path_prefix_is_prefix(key: Seq<char>, addr: Seq<char>)
    requires
        is_path_prefix(key, addr),
    ensures
        key.len() <= addr.len(),
        key == addr.subrange(0, key.len() as int),
{
    if addr == key {
        assert(key =~= addr.subrange(0, key.len() as int));
    }
}

/// At most one key is the longest match of an address.
pub proof fn lemma_longest_match_unique<T>(
    m: Map<Seq<char>, T>,
    addr: Seq<char>,
    k1: Seq<char>,
    k2: Seq<char>,
)
    requires
        is_longest_match(m, addr, k1),
        is_longest_match(m, addr, k2),
    ensures
        k1 == k2,
{
    assert(covers(m, addr, k1));
    assert(covers(m, addr, k2));
    lemma_path_prefix_is_prefix(k1, addr);
    lemma_path_prefix_is_prefix(k2, addr);
}

/// Whether `addr` equals `key` or lies below it.
pub fn is_path_prefix_exec(key: &str, addr: &str) -> (r: bool)
    ensures
        r == is_path_prefix(key@, addr@),
{
    let kl = key.unicode_len();
    let al = addr.unicode_len();
    if kl > al {
        return false;
    }
    let mut i: usize = 0;
    while i < kl
        invariant
            kl == key@.len(),
            al == addr@.len(),
            kl <= al,
            i <= kl,
            forall|j: int| 0 <= j < i ==> key@[j] == addr@[j],
        decreases kl - i,
    {
        if key.get_char(i) != addr.get_char(i) {
            assert(addr@.subrange(0, kl as int)[i as int] != key@[i as int]);
            assert(addr@ != key@ ==> addr@.subrange(0, kl as int) != key@);
            return false;
        }
        i += 1;
    }
    assert(addr@.subrange(0, kl as int) =~= key@);
    if kl == al {
        assert(addr@ =~= key@);
        true
    } else {
        addr.get_char(kl) == '/'
    }
}

/// Values stored under addresses. The view maps each stored address to its
/// value; at most one value is stored per address.
pub struct PrefixLookupBag<T> {
    entries: Vec<(String, T)>,
    contents: Ghost<Map<Seq<char>, T>>,
}

impl<T> View for PrefixLookupBag<T> {
    type V = Map<Seq<char>, T>;

    closed spec fn view(&self) -> Map<Seq<char>, T> {
        self.contents@
    }
}

impl<T> PrefixLookupBag<T> {
    /// Each stored address appears once, and the entries are exactly the view.
    pub closed spec fn wf(&self) -> bool {
        &&& forall|i: int, j: int|
            0 <= i < j < self.entries@.len() ==> #[trigger] self.entries@[i].0@
                != #[trigger] self.entries@[j].0@
        &&& forall|i: int|
            0 <= i < self.entries@.len() ==> self.contents@.contains_key(
                #[trigger] self.entries@[i].0@,
            ) && self.contents@[self.entries@[i].0@] == self.entries@[i].1
        &&& forall|k: Seq<char>|
            #[trigger] self.contents@.contains_key(k) ==> exists|i: int|
                0 <= i < self.entries@.len() && self.entries@[i].0@ == k
    }

    pub fn new() -> (r: Self)
        ensures
            r.wf(),
            r@ == Map::<Seq<char>, T>::empty(),
    {
        PrefixLookupBag { entries: Vec::new(), contents: Ghost(Map::empty()) }
    }

    /// The number of stored addresses.
    pub fn len(&self) -> (r: usize)
        requires
            self.wf(),
        ensures
            r == self@.len(),
    {
        proof {
            self.lemma_len();
        }
        self.entries.len()
    }

    proof fn lemma_len(&self)
        requires
            self.wf(),
        ensures
            self@.dom().finite(),
            self@.len() == self.entries@.len(),
    {
        let keys = self.entries@.map_values(|e: (String, T)| e.0@);
        assert forall|i: int, j: int| 0 <= i < j < keys.len() implies keys[i] != keys[j] by {
            assert(self.entries@[i].0@ != self.entries@[j].0@);
        }
        assert(keys.no_duplicates());
        assert(keys.to_set() =~= self@.dom()) by {
            assert forall|k: Seq<char>| self@.dom().contains(k) implies keys.to_set().contains(
                k,
            ) by {
                let i = choose|i: int| 0 <= i < self.entries@.len() && self.entries@[i].0@ == k;
                assert(keys[i] == k);
            }
            assert forall|k: Seq<char>| keys.to_set().contains(k) implies self@.dom().contains(
                k,
            ) by {
                let i = choose|i: int| 0 <= i < keys.len() && keys[i] == k;
                assert(self.contents@.contains_key(self.entries@[i].0@));
            }
        }
        keys.unique_seq_to_set();
    }

    /// A well-formed bag holds finitely many addresses.
    pub proof fn lemma_finite(&self)
        requires
            self.wf(),
        ensures
            self@.dom().finite(),
    {
        self.lemma_len();
    }

    /// The index of the entry stored under `key`, if there is one.
    fn find(&self, key: &String) -> (r: Option<usize>)
        requires
            self.wf(),
        ensures
            match r {
                Some(i) => i < self.entries@.len() && self.entries@[i as int].0@ == key@,
                None => forall|i: int|
                    0 <= i < self.entries@.len() ==> self.entries@[i].0@ != key@,
            },
            r is None <==> !self@.contains_key(key@),
    {
        let mut i: usize = 0;
        while i < self.entries.len()
            invariant
                self.wf(),
                i <= self.entries@.len(),
                forall|j: int| 0 <= j < i ==> self.entries@[j].0@ != key@,
            decreases self.entries@.len() - i,
        {
            if self.entries[i].0 == *key {
                assert(self.contents@.contains_key(self.entries@[i as int].0@));
                return Some(i);
            }
            i += 1;
        }
        None
    }

    /// Whether a value is stored under exactly `key`.
    pub fn contains_key(&self, key: &String) -> (r: bool)
        requires
            self.wf(),
        ensures
            r == self@.contains_key(key@),
    {
        self.find(key).is_some()
    }

    /// The value stored under exactly `key`, if any.
    pub fn get_exact(&self, key: &String) -> (r: Option<&T>)
        requires
            self.wf(),
        ensures
            match r {
                Some(v) => self@.contains_key(key@) && *v == self@[key@],
                None => !self@.contains_key(key@),
            },
    {
        match self.find(key) {
            Some(i) => Some(&self.entries[i].1),
            None => None,
        }
    }

    /// Stores `value` under `key`, replacing any value stored there before,
    /// which is returned.
    pub fn insert(&mut self, key: String, value: T) -> (r: Option<T>)
        requires
            old(self).wf(),
        ensures
            final(self).wf(),
            final(self)@ == old(self)@.insert(key@, value),
            r == (if old(self)@.contains_key(key@) {
                Some(old(self)@[key@])
            } else {
                None
            }),
    {
        let ghost old_entries = self.entries@;
        let ghost new_contents = self.contents@.insert(key@, value);
        match self.find(&key) {
            Some(i) => {
                let (_k, prev) = self.entries.remove(i);
                self.entries.push((key, value));
                self.contents = Ghost(new_contents);
                proof {
                    let n = old_entries.len();
                    assert(self.entries@.len() == n);
                    assert forall|j: int| 0 <= j < n - 1 implies #[trigger] self.entries@[j] == (
                    if j < i {
                        old_entries[j]
                    } else {
                        old_entries[j + 1]
                    }) by {}
                    assert forall|a: int, b: int|
                        0 <= a < b < self.entries@.len() implies #[trigger] self.entries@[a].0@
                        != #[trigger] self.entries@[b].0@ by {
                        if b == n - 1 {
                            if a < i {
                                assert(old_entries[a].0@ != old_entries[i as int].0@);
                            } else {
                                assert(old_entries[i as int].0@ != old_entries[a + 1].0@);
                            }
                        } else {
                            let oa = if a < i {
                                a
                            } else {
                                a + 1
                            };
                            let ob = if b < i {
                                b
                            } else {
                                b + 1
                            };
                            assert(old_entries[oa].0@ != old_entries[ob].0@);
                        }
                    }
                    assert forall|j: int| 0 <= j < self.entries@.len() implies self.contents@.contains_key(
                        #[trigger] self.entries@[j].0@,
                    ) && self.contents@[self.entries@[j].0@] == self.entries@[j].1 by {
                        if j < n - 1 {
                            let oj = if j < i {
                                j
                            } else {
                                j + 1
                            };
                            assert(old_entries[oj].0@ != old_entries[i as int].0@);
                            assert(old(self).contents@.contains_key(old_entries[oj].0@));
                        }
                    }
                    assert forall|k: Seq<char>| #[trigger]
                        self.contents@.contains_key(k) implies exists|j: int|
                        0 <= j < self.entries@.len() && self.entries@[j].0@ == k by {
                        if k == key@ {
                            assert(self.entries@[n - 1].0@ == k);
                        } else {
                            assert(old(self).contents@.contains_key(k));
                            let oj = choose|oj: int|
                                0 <= oj < old_entries.len() && old_entries[oj].0@ == k;
                            assert(oj != i);
                            let j = if oj < i {
                                oj
                            } else {
                                oj - 1
                            };
                            assert(self.entries@[j].0@ == k);
                        }
                    }
                    assert(prev == old(self).contents@[key@]);
                }
                Some(prev)
            },
            None => {
                self.entries.push((key, value));
                self.contents = Ghost(new_contents);
                proof {
                    let n = old_entries.len();
                    assert forall|j: int| 0 <= j < n implies #[trigger] self.entries@[j]
                        == old_entries[j] by {}
                    assert forall|a: int, b: int|
                        0 <= a < b < self.entries@.len() implies #[trigger] self.entries@[a].0@
                        != #[trigger] self.entries@[b].0@ by {
                        if b < n {
                            assert(old_entries[a].0@ != old_entries[b].0@);
                        }
                    }
                    assert forall|j: int| 0 <= j < self.entries@.len() implies self.contents@.contains_key(
                        #[trigger] self.entries@[j].0@,
                    ) && self.contents@[self.entries@[j].0@] == self.entries@[j].1 by {
                        if j < n {
                            assert(old(self).contents@.contains_key(old_entries[j].0@));
                        }
                    }
                    assert forall|k: Seq<char>| #[trigger]
                        self.contents@.contains_key(k) implies exists|j: int|
                        0 <= j < self.entries@.len() && self.entries@[j].0@ == k by {
                        if k == key@ {
                            assert(self.entries@[n as int].0@ == k);
                        } else {
                            assert(old(self).contents@.contains_key(k));
                            let oj = choose|oj: int|
                                0 <= oj < old_entries.len() && old_entries[oj].0@ == k;
                            assert(self.entries@[oj].0@ == k);
                        }
                    }
                }
                None
            },
        }
    }
    /// Removes the value stored under `key`, if any, and returns it.
    pub fn remove(&mut self, key: &String) -> (r: Option<T>)
        requires
            old(self).wf(),
        ensures
            final(self).wf(),
            final(self)@ == old(self)@.remove(key@),
            r == (if old(self)@.contains_key(key@) {
                Some(old(self)@[key@])
            } else {
                None
            }),
    {
        let ghost old_entries = self.entries@;
        match self.find(key) {
            Some(i) => {
                let (_k, prev) = self.entries.remove(i);
                self.contents = Ghost(self.contents@.remove(key@));
                proof {
                    let n = old_entries.len();
                    assert forall|j: int| 0 <= j < n - 1 implies #[trigger] self.entries@[j] == (
                    if j < i {
                        old_entries[j]
                    } else {
                        old_entries[j + 1]
                    }) by {}
                    assert forall|a: int, b: int|
                        0 <= a < b < self.entries@.len() implies #[trigger] self.entries@[a].0@
                        != #[trigger] self.entries@[b].0@ by {
                        let oa = if a < i {
                            a
                        } else {
                            a + 1
                        };
                        let ob = if b < i {
                            b
                        } else {
                            b + 1
                        };
                        assert(old_entries[oa].0@ != old_entries[ob].0@);
                    }
                    assert forall|j: int| 0 <= j < self.entries@.len() implies self.contents@.contains_key(
                        #[trigger] self.entries@[j].0@,
                    ) && self.contents@[self.entries@[j].0@] == self.entries@[j].1 by {
                        let oj = if j < i {
                            j
                        } else {
                            j + 1
                        };
                        assert(old_entries[oj].0@ != old_entries[i as int].0@);
                        assert(old(self).contents@.contains_key(old_entries[oj].0@));
                    }
                    assert forall|k: Seq<char>| #[trigger]
                        self.contents@.contains_key(k) implies exists|j: int|
                        0 <= j < self.entries@.len() && self.entries@[j].0@ == k by {
                        assert(old(self).contents@.contains_key(k));
                        let oj = choose|oj: int|
                            0 <= oj < old_entries.len() && old_entries[oj].0@ == k;
                        assert(oj != i);
                        let j = if oj < i {
                            oj
                        } else {
                            oj - 1
                        };
                        assert(self.entries@[j].0@ == k);
                    }
                }
                Some(prev)
            },
            None => {
                assert(self.contents@.remove(key@) =~= self.contents@);
                None
            },
        }
    }

    /// Every stored address, once each.
    pub fn keys(&self) -> (r: Vec<String>)
        requires
            self.wf(),
        ensures
            forall|i: int| 0 <= i < r@.len() ==> self@.contains_key(#[trigger] r@[i]@),
            forall|k: Seq<char>| #[trigger]
                self@.contains_key(k) ==> exists|i: int| 0 <= i < r@.len() && r@[i]@ == k,
            forall|i: int, j: int| 0 <= i < j < r@.len() ==> #[trigger] r@[i]@ != #[trigger] r@[j]@,
    {
        let mut r: Vec<String> = Vec::new();
        let mut i: usize = 0;
        while i < self.entries.len()
            invariant
                self.wf(),
                i <= self.entries@.len(),
                r@.len() == i,
                forall|j: int| 0 <= j < i ==> #[trigger] r@[j]@ == self.entries@[j].0@,
            decreases self.entries@.len() - i,
        {
            r.push(self.entries[i].0.clone());
            i += 1;
        }
        proof {
            assert forall|a: int| 0 <= a < r@.len() implies self@.contains_key(
                #[trigger] r@[a]@,
            ) by {
                assert(self.contents@.contains_key(self.entries@[a].0@));
            }
            assert forall|k: Seq<char>| #[trigger] self@.contains_key(k) implies exists|a: int|
                0 <= a < r@.len() && r@[a]@ == k by {
                let a = choose|a: int| 0 <= a < self.entries@.len() && self.entries@[a].0@ == k;
                assert(r@[a]@ == k);
            }
            assert forall|a: int, b: int| 0 <= a < b < r@.len() implies #[trigger] r@[a]@
                != #[trigger] r@[b]@ by {
                assert(self.entries@[a].0@ != self.entries@[b].0@);
            }
        }
        r
    }

    /// The value stored under the longest address that covers `addr`: the
    /// address itself, or a prefix of it that ends where a `/` follows.
    pub fn get(&self, addr: &str) -> (r: Option<&T>)
        requires
            self.wf(),
        ensures
            match longest_match(self@, addr@) {
                Some(k) => r matches Some(v) && *v == self@[k],
                None => r is None,
            },
    {
        let mut best: Option<usize> = None;
        let mut i: usize = 0;
        while i < self.entries.len()
            invariant
                self.wf(),
                i <= self.entries@.len(),
                match best {
                    Some(b) => {
                        &&& b < i
                        &&& is_path_prefix(self.entries@[b as int].0@, addr@)
                        &&& forall|j: int|
                            0 <= j < i && is_path_prefix(#[trigger] self.entries@[j].0@, addr@)
                                ==> self.entries@[j].0@.len() <= self.entries@[b as int].0@.len()
                    },
                    None => forall|j: int|
                        0 <= j < i ==> !is_path_prefix(#[trigger] self.entries@[j].0@, addr@),
                },
            decreases self.entries@.len() - i,
        {
            if is_path_prefix_exec(self.entries[i].0.as_str(), addr) {
                match best {
                    Some(b) => {
                        if self.entries[i].0.as_str().unicode_len() > self.entries[b].0.as_str().unicode_len() {
                            best = Some(i);
                        }
                    },
                    None => {
                        best = Some(i);
                    },
                }
            }
            i += 1;
        }
        match best {
            Some(b) => {
                proof {
                    let key = self.entries@[b as int].0@;
                    assert(self.contents@.contains_key(key));
                    assert forall|k: Seq<char>| #[trigger] covers(self@, addr@, k) implies k.len()
                        <= key.len() by {
                        let j = choose|j: int| 0 <= j < self.entries@.len() && self.entries@[j].0@ == k;
                        assert(is_path_prefix(self.entries@[j].0@, addr@));
                    }
                    assert(is_longest_match(self@, addr@, key));
                    let c = choose|k: Seq<char>| is_longest_match(self@, addr@, k);
                    lemma_longest_match_unique(self@, addr@, c, key);
                }
                Some(&self.entries[b].1)
            },
            None => {
                proof {
                    assert forall|k: Seq<char>| !is_longest_match(self@, addr@, k) by {
                        if covers(self@, addr@, k) {
                            let j = choose|j: int| 0 <= j < self.entries@.len() && self.entries@[j].0@ == k;
                            assert(!is_path_prefix(self.entries@[j].0@, addr@));
                        }
                    }
                }
                None
            },
        }
    }
}

} // verus!
