use vstd::prelude::*;

verus! {

/// One registered actor: the device name it serves, the id the daemon gave it
/// when it was spawned, and the sender of its command channel.
pub struct Entry<S> {
    pub name: String,
    pub actor: u64,
    pub sender: S,
}

/// The shared map from device name to the command sender of that device's
/// actor. At most one entry per name.
pub struct Registry<S> {
    entries: Vec<Entry<S>>,
    contents: Ghost<Map<Seq<char>, (u64, S)>>,
}

impl<S> View for Registry<S> {
    type V = Map<Seq<char>, (u64, S)>;

    closed spec fn view(&self) -> Map<Seq<char>, (u64, S)> {
        self.contents@
    }
}

impl<S> Registry<S> {
    /// The entries agree with the map, one entry per name.
    pub closed spec fn wf(&self) -> bool {
        let es = self.entries@;
        let m = self.contents@;
        &&& forall|i: int, j: int|
            0 <= i < j < es.len() ==> #[trigger] es[i].name@ != #[trigger] es[j].name@
        &&& forall|i: int|
            0 <= i < es.len() ==> m.contains_key(#[trigger] es[i].name@) && m[es[i].name@] == (
                es[i].actor,
                es[i].sender,
            )
        &&& forall|k: Seq<char>|
            #[trigger] m.contains_key(k) ==> exists|i: int| 0 <= i < es.len() && es[i].name@ == k
    }

    /// An empty registry.
    pub fn new() -> (r: Registry<S>)
        ensures
            r.wf(),
            r@ == Map::<Seq<char>, (u64, S)>::empty(),
    {
        Registry { entries: Vec::new(), contents: Ghost(Map::empty()) }
    }

    /// The number of registered actors.
    pub fn len(&self) -> (r: usize)
        requires
            self.wf(),
        ensures
            r == self@.len(),
    {
        proof {
            self.lemma_len();
        }
        self.entries.len()
    }

    proof fn lemma_len(&self)
        requires
            self.wf(),
        ensures
            self@.len() == self.entries@.len(),
            self@.dom().finite(),
        decreases self.entries@.len(),
    {
        let es = self.entries@;
        let names = es.map_values(|e: Entry<S>| e.name@);
        assert forall|i: int, j: int| 0 <= i < j < names.len() implies names[i] != names[j] by {
            assert(es[i].name@ != es[j].name@);
        }
        assert(names.no_duplicates());
        names.unique_seq_to_set();
        assert(self@.dom() =~= names.to_set()) by {
            assert forall|k: Seq<char>| self@.dom().contains(k) implies names.to_set().contains(k) by {
                let i = choose|i: int| 0 <= i < es.len() && es[i].name@ == k;
                assert(names[i] == k);
            }
            assert forall|k: Seq<char>| names.to_set().contains(k) implies self@.dom().contains(k) by {
                let i = choose|i: int| 0 <= i < names.len() && names[i] == k;
                assert(self@.contains_key(es[i].name@));
            }
        }
    }

    /// The index of the entry for `name`, if any.
    fn find(&self, name: &String) -> (r: Option<usize>)
        requires
            self.wf(),
        ensures
            match r {
                Some(i) => i < self.entries@.len() && self.entries@[i as int].name@ == name@,
                None => !self@.contains_key(name@),
            },
    {
        let mut i: usize = 0;
        while i < self.entries.len()
            invariant
                self.wf(),
                i <= self.entries@.len(),
                forall|j: int| 0 <= j < i ==> self.entries@[j].name@ != name@,
            decreases self.entries@.len() - i,
        {
            if self.entries[i].name == *name {
                return Some(i);
            }
            i = i + 1;
        }
        None
    }

    /// The sender registered under `name`, if any.
    pub fn get(&self, name: &String) -> (r: Option<&S>)
        requires
            self.wf(),
        ensures
            r is Some <==> self@.contains_key(name@),
            r is Some ==> *r->Some_0 == self@[name@].1,
    {
        match self.find(name) {
            Some(i) => Some(&self.entries[i].sender),
            None => None,
        }
    }

    proof fn lemma_remove_at(old_r: &Self, new_r: &Self, i: int)
        requires
            old_r.wf(),
            0 <= i < old_r.entries@.len(),
            new_r.entries@ == old_r.entries@.remove(i),
            new_r.contents@ == old_r.contents@.remove(old_r.entries@[i].name@),
        ensures
            new_r.wf(),
    {
        let es = old_r.entries@;
        let ns = new_r.entries@;
        let k0 = es[i].name@;
        assert forall|a: int, b: int| 0 <= a < b < ns.len() implies #[trigger] ns[a].name@
            != #[trigger] ns[b].name@ by {
            let a2 = if a < i { a } else { a + 1 };
            let b2 = if b < i { b } else { b + 1 };
            assert(ns[a] == es[a2] && ns[b] == es[b2]);
            assert(es[a2].name@ != es[b2].name@);
        }
        assert forall|a: int| 0 <= a < ns.len() implies new_r.contents@.contains_key(
            #[trigger] ns[a].name@,
        ) && new_r.contents@[ns[a].name@] == (ns[a].actor, ns[a].sender) by {
            let a2 = if a < i { a } else { a + 1 };
            assert(ns[a] == es[a2]);
            assert(es[a2].name@ != es[i].name@);
        }
        assert forall|k: Seq<char>| #[trigger] new_r.contents@.contains_key(k) implies exists|
            a: int,
        | 0 <= a < ns.len() && ns[a].name@ == k by {
            let a2 = choose|a2: int| 0 <= a2 < es.len() && es[a2].name@ == k;
            assert(a2 != i);
            let a = if a2 < i { a2 } else { a2 - 1 };
            assert(ns[a] == es[a2]);
        }
    }

    /// Removes the entry for `name` and hands back its actor id and sender.
    pub fn remove(&mut self, name: &String) -> (r: Option<(u64, S)>)
        requires
            old(self).wf(),
        ensures
            final(self).wf(),
            final(self)@ == old(self)@.remove(name@),
            r is Some <==> old(self)@.contains_key(name@),
            r is Some ==> r->Some_0 == old(self)@[name@],
    {
        match self.find(name) {
            Some(i) => {
                let ghost before = *self;
                let e = self.entries.remove(i);
                self.contents = Ghost(self.contents@.remove(name@));
                proof {
                    Self::lemma_remove_at(&before, self, i as int);
                }
                Some((e.actor, e.sender))
            },
            None => {
                assert(self@.remove(name@) =~= self@);
                None
            },
        }
    }

    /// Removes the entry for `name` only if it still belongs to `actor`; an
    /// actor calls this in cleanup, so that it never removes the entry of a
    /// newer actor for the same device. Returns whether an entry was removed.
    pub fn remove_own(&mut self, name: &String, actor: u64) -> (r: bool)
        requires
            old(self).wf(),
        ensures
            final(self).wf(),
            r == (old(self)@.contains_key(name@) && old(self)@[name@].0 == actor),
            r ==> final(self)@ == old(self)@.remove(name@),
            !r ==> final(self)@ == old(self)@,
            !(final(self)@.contains_key(name@) && final(self)@[name@].0 == actor),
    {
        match self.find(name) {
            Some(i) => {
                if self.entries[i].actor == actor {
                    let ghost before = *self;
                    let _e = self.entries.remove(i);
                    self.contents = Ghost(self.contents@.remove(name@));
                    proof {
                        Self::lemma_remove_at(&before, self, i as int);
                    }
                    true
                } else {
                    false
                }
            },
            None => false,
        }
    }

    /// Registers `sender` under `name` for the actor `actor`. An entry that was
    /// there is replaced and handed back, so that its actor can be told to shut
    /// down.
    pub fn insert(&mut self, name: String, actor: u64, sender: S) -> (r: Option<(u64, S)>)
        requires
            old(self).wf(),
        ensures
            final(self).wf(),
            final(self)@ == old(self)@.insert(name@, (actor, sender)),
            r is Some <==> old(self)@.contains_key(name@),
            r is Some ==> r->Some_0 == old(self)@[name@],
    {
        let prev = self.remove(&name);
        let ghost mid = *self;
        let ghost key = name@;
        self.entries.push(Entry { name, actor, sender });
        self.contents = Ghost(self.contents@.insert(key, (actor, sender)));
        proof {
            let es = self.entries@;
            let n = es.len() - 1;
            assert(es[n].name@ == key);
            assert forall|a: int, b: int| 0 <= a < b < es.len() implies #[trigger] es[a].name@
                != #[trigger] es[b].name@ by {
                if b == n {
                    assert(es[a] == mid.entries@[a]);
                    assert(mid@.contains_key(es[a].name@));
                } else {
                    assert(es[a] == mid.entries@[a] && es[b] == mid.entries@[b]);
                }
            }
            assert forall|a: int| 0 <= a < es.len() implies self.contents@.contains_key(
                #[trigger] es[a].name@,
            ) && self.contents@[es[a].name@] == (es[a].actor, es[a].sender) by {
                if a < n {
                    assert(es[a] == mid.entries@[a]);
                    assert(mid@.contains_key(es[a].name@));
                }
            }
            assert forall|k: Seq<char>| #[trigger] self.contents@.contains_key(k) implies exists|
                a: int,
            | 0 <= a < es.len() && es[a].name@ == k by {
                if k != key {
                    let a = choose|a: int| 0 <= a < mid.entries@.len() && mid.entries@[a].name@ == k;
                    assert(es[a] == mid.entries@[a]);
                }
            }
            assert(self@ =~= old(self)@.insert(name@, (actor, sender)));
        }
        prev
    }

    /// The registered names with their senders, one pair per entry, to be used
    /// after the registry's lock is released.
    pub fn snapshot(&self) -> (r: Vec<(String, &S)>)
        requires
            self.wf(),
        ensures
            r@.len() == self@.len(),
            forall|i: int, j: int|
                0 <= i < j < r@.len() ==> (#[trigger] r@[i]).0@ != (#[trigger] r@[j]).0@,
            forall|i: int|
                0 <= i < r@.len() ==> self@.contains_key((#[trigger] r@[i]).0@) && *r@[i].1
                    == self@[r@[i].0@].1,
            forall|k: Seq<char>|
                #[trigger] self@.contains_key(k) ==> exists|i: int| 0 <= i < r@.len() && r@[i].0@ == k,
    {
        proof {
            self.lemma_len();
        }
        let mut r: Vec<(String, &S)> = Vec::new();
        let mut i: usize = 0;
        while i < self.entries.len()
            invariant
                self.wf(),
                i <= self.entries@.len(),
                r@.len() == i,
                forall|j: int|
                    0 <= j < i ==> (#[trigger] r@[j]).0@ == self.entries@[j].name@ && *r@[j].1
                        == self.entries@[j].sender,
            decreases self.entries@.len() - i,
        {
            let e = &self.entries[i];
            r.push((e.name.clone(), &e.sender));
            i = i + 1;
        }
        proof {
            let es = self.entries@;
            assert forall|a: int, b: int| 0 <= a < b < r@.len() implies (#[trigger] r@[a]).0@ != (
            #[trigger] r@[b]).0@ by {
                assert(es[a].name@ != es[b].name@);
            }
            assert forall|a: int| 0 <= a < r@.len() implies self@.contains_key(
                (#[trigger] r@[a]).0@,
            ) && *r@[a].1 == self@[r@[a].0@].1 by {
                assert(self@.contains_key(es[a].name@));
            }
            assert forall|k: Seq<char>| #[trigger] self@.contains_key(k) implies exists|a: int|
                0 <= a < r@.len() && r@[a].0@ == k by {
                let a = choose|a: int| 0 <= a < es.len() && es[a].name@ == k;
                assert(r@[a].0@ == k);
            }
        }
        r
    }
}

} // verus!
