use vstd::prelude::*;

use crate::device::error::DeviceError;

verus! {

/// One member of a device: an attribute or an action, never both.
pub enum Member<A, C> {
    Attribute(A),
    Action(C),
}

/// A device: a collection of members addressed by string path, no two of
/// which share a path. Iteration order is insertion order and is kept by
/// `insert` and `remove`, so enumeration is deterministic.
pub struct Device<A, C> {
    members: Vec<(String, Member<A, C>)>,
}

/// Whether `r` is a path-exists failure naming `path`.
pub open spec fn is_path_exists_err(r: Result<(), DeviceError>, path: Seq<char>) -> bool {
    match r {
        Err(DeviceError::PathExists(p)) => p@ == path,
        _ => false,
    }
}

/// Whether `r` is a path-not-found failure naming `path`.
pub open spec fn is_path_not_found_err(r: Result<(), DeviceError>, path: Seq<char>) -> bool {
    match r {
        Err(DeviceError::PathNotFound(p)) => p@ == path,
        _ => false,
    }
}

impl<A, C> Device<A, C> {
    /// The members in insertion order, each with its path.
    pub closed spec fn entries(&self) -> Seq<(String, Member<A, C>)> {
        self.members@
    }

    /// Well-formedness: no two members share a path.
    pub open spec fn wf(&self) -> bool {
        forall|i: int, j: int|
            0 <= i < j < self.entries().len() ==> (#[trigger] self.entries()[i]).0@ != (
            #[trigger] self.entries()[j]).0@
    }

    /// Whether some member sits under `path`.
    pub open spec fn spec_contains(&self, path: Seq<char>) -> bool {
        exists|i: int|
            0 <= i < self.entries().len() && (#[trigger] self.entries()[i]).0@ == path
    }

    /// The index of the member under `path`, when one exists.
    pub open spec fn spec_index_of(&self, path: Seq<char>) -> int {
        choose|i: int|
            0 <= i < self.entries().len() && (#[trigger] self.entries()[i]).0@ == path
    }

    /// The member under `path`, when one exists.
    pub open spec fn spec_get(&self, path: Seq<char>) -> Option<Member<A, C>> {
        if self.spec_contains(path) {
            Some(self.entries()[self.spec_index_of(path)].1)
        } else {
            None
        }
    }

    /// The device as a mapping from path to member.
    pub open spec fn as_map(&self) -> Map<Seq<char>, Member<A, C>> {
        Map::new(
            |p: Seq<char>| self.spec_contains(p),
            |p: Seq<char>| self.entries()[self.spec_index_of(p)].1,
        )
    }

    /// An empty device.
    pub fn new() -> (r: Device<A, C>)
        ensures
            r.wf(),
            r.entries() == Seq::<(String, Member<A, C>)>::empty(),
    {
        Device { members: Vec::new() }
    }

    /// The index of the member under `path`, if any.
    fn find_index(&self, path: &str) -> (r: Option<usize>)
        requires
            self.wf(),
        ensures
            match r {
                Some(i) => i < self.entries().len() && self.entries()[i as int].0@ == path@
                    && self.spec_contains(path@) && self.spec_index_of(path@) == i,
                None => !self.spec_contains(path@),
            },
    {
        let key = String::from_str(path);
        let mut i: usize = 0;
        while i < self.members.len()
            invariant
                self.wf(),
                key@ == path@,
                i <= self.entries().len(),
                forall|j: int| 0 <= j < i ==> (#[trigger] self.entries()[j]).0@ != path@,
            decreases self.members.len() - i,
        {
            if self.members[i].0 == key {
                proof {
                    assert(self.spec_contains(path@));
                    let j = self.spec_index_of(path@);
                    assert(0 <= j < self.entries().len() && self.entries()[j].0@ == path@);
                    assert(j == i);
                }
                return Some(i);
            }
            i += 1;
        }
        None
    }

    /// Looks a member up by path; absence is a valid outcome, not a
    /// failure.
    pub fn get(&self, path: &str) -> (r: Option<&Member<A, C>>)
        requires
            self.wf(),
        ensures
            match r {
                Some(m) => self.spec_get(path@) == Some(*m),
                None => self.spec_get(path@) is None,
            },
    {
        match self.find_index(path) {
            Some(i) => Some(&self.members[i].1),
            None => None,
        }
    }

    /// Stores a member under `path`; fails with `PathExists` when the path
    /// is occupied, leaving the device unchanged.
    pub fn insert(&mut self, path: &str, member: Member<A, C>) -> (r: Result<(), DeviceError>)
        requires
            old(self).wf(),
        ensures
            final(self).wf(),
            r is Ok <==> !old(self).spec_contains(path@),
            r is Err ==> is_path_exists_err(r, path@) && *final(self) == *old(self),
            r is Ok ==> {
                &&& final(self).entries().len() == old(self).entries().len() + 1
                &&& final(self).entries().drop_last() == old(self).entries()
                &&& final(self).entries().last().0@ == path@
                &&& final(self).entries().last().1 == member
                &&& final(self).spec_get(path@) == Some(member)
                &&& final(self).as_map() =~= old(self).as_map().insert(path@, member)
            },
    {
        match self.find_index(path) {
            Some(_) => Err(DeviceError::PathExists(String::from_str(path))),
            None => {
                let key = String::from_str(path);
                self.members.push((key, member));
                proof {
                    let new_entries = self.entries();
                    let n = old(self).entries().len() as int;
                    assert(new_entries.drop_last() =~= old(self).entries());
                    assert forall|i: int, j: int|
                        0 <= i < j < new_entries.len() implies (#[trigger] new_entries[i]).0@ != (
                    #[trigger] new_entries[j]).0@ by {
                        if j < n {
                            assert(old(self).entries()[i] == new_entries[i]);
                            assert(old(self).entries()[j] == new_entries[j]);
                        } else {
                            assert(old(self).entries()[i] == new_entries[i]);
                            assert(!old(self).spec_contains(path@));
                        }
                    }
                    assert forall|p: Seq<char>| #[trigger]
                        self.as_map().contains_key(p) <==> old(self).as_map().insert(
                        path@,
                        member,
                    ).contains_key(p) by {
                        if p == path@ {
                            assert(new_entries[n].0@ == path@);
                            assert(self.spec_contains(p));
                        } else {
                            if self.spec_contains(p) {
                                let i = choose|i: int|
                                    0 <= i < new_entries.len() && (#[trigger] new_entries[i]).0@
                                        == p;
                                assert(i < n);
                                assert(old(self).entries()[i] == new_entries[i]);
                                assert(old(self).spec_contains(p));
                            }
                            if old(self).spec_contains(p) {
                                let i = choose|i: int|
                                    0 <= i < old(self).entries().len() && (#[trigger] old(
                                        self,
                                    ).entries()[i]).0@ == p;
                                assert(new_entries[i] == old(self).entries()[i]);
                                assert(self.spec_contains(p));
                            }
                        }
                    }
                    assert forall|p: Seq<char>|
                        self.as_map().contains_key(p) implies self.as_map()[p] == old(
                        self,
                    ).as_map().insert(path@, member)[p] by {
                        let i = self.spec_index_of(p);
                        assert(0 <= i < new_entries.len() && new_entries[i].0@ == p);
                        if p == path@ {
                            if i < n {
                                assert(old(self).entries()[i] == new_entries[i]);
                                assert(old(self).spec_contains(p));
                            }
                            assert(i == n);
                        } else {
                            assert(i < n);
                            assert(old(self).entries()[i] == new_entries[i]);
                            assert(old(self).spec_contains(p));
                            let j = old(self).spec_index_of(p);
                            assert(0 <= j < n && old(self).entries()[j].0@ == p);
                            assert(new_entries[j].0@ == p);
                            assert(j == i);
                        }
                    }
                    assert(self.as_map() =~= old(self).as_map().insert(path@, member));
                    let n2 = self.spec_index_of(path@);
                    assert(0 <= n2 < new_entries.len() && new_entries[n2].0@ == path@);
                    assert(n2 == n);
                }
                Ok(())
            },
        }
    }

    /// Deletes the member under `path`; fails with `PathNotFound` when the
    /// path is vacant, leaving the device unchanged.
    pub fn remove(&mut self, path: &str) -> (r: Result<(), DeviceError>)
        requires
            old(self).wf(),
        ensures
            final(self).wf(),
            r is Ok <==> old(self).spec_contains(path@),
            r is Err ==> is_path_not_found_err(r, path@) && *final(self) == *old(self),
            r is Ok ==> {
                &&& final(self).entries() == old(self).entries().remove(
                    old(self).spec_index_of(path@),
                )
                &&& !final(self).spec_contains(path@)
                &&& final(self).as_map() =~= old(self).as_map().remove(path@)
            },
    {
        match self.find_index(path) {
            None => Err(DeviceError::PathNotFound(String::from_str(path))),
            Some(i) => {
                self.members.remove(i);
                proof {
                    let old_entries = old(self).entries();
                    let new_entries = self.entries();
                    let n = old_entries.len() as int;
                    assert(new_entries =~= old_entries.remove(i as int));
                    assert forall|x: int, y: int|
                        0 <= x < y < new_entries.len() implies (#[trigger] new_entries[x]).0@ != (
                    #[trigger] new_entries[y]).0@ by {
                        let ox = if x < i { x } else { x + 1 };
                        let oy = if y < i { y } else { y + 1 };
                        assert(new_entries[x] == old_entries[ox]);
                        assert(new_entries[y] == old_entries[oy]);
                    }
                    assert forall|p: Seq<char>| #[trigger]
                        self.as_map().contains_key(p) <==> old(self).as_map().remove(
                        path@,
                    ).contains_key(p) by {
                        if self.spec_contains(p) {
                            let x = choose|x: int|
                                0 <= x < new_entries.len() && (#[trigger] new_entries[x]).0@ == p;
                            let ox = if x < i { x } else { x + 1 };
                            assert(new_entries[x] == old_entries[ox]);
                            assert(old(self).spec_contains(p));
                            if p == path@ {
                                assert(old_entries[ox].0@ == path@);
                                assert(old_entries[i as int].0@ == path@);
                                assert(ox == i as int);
                                assert(false);
                            }
                        }
                        if old(self).spec_contains(p) && p != path@ {
                            let ox = choose|ox: int|
                                0 <= ox < old_entries.len() && (#[trigger] old_entries[ox]).0@
                                    == p;
                            assert(ox != i);
                            let x = if ox < i { ox } else { ox - 1 };
                            assert(new_entries[x] == old_entries[ox]);
                            assert(self.spec_contains(p));
                        }
                    }
                    assert forall|p: Seq<char>|
                        self.as_map().contains_key(p) implies self.as_map()[p] == old(
                        self,
                    ).as_map().remove(path@)[p] by {
                        let x = self.spec_index_of(p);
                        assert(0 <= x < new_entries.len() && new_entries[x].0@ == p);
                        let ox = if x < i { x } else { x + 1 };
                        assert(new_entries[x] == old_entries[ox]);
                        assert(old(self).spec_contains(p));
                        let oy = old(self).spec_index_of(p);
                        assert(0 <= oy < old_entries.len() && old_entries[oy].0@ == p);
                        assert(oy == ox);
                    }
                    assert(self.as_map() =~= old(self).as_map().remove(path@));
                    if self.spec_contains(path@) {
                        let x = self.spec_index_of(path@);
                        assert(0 <= x < new_entries.len() && new_entries[x].0@ == path@);
                        let ox = if x < i { x } else { x + 1 };
                        assert(new_entries[x] == old_entries[ox]);
                        assert(old_entries[ox].0@ == path@);
                        assert(old_entries[i as int].0@ == path@);
                        assert(ox == i as int);
                        assert(false);
                    }
                }
                Ok(())
            },
        }
    }

    /// The members as a lazy sequence of (path, member) pairs, each member
    /// exactly once, in insertion order.
    pub fn iter(&self) -> (r: &Vec<(String, Member<A, C>)>)
        ensures
            r@ == self.entries(),
    {
        &self.members
    }
}

/// A path stored once is found again: a well-formed device whose mapping
/// holds a member under `path` answers `spec_get` with exactly that
/// member; and because the path is occupied, `insert` must refuse it (its
/// success is equivalent to the path being absent).
pub proof fn lemma_inserted_path_found<A, C>(d: Device<A, C>, path: Seq<char>)
    requires
        d.wf(),
        d.as_map().contains_key(path),
    ensures
        d.spec_contains(path),
        d.spec_get(path) == Some(d.as_map()[path]),
{
}

/// A path never stored is absent: `spec_get` yields nothing, and because
/// presence is exactly what `remove` requires to succeed, `remove` must
/// fail with `PathNotFound` on it.
pub proof fn lemma_absent_path_not_found<A, C>(d: Device<A, C>, path: Seq<char>)
    requires
        d.wf(),
        !d.as_map().contains_key(path),
    ensures
        d.spec_get(path) is None,
        !d.spec_contains(path),
{
}

} // verus!
