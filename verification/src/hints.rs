use vstd::prelude::*;

verus! {

/// A clue submitted by a non-active player. The `allowed` flag starts `true`
/// and is mutated during hint filtering.
#[derive(Debug)]
pub struct Hint {
    pub content: String,
    pub allowed: bool,
}

impl Clone for Hint {
    fn clone(&self) -> (r: Self)
        ensures
            r == *self,
    {
        Hint { content: self.content.clone(), allowed: self.allowed }
    }
}

impl Default for Hint {
    /// An empty, not-yet-allowed hint.
    fn default() -> (h: Self)
        ensures
            h.content@ == Seq::<char>::empty(),
            !h.allowed,
    {
        Hint { content: String::new(), allowed: false }
    }
}

/// The hints of one round, keyed by author name. Kept as an ordered list of
/// entries whose names are pairwise distinct, so a round's hints stay
/// attributable to their authors across disconnects.
#[derive(Debug)]
pub struct HintMap {
    pub entries: Vec<(String, Hint)>,
}

/// The author names of `entries`, in order.
pub open spec fn names_of(entries: Seq<(String, Hint)>) -> Seq<String>
    decreases entries.len(),
{
    if entries.len() == 0 {
        Seq::empty()
    } else {
        names_of(entries.drop_last()).push(entries.last().0)
    }
}

/// The author names of the entries whose hint is currently allowed, in order.
pub open spec fn allowed_names_of(entries: Seq<(String, Hint)>) -> Seq<String>
    decreases entries.len(),
{
    if entries.len() == 0 {
        Seq::empty()
    } else if entries.last().1.allowed {
        allowed_names_of(entries.drop_last()).push(entries.last().0)
    } else {
        allowed_names_of(entries.drop_last())
    }
}

/// The contents of the entries whose hint is currently allowed, in order,
/// stripped of authorship.
pub open spec fn allowed_contents_of(entries: Seq<(String, Hint)>) -> Seq<String>
    decreases entries.len(),
{
    if entries.len() == 0 {
        Seq::empty()
    } else if entries.last().1.allowed {
        allowed_contents_of(entries.drop_last()).push(entries.last().1.content)
    } else {
        allowed_contents_of(entries.drop_last())
    }
}

/// `new_m` is `old_m` with `hint` recorded under `name`: the value under an
/// existing entry of that name is overwritten (the stored key kept), and an
/// absent name is appended at the end.
pub open spec fn is_insert(old_m: HintMap, new_m: HintMap, name: String, hint: Hint) -> bool {
    if old_m.contains_name(name@) {
        &&& new_m.entries@.len() == old_m.entries@.len()
        &&& forall|i: int|
            0 <= i < old_m.entries@.len() ==> new_m.entries@[i] == (if old_m.entries@[i].0@
                == name@ {
                (old_m.entries@[i].0, hint)
            } else {
                old_m.entries@[i]
            })
    } else {
        new_m.entries@ == old_m.entries@.push((name, hint))
    }
}

/// `new_m` is `old_m` after one content-addressed filter step: every entry
/// whose content equals `text` has its `allowed` flag set to `allowed`, and
/// every other entry is untouched.
pub open spec fn is_filtered(old_m: HintMap, new_m: HintMap, text: Seq<char>, allowed: bool) -> bool {
    &&& new_m.entries@.len() == old_m.entries@.len()
    &&& forall|i: int|
        0 <= i < old_m.entries@.len() ==> new_m.entries@[i] == (
        old_m.entries@[i].0,
        Hint {
            content: old_m.entries@[i].1.content,
            allowed: if old_m.entries@[i].1.content@ == text {
                allowed
            } else {
                old_m.entries@[i].1.allowed
            },
        },
        )
}

impl HintMap {
    /// Author names are pairwise distinct.
    pub open spec fn wf(self) -> bool {
        forall|i: int, j: int|
            0 <= i < self.entries@.len() && 0 <= j < self.entries@.len() && i != j
                ==> self.entries@[i].0@ != self.entries@[j].0@
    }

    /// Some entry is keyed by `name`.
    pub open spec fn contains_name(self, name: Seq<char>) -> bool {
        exists|i: int| 0 <= i < self.entries@.len() && self.entries@[i].0@ == name
    }

    /// The hint stored under `name`, if any.
    pub open spec fn spec_get(self, name: Seq<char>) -> Option<Hint> {
        if self.contains_name(name) {
            let i = choose|i: int| 0 <= i < self.entries@.len() && self.entries@[i].0@ == name;
            Some(self.entries@[i].1)
        } else {
            None
        }
    }

    pub fn new() -> (m: HintMap)
        ensures
            m.entries@.len() == 0,
            m.wf(),
    {
        HintMap { entries: Vec::new() }
    }

    pub fn len(&self) -> (n: usize)
        ensures
            n == self.entries@.len(),
    {
        self.entries.len()
    }

    /// Records `hint` under `name`, overwriting an earlier hint by the same
    /// author and appending a first-time author at the end.
    pub fn insert(&mut self, name: String, hint: Hint)
        requires
            old(self).wf(),
        ensures
            final(self).wf(),
            is_insert(*old(self), *final(self), name, hint),
    {
        let n = self.entries.len();
        let mut i: usize = 0;
        while i < n
            invariant
                old(self).wf(),
                n == self.entries@.len(),
                0 <= i <= n,
                self.entries == old(self).entries,
                forall|j: int| 0 <= j < i ==> self.entries@[j].0@ != name@,
            decreases n - i,
        {
            if self.entries[i].0.eq(&name) {
                proof {
                    assert(self.entries@[i as int].0@ == name@);
                    assert(self.entries@ == old(self).entries@);
                    assert(old(self).entries@[i as int].0@ == name@);
                    assert(old(self).contains_name(name@));
                    assert forall|k: int|
                        0 <= k < old(self).entries@.len() && k != i implies old(
                        self,
                    ).entries@[k].0@ != name@ by {
                        assert(old(self).entries@[i as int].0@ == name@);
                        assert(old(self).wf());
                    }
                }
                let key = self.entries[i].0.clone();
                self.entries.set(i, (key, hint));
                proof {
                    assert(self.entries@ == old(self).entries@.update(
                        i as int,
                        (old(self).entries@[i as int].0, hint),
                    ));
                    assert forall|p: int, q: int|
                        0 <= p < self.entries@.len() && 0 <= q < self.entries@.len() && p != q
                        implies self.entries@[p].0@ != self.entries@[q].0@ by {
                        assert(self.entries@[p].0 == old(self).entries@[p].0);
                        assert(self.entries@[q].0 == old(self).entries@[q].0);
                    }
                }
                return ;
            }
            i = i + 1;
        }
        self.entries.push((name, hint));
    }

    /// The hint stored under `name`, if any.
    pub fn get(&self, name: &String) -> (r: Option<&Hint>)
        requires
            self.wf(),
        ensures
            match r {
                Some(h) => self.spec_get(name@) == Some(*h),
                None => self.spec_get(name@) is None,
            },
            r is Some <==> self.contains_name(name@),
    {
        let n = self.entries.len();
        let mut i: usize = 0;
        while i < n
            invariant
                self.wf(),
                n == self.entries@.len(),
                0 <= i <= n,
                forall|j: int| 0 <= j < i ==> self.entries@[j].0@ != name@,
            decreases n - i,
        {
            if self.entries[i].0.eq(name) {
                proof {
                    assert(self.contains_name(name@));
                    let k = choose|k: int|
                        0 <= k < self.entries@.len() && self.entries@[k].0@ == name@;
                    assert(k == i);
                }
                return Some(&self.entries[i].1);
            }
            i = i + 1;
        }
        None
    }

    /// Sets the `allowed` flag of every hint whose content equals `text`.
    /// Filtering is content-addressed, not author-addressed: identical texts
    /// from different authors flip together.
    pub fn set_allowed_by_content(&mut self, text: &String, allowed: bool)
        requires
            old(self).wf(),
        ensures
            final(self).wf(),
            is_filtered(*old(self), *final(self), text@, allowed),
    {
        let n = self.entries.len();
        let mut i: usize = 0;
        while i < n
            invariant
                old(self).wf(),
                n == self.entries@.len(),
                0 <= i <= n,
                forall|j: int|
                    i <= j < n ==> self.entries@[j] == old(self).entries@[j],
                forall|j: int|
                    0 <= j < i ==> self.entries@[j] == (
                    old(self).entries@[j].0,
                    Hint {
                        content: old(self).entries@[j].1.content,
                        allowed: if old(self).entries@[j].1.content@ == text@ {
                            allowed
                        } else {
                            old(self).entries@[j].1.allowed
                        },
                    },
                    ),
            decreases n - i,
        {
            if self.entries[i].1.content.eq(text) {
                let key = self.entries[i].0.clone();
                let content = self.entries[i].1.content.clone();
                self.entries.set(i, (key, Hint { content, allowed }));
            }
            i = i + 1;
        }
    }

    /// The author names, in entry order.
    pub fn names(&self) -> (r: Vec<String>)
        ensures
            r@ =~= names_of(self.entries@),
    {
        let n = self.entries.len();
        let mut r: Vec<String> = Vec::new();
        let mut i: usize = 0;
        while i < n
            invariant
                n == self.entries@.len(),
                0 <= i <= n,
                r@ =~= names_of(self.entries@.take(i as int)),
            decreases n - i,
        {
            proof {
                assert(self.entries@.take(i + 1).drop_last() =~= self.entries@.take(i as int));
                assert(self.entries@.take(i + 1).last() == self.entries@[i as int]);
            }
            r.push(self.entries[i].0.clone());
            i = i + 1;
        }
        proof {
            assert(self.entries@.take(n as int) =~= self.entries@);
        }
        r
    }

    /// The author names whose hint is currently allowed, in entry order.
    pub fn allowed_names(&self) -> (r: Vec<String>)
        ensures
            r@ =~= allowed_names_of(self.entries@),
    {
        let n = self.entries.len();
        let mut r: Vec<String> = Vec::new();
        let mut i: usize = 0;
        while i < n
            invariant
                n == self.entries@.len(),
                0 <= i <= n,
                r@ =~= allowed_names_of(self.entries@.take(i as int)),
            decreases n - i,
        {
            proof {
                assert(self.entries@.take(i + 1).drop_last() =~= self.entries@.take(i as int));
                assert(self.entries@.take(i + 1).last() == self.entries@[i as int]);
            }
            if self.entries[i].1.allowed {
                r.push(self.entries[i].0.clone());
            }
            i = i + 1;
        }
        proof {
            assert(self.entries@.take(n as int) =~= self.entries@);
        }
        r
    }

    /// The contents of the currently allowed hints, in entry order and
    /// stripped of authorship.
    pub fn allowed_contents(&self) -> (r: Vec<String>)
        ensures
            r@ =~= allowed_contents_of(self.entries@),
    {
        let n = self.entries.len();
        let mut r: Vec<String> = Vec::new();
        let mut i: usize = 0;
        while i < n
            invariant
                n == self.entries@.len(),
                0 <= i <= n,
                r@ =~= allowed_contents_of(self.entries@.take(i as int)),
            decreases n - i,
        {
            proof {
                assert(self.entries@.take(i + 1).drop_last() =~= self.entries@.take(i as int));
                assert(self.entries@.take(i + 1).last() == self.entries@[i as int]);
            }
            if self.entries[i].1.allowed {
                r.push(self.entries[i].1.content.clone());
            }
            i = i + 1;
        }
        proof {
            assert(self.entries@.take(n as int) =~= self.entries@);
        }
        r
    }

    /// An element-wise copy.
    pub fn clone_map(&self) -> (r: HintMap)
        ensures
            r.entries@ =~= self.entries@,
    {
        let n = self.entries.len();
        let mut entries: Vec<(String, Hint)> = Vec::new();
        let mut i: usize = 0;
        while i < n
            invariant
                n == self.entries@.len(),
                0 <= i <= n,
                entries@ =~= self.entries@.take(i as int),
            decreases n - i,
        {
            entries.push((self.entries[i].0.clone(), self.entries[i].1.clone()));
            i = i + 1;
        }
        HintMap { entries }
    }
}

} // verus!
