use vstd::prelude::*;

verus! {

/// The views of a sequence of owned strings, one `Seq<char>` per name.
pub open spec fn name_views(names: Seq<String>) -> Seq<Seq<char>> {
    names.map_values(|n: String| n@)
}

pub proof fn lemma_name_views_push(names: Seq<String>, n: String)
    ensures
        name_views(names.push(n)) == name_views(names).push(n@),
{
    assert(name_views(names.push(n)) =~= name_views(names).push(n@));
}

/// Membership in a pushed sequence is membership in the original sequence or
/// equality with the pushed element.
pub proof fn lemma_push_contains<A>(s: Seq<A>, x: A, y: A)
    ensures
        s.push(x).contains(y) <==> (s.contains(y) || y == x),
{
    if s.contains(y) {
        let i = choose|i: int| 0 <= i < s.len() && s[i] == y;
        assert(s.push(x)[i] == y);
    }
    assert(s.push(x)[s.len() as int] == x);
    if s.push(x).contains(y) {
        let i = choose|i: int| 0 <= i < s.push(x).len() && s.push(x)[i] == y;
        if i < s.len() {
            assert(s[i] == y);
        }
    }
}

/// Pushing an element that is not yet present keeps a sequence duplicate-free.
pub proof fn lemma_push_no_duplicates<A>(s: Seq<A>, x: A)
    requires
        s.no_duplicates(),
        !s.contains(x),
    ensures
        s.push(x).no_duplicates(),
{
    assert forall|i: int, j: int|
        0 <= i < s.push(x).len() && 0 <= j < s.push(x).len() && i != j implies s.push(x)[i]
        != s.push(x)[j] by {
        if i < s.len() && j < s.len() {
            assert(s[i] != s[j]);
        } else if i < s.len() {
            assert(s.contains(s[i]));
        } else if j < s.len() {
            assert(s.contains(s[j]));
        }
    }
}

/// Removing position `i` from a duplicate-free sequence removes exactly the
/// element at that position from the sequence's set of members.
pub proof fn lemma_remove_to_set<A>(s: Seq<A>, i: int)
    requires
        s.no_duplicates(),
        0 <= i < s.len(),
    ensures
        s.remove(i).to_set() == s.to_set().remove(s[i]),
        s.remove(i).no_duplicates(),
{
    let t = s.remove(i);
    assert forall|y: A| #[trigger] t.contains(y) implies s.contains(y) && y != s[i] by {
        let j = choose|j: int| 0 <= j < t.len() && t[j] == y;
        if j < i {
            assert(s[j] == y);
        } else {
            assert(s[j + 1] == y);
        }
    }
    assert forall|y: A| s.contains(y) && y != s[i] implies #[trigger] t.contains(y) by {
        let j = choose|j: int| 0 <= j < s.len() && s[j] == y;
        if j < i {
            assert(t[j] == y);
        } else {
            assert(t[j - 1] == y);
        }
    }
    assert(t.to_set() =~= s.to_set().remove(s[i]));
    assert forall|p: int, q: int| 0 <= p < t.len() && 0 <= q < t.len() && p != q implies t[p]
        != t[q] by {
        let sp: int = if p < i { p } else { p + 1 };
        let sq: int = if q < i { q } else { q + 1 };
        assert(t[p] == s[sp]);
        assert(t[q] == s[sq]);
    }
}

/// Copies a vector of names, preserving the exact element sequence.
pub(crate) fn clone_names(names: &Vec<String>) -> (v: Vec<String>)
    ensures
        v@ == names@,
{
    let mut v: Vec<String> = Vec::new();
    let mut i: usize = 0;
    while i < names.len()
        invariant
            i <= names.len(),
            v@ == names@.subrange(0, i as int),
        decreases names.len() - i,
    {
        v.push(names[i].clone());
        proof {
            assert(v@ =~= names@.subrange(0, i as int + 1));
        }
        i += 1;
    }
    proof {
        assert(v@ =~= names@);
    }
    v
}

/// An unordered collection of distinct package names: the "insert, tell me if
/// it was new" container that the reconciler relies on for deduplication.
pub struct NameSet {
    names: Vec<String>,
}

impl View for NameSet {
    type V = Set<Seq<char>>;

    closed spec fn view(&self) -> Set<Seq<char>> {
        name_views(self.names@).to_set()
    }
}

impl NameSet {
    /// Internal well-formedness: no name is stored twice.
    pub closed spec fn wf(&self) -> bool {
        name_views(self.names@).no_duplicates()
    }

    pub fn new() -> (s: NameSet)
        ensures
            s@ == Set::<Seq<char>>::empty(),
            s.wf(),
    {
        let s = NameSet { names: Vec::new() };
        proof {
            assert(s@ =~= Set::<Seq<char>>::empty());
        }
        s
    }

    pub fn contains(&self, name: &String) -> (r: bool)
        ensures
            r == self@.contains(name@),
    {
        let mut i: usize = 0;
        while i < self.names.len()
            invariant
                i <= self.names.len(),
                forall|j: int| 0 <= j < i ==> name_views(self.names@)[j] != name@,
            decreases self.names.len() - i,
        {
            if self.names[i] == *name {
                proof {
                    assert(name_views(self.names@)[i as int] == name@);
                }
                return true;
            }
            i += 1;
        }
        false
    }

    /// Inserts a name; returns whether the name was newly added.
    pub fn insert(&mut self, name: String) -> (r: bool)
        ensures
            r == !old(self)@.contains(name@),
            final(self)@ == old(self)@.insert(name@),
            old(self).wf() ==> final(self).wf(),
    {
        if self.contains(&name) {
            proof {
                assert(self@ =~= self@.insert(name@));
            }
            false
        } else {
            let ghost pre = self.names@;
            self.names.push(name);
            proof {
                lemma_name_views_push(pre, name);
                assert forall|y: Seq<char>|
                    #[trigger] name_views(self.names@).contains(y) <==> (name_views(pre).contains(
                        y,
                    ) || y == name@) by {
                    lemma_push_contains(name_views(pre), name@, y);
                }
                assert(self@ =~= old(self)@.insert(name@));
                if old(self).wf() {
                    lemma_push_no_duplicates(name_views(pre), name@);
                }
            }
            true
        }
    }

    /// Removes a name if present; returns whether it was present.
    pub fn remove(&mut self, name: &String) -> (r: bool)
        requires
            old(self).wf(),
        ensures
            r == old(self)@.contains(name@),
            final(self)@ == old(self)@.remove(name@),
            final(self).wf(),
    {
        let mut i: usize = 0;
        while i < self.names.len()
            invariant
                i <= self.names.len(),
                *self == *old(self),
                old(self).wf(),
                forall|j: int| 0 <= j < i ==> name_views(self.names@)[j] != name@,
            decreases self.names.len() - i,
        {
            if self.names[i] == *name {
                let ghost pre = self.names@;
                self.names.remove(i);
                proof {
                    assert(name_views(pre).no_duplicates());
                    assert(name_views(pre)[i as int] == name@);
                    assert(name_views(pre).contains(name@));
                    assert(name_views(self.names@) =~= name_views(pre).remove(i as int));
                    lemma_remove_to_set(name_views(pre), i as int);
                }
                return true;
            }
            i += 1;
        }
        proof {
            assert(!name_views(self.names@).contains(name@));
            assert(self@ =~= old(self)@.remove(name@));
        }
        false
    }

    /// Snapshots the members into a list, without duplicates.
    pub fn to_vec(&self) -> (v: Vec<String>)
        ensures
            name_views(v@).to_set() == self@,
            self.wf() ==> name_views(v@).no_duplicates(),
    {
        clone_names(&self.names)
    }

    pub fn len(&self) -> (n: usize)
        requires
            self.wf(),
        ensures
            n == self@.len(),
    {
        proof {
            name_views(self.names@).unique_seq_to_set();
        }
        self.names.len()
    }
}

} // verus!
