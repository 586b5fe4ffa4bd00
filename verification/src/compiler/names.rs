//! An ordered set of identifiers: each name once, in the order in which it
//! was first added.

use vstd::hash_set::StringHashSet;
use vstd::prelude::*;

verus! {

/// `names` with `name` added behind it, unless it is already there.
pub open spec fn insert_name(names: Seq<Seq<char>>, name: Seq<char>) -> Seq<Seq<char>> {
    if names.contains(name) {
        names
    } else {
        names.push(name)
    }
}

/// `names` with each of `more` added in turn.
pub open spec fn extend_names(names: Seq<Seq<char>>, more: Seq<Seq<char>>) -> Seq<Seq<char>>
    decreases more.len(),
{
    if more.len() == 0 {
        names
    } else {
        insert_name(extend_names(names, more.drop_last()), more.last())
    }
}

/// The names of `names`, each once, in the order of their first occurrence.
pub open spec fn distinct_names(names: Seq<Seq<char>>) -> Seq<Seq<char>> {
    extend_names(Seq::empty(), names)
}

/// Adding nothing changes nothing.
pub proof fn lemma_extend_names_empty(names: Seq<Seq<char>>)
    ensures
        extend_names(names, Seq::empty()) == names,
{
}

/// Adding one name is `insert_name`.
pub proof fn lemma_extend_names_one(names: Seq<Seq<char>>, name: Seq<char>)
    ensures
        extend_names(names, seq![name]) == insert_name(names, name),
{
    let one = seq![name];
    assert(one.drop_last() =~= Seq::<Seq<char>>::empty());
    assert(extend_names(names, one.drop_last()) == names);
}

/// Adding a list and then one name is adding the list with the name behind it.
pub proof fn lemma_extend_names_push(names: Seq<Seq<char>>, more: Seq<Seq<char>>, name: Seq<char>)
    ensures
        extend_names(names, more.push(name)) == insert_name(extend_names(names, more), name),
{
    assert(more.push(name).drop_last() =~= more);
}

/// Adding `a` and then `b` is adding `a + b`.
pub proof fn lemma_extend_names_concat(names: Seq<Seq<char>>, a: Seq<Seq<char>>, b: Seq<Seq<char>>)
    ensures
        extend_names(extend_names(names, a), b) == extend_names(names, a + b),
    decreases b.len(),
{
    if b.len() == 0 {
        assert(a + b =~= a);
    } else {
        lemma_extend_names_concat(names, a, b.drop_last());
        assert((a + b).drop_last() =~= a + b.drop_last());
        assert((a + b).last() == b.last());
    }
}

/// Adding names keeps the names that were there, at their places, and the
/// result holds exactly the old and the added names; if nothing occurred
/// twice before, nothing does after.
pub proof fn lemma_extend_names_contents(names: Seq<Seq<char>>, more: Seq<Seq<char>>)
    ensures
        names.len() <= extend_names(names, more).len() <= names.len() + more.len(),
        forall|i: int| 0 <= i < names.len() ==> extend_names(names, more)[i] == names[i],
        forall|x: Seq<char>|
            extend_names(names, more).contains(x) <==> names.contains(x) || more.contains(x),
        names.no_duplicates() ==> extend_names(names, more).no_duplicates(),
    decreases more.len(),
{
    if more.len() > 0 {
        let front = more.drop_last();
        let mid = extend_names(names, front);
        let out = extend_names(names, more);
        lemma_extend_names_contents(names, front);
        assert forall|x: Seq<char>| out.contains(x) <==> names.contains(x) || more.contains(x) by {
            if more.contains(x) {
                let j = choose|j: int| 0 <= j < more.len() && more[j] == x;
                if j < more.len() - 1 {
                    assert(front[j] == x);
                    assert(front.contains(x));
                }
            }
            if front.contains(x) {
                let j = choose|j: int| 0 <= j < front.len() && front[j] == x;
                assert(more[j] == x);
            }
            if mid.contains(more.last()) {
            } else {
                assert(out == mid.push(more.last()));
                if mid.contains(x) {
                    let j = choose|j: int| 0 <= j < mid.len() && mid[j] == x;
                    assert(out[j] == x);
                }
                if x == more.last() {
                    assert(out[mid.len() as int] == x);
                }
            }
            assert(more[more.len() - 1] == more.last());
        }
    }
}

/// Each name among the distinct names occurs in the list they were taken
/// from, and the other way round; none occurs twice.
pub proof fn lemma_distinct_names(names: Seq<Seq<char>>)
    ensures
        distinct_names(names).no_duplicates(),
        distinct_names(names).len() <= names.len(),
        forall|x: Seq<char>| distinct_names(names).contains(x) <==> names.contains(x),
{
    lemma_extend_names_contents(Seq::empty(), names);
}

/// An ordered set of names.
pub struct NameSet {
    order: Vec<String>,
    seen: StringHashSet,
}

impl View for NameSet {
    type V = Seq<Seq<char>>;

    /// The names, in the order in which they were first added.
    closed spec fn view(&self) -> Seq<Seq<char>> {
        self.order.deep_view()
    }
}

impl NameSet {
    /// The index agrees with the list, and no name is listed twice.
    pub closed spec fn wf(&self) -> bool {
        &&& self@.no_duplicates()
        &&& forall|x: Seq<char>| self.seen@.contains(x) <==> self@.contains(x)
    }

    /// The empty set.
    pub fn new() -> (set: NameSet)
        ensures
            set.wf(),
            set@ == Seq::<Seq<char>>::empty(),
    {
        let set = NameSet { order: Vec::new(), seen: StringHashSet::new() };
        assert(set@ =~= Seq::<Seq<char>>::empty());
        set
    }

    /// How many names the set holds.
    pub fn len(&self) -> (n: usize)
        ensures
            n == self@.len(),
    {
        self.order.len()
    }

    /// Whether `name` is in the set.
    pub fn contains(&self, name: &str) -> (found: bool)
        requires
            self.wf(),
        ensures
            found == self@.contains(name@),
    {
        self.seen.contains(name)
    }

    /// The name that was the `i`-th to be added.
    pub fn get(&self, i: usize) -> (name: &String)
        requires
            i < self@.len(),
        ensures
            name@ == self@[i as int],
    {
        &self.order[i]
    }

    /// Adds `name` unless the set holds it already.
    pub fn insert(&mut self, name: String)
        requires
            old(self).wf(),
        ensures
            final(self).wf(),
            final(self)@ == insert_name(old(self)@, name@),
    {
        if !self.seen.contains(name.as_str()) {
            let ghost before = self@;
            let copy = name.clone();
            self.seen.insert(copy);
            self.order.push(name);
            proof {
                assert(self@ =~= before.push(name@));
                assert forall|i: int, j: int|
                    0 <= i < self@.len() && 0 <= j < self@.len() && i != j implies self@[i]
                    != self@[j] by {
                    if i < before.len() {
                        assert(before.contains(before[i]));
                    }
                    if j < before.len() {
                        assert(before.contains(before[j]));
                    }
                }
                assert forall|x: Seq<char>| self.seen@.contains(x) <==> self@.contains(x) by {
                    if before.contains(x) {
                        let j = choose|j: int| 0 <= j < before.len() && before[j] == x;
                        assert(self@[j] == x);
                    }
                    if x == name@ {
                        assert(self@[before.len() as int] == x);
                    }
                }
            }
        }
    }
}

} // verus!
