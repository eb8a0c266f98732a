use vstd::prelude::*;
use crate::text::same_text;

verus! {

/// Whether some entry of `s` is filed under `name`.
pub open spec fn has_name<V>(s: Seq<(Seq<char>, V)>, name: Seq<char>) -> bool {
    exists|i: int| 0 <= i < s.len() && (#[trigger] s[i]).0 == name
}

/// The place of an entry filed under `name`, where there is one.
pub open spec fn index_of<V>(s: Seq<(Seq<char>, V)>, name: Seq<char>) -> int {
    choose|i: int| 0 <= i < s.len() && (#[trigger] s[i]).0 == name
}

/// What is filed under `name`, if anything.
pub open spec fn lookup<V>(s: Seq<(Seq<char>, V)>, name: Seq<char>) -> Option<V> {
    if has_name(s, name) {
        Some(s[index_of(s, name)].1)
    } else {
        None
    }
}

/// The entries after filing `value` under `name`: a name already present keeps
/// its place and takes the new value, a new name goes to the end.
pub open spec fn inserted<V>(s: Seq<(Seq<char>, V)>, name: Seq<char>, value: V) -> Seq<
    (Seq<char>, V),
> {
    if has_name(s, name) {
        s.update(index_of(s, name), (name, value))
    } else {
        s.push((name, value))
    }
}

/// No name occurs twice.
pub open spec fn distinct_names<V>(s: Seq<(Seq<char>, V)>) -> bool {
    forall|i: int, j: int|
        0 <= i < j < s.len() ==> (#[trigger] s[i]).0 != (#[trigger] s[j]).0
}

/// Among distinct names, the entry filed under a name is the only one.
pub proof fn lemma_index_unique<V>(s: Seq<(Seq<char>, V)>, name: Seq<char>, k: int)
    requires
        distinct_names(s),
        0 <= k < s.len(),
        s[k].0 == name,
    ensures
        has_name(s, name),
        index_of(s, name) == k,
        lookup(s, name) == Some(s[k].1),
{
    let i = index_of(s, name);
    assert(0 <= i < s.len() && s[i].0 == name);
    if i < k {
        assert(s[i].0 != s[k].0);
    } else if k < i {
        assert(s[k].0 != s[i].0);
    }
}

/// Filing keeps the names distinct, and the value is found again under its name.
pub proof fn lemma_inserted<V>(s: Seq<(Seq<char>, V)>, name: Seq<char>, value: V)
    requires
        distinct_names(s),
    ensures
        distinct_names(inserted(s, name, value)),
        lookup(inserted(s, name, value), name) == Some(value),
        forall|other: Seq<char>|
            other != name ==> #[trigger] lookup(inserted(s, name, value), other) == lookup(
                s,
                other,
            ),
{
    let t = inserted(s, name, value);
    if has_name(s, name) {
        let k = index_of(s, name);
        assert(forall|i: int| 0 <= i < s.len() && i != k ==> t[i] == s[i]);
        assert(t[k].0 == s[k].0);
        assert forall|i: int, j: int| 0 <= i < j < t.len() implies (#[trigger] t[i]).0 != (
        #[trigger] t[j]).0 by {
            assert(s[i].0 != s[j].0);
        }
        lemma_index_unique(t, name, k);
    } else {
        let n = s.len() as int;
        assert(forall|i: int| 0 <= i < n ==> t[i] == s[i]);
        assert forall|i: int, j: int| 0 <= i < j < t.len() implies (#[trigger] t[i]).0 != (
        #[trigger] t[j]).0 by {
            if j < n {
                assert(s[i].0 != s[j].0);
            } else {
                assert(s[i].0 != name);
            }
        }
        lemma_index_unique(t, name, n);
    }
    assert forall|other: Seq<char>| other != name implies #[trigger] lookup(t, other) == lookup(
        s,
        other,
    ) by {
        if has_name(s, other) {
            let k = index_of(s, other);
            assert(t[k] == s[k]);
            lemma_index_unique(t, other, k);
        } else {
            if has_name(t, other) {
                let k = index_of(t, other);
                assert(t[k].0 == other);
                assert(k < s.len() ==> s[k].0 == t[k].0);
                assert(false);
            }
        }
    }
}

/// A list of named values in which no name occurs twice, in the order in which
/// the names were first filed. It holds what the library reads of an incoming
/// argument bag and of a stored row, and the filters of a query.
#[derive(Clone, Debug, PartialEq, Eq)]
pub struct OrderedMap<V> {
    entries: Vec<(String, V)>,
}

impl<V: View> View for OrderedMap<V> {
    type V = Seq<(Seq<char>, V::V)>;

    closed spec fn view(&self) -> Seq<(Seq<char>, V::V)> {
        Seq::new(self.entries@.len(), |i: int| (self.entries@[i].0@, self.entries@[i].1@))
    }
}

impl<V: View> OrderedMap<V> {
    /// The invariant of the map: no name occurs twice.
    pub open spec fn wf(&self) -> bool {
        distinct_names(self@)
    }

    /// The empty map.
    pub fn new() -> (m: Self)
        ensures
            m@ == Seq::<(Seq<char>, V::V)>::empty(),
            m.wf(),
    {
        let m = OrderedMap { entries: Vec::new() };
        assert(m@ =~= Seq::<(Seq<char>, V::V)>::empty());
        m
    }

    /// The number of entries.
    pub fn len(&self) -> (n: usize)
        ensures
            n == self@.len(),
    {
        self.entries.len()
    }

    /// The name of the entry at place `i`.
    pub fn name_at(&self, i: usize) -> (r: &String)
        requires
            i < self@.len(),
        ensures
            r@ == self@[i as int].0,
    {
        &self.entries[i].0
    }

    /// The value of the entry at place `i`.
    pub fn value_at(&self, i: usize) -> (r: &V)
        requires
            i < self@.len(),
        ensures
            r@ == self@[i as int].1,
    {
        &self.entries[i].1
    }

    fn position(&self, name: &str) -> (r: Option<usize>)
        requires
            self.wf(),
        ensures
            match r {
                Some(k) => k < self@.len() && self@[k as int].0 == name@ && has_name(
                    self@,
                    name@,
                ) && index_of(self@, name@) == k,
                None => !has_name(self@, name@),
            },
    {
        let mut i: usize = 0;
        while i < self.entries.len()
            invariant
                self.wf(),
                i <= self@.len(),
                self@.len() == self.entries@.len(),
                forall|j: int| 0 <= j < i ==> (#[trigger] self@[j]).0 != name@,
            decreases self.entries.len() - i,
        {
            if same_text(self.entries[i].0.as_str(), name) {
                proof {
                    lemma_index_unique(self@, name@, i as int);
                }
                return Some(i);
            }
            i += 1;
        }
        None
    }

    /// The value filed under `name`, if any.
    pub fn get(&self, name: &str) -> (r: Option<&V>)
        requires
            self.wf(),
        ensures
            match lookup(self@, name@) {
                Some(v) => r matches Some(x) && x@ == v,
                None => r is None,
            },
    {
        match self.position(name) {
            Some(k) => Some(&self.entries[k].1),
            None => None,
        }
    }

    /// Files `value` under `name`. A name already present keeps its place and
    /// takes the new value; a new name goes to the end.
    pub fn insert(&mut self, name: String, value: V)
        requires
            old(self).wf(),
        ensures
            final(self)@ == inserted(old(self)@, name@, value@),
            final(self).wf(),
    {
        proof {
            lemma_inserted(self@, name@, value@);
        }
        match self.position(name.as_str()) {
            Some(k) => {
                self.entries.set(k, (name, value));
            },
            None => {
                self.entries.push((name, value));
            },
        }
        assert(self@ =~= inserted(old(self)@, name@, value@));
    }
}

} // verus!
