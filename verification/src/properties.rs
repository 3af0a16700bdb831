//! A small map from names to texts, for free-form settings.

use vstd::prelude::*;
use vstd::std_specs::cmp::PartialEqSpecImpl;
use crate::text::same_text;

verus! {

/// Settings by name: each name at most once, in the order in which the
/// names were first set. Two sets of settings are equal where they set the
/// same names to the same texts, in whatever order.
#[derive(Debug)]
pub struct Properties {
    entries: Vec<(String, String)>,
}

impl Properties {
    #[verifier::type_invariant]
    spec fn names_differ(self) -> bool {
        self.unique()
    }

    /// No name occurs twice.
    pub closed spec fn unique(self) -> bool {
        forall|i: int, j: int|
            0 <= i < j < self.entries@.len() ==> (#[trigger] self.entries@[i]).0@ != (
            #[trigger] self.entries@[j]).0@
    }

    /// Whether the entry at `i` has the name `key`.
    pub closed spec fn has_at(self, key: Seq<char>, i: int) -> bool {
        0 <= i < self.entries@.len() && self.entries@[i].0@ == key
    }

    /// The settings as a map from names to texts.
    pub closed spec fn model(self) -> Map<Seq<char>, Seq<char>> {
        Map::new(
            |k: Seq<char>| exists|i: int| self.has_at(k, i),
            |k: Seq<char>| self.entries@[choose|i: int| self.has_at(k, i)].1@,
        )
    }

    proof fn lemma_model_at(self, i: int)
        requires
            self.unique(),
            0 <= i < self.entries@.len(),
        ensures
            self.model().contains_key(self.entries@[i].0@),
            self.model()[self.entries@[i].0@] == self.entries@[i].1@,
    {
        let k = self.entries@[i].0@;
        assert(self.has_at(k, i));
        let c = choose|c: int| self.has_at(k, c);
        assert(self.has_at(k, c));
        if c < i {
            assert(self.entries@[c].0@ != self.entries@[i].0@);
        } else if i < c {
            assert(self.entries@[i].0@ != self.entries@[c].0@);
        }
    }

    proof fn lemma_model_absent(self, key: Seq<char>)
        requires
            forall|i: int| 0 <= i < self.entries@.len() ==> (#[trigger] self.entries@[i]).0@ != key,
        ensures
            !self.model().contains_key(key),
    {
        assert forall|i: int| !self.has_at(key, i) by {
            if 0 <= i < self.entries@.len() {
                assert(self.entries@[i].0@ != key);
            }
        }
    }

    proof fn lemma_model_is(self, m: Map<Seq<char>, Seq<char>>)
        requires
            self.unique(),
            forall|i: int|
                0 <= i < self.entries@.len() ==> m.contains_key(
                    (#[trigger] self.entries@[i]).0@,
                ) && m[self.entries@[i].0@] == self.entries@[i].1@,
            forall|k: Seq<char>| #[trigger]
                m.contains_key(k) ==> exists|i: int| self.has_at(k, i),
        ensures
            self.model() == m,
    {
        assert forall|k: Seq<char>| #[trigger]
            self.model().contains_key(k) implies m.contains_key(k) && m[k] == self.model()[k] by {
            let i = choose|i: int| self.has_at(k, i);
            assert(self.has_at(k, i));
            self.lemma_model_at(i);
            assert(m.contains_key(self.entries@[i].0@));
        }
        assert forall|k: Seq<char>| #[trigger] m.contains_key(k) implies self.model().contains_key(
            k,
        ) by {
            let i = choose|i: int| self.has_at(k, i);
            assert(self.has_at(k, i));
        }
        assert(self.model() =~= m);
    }

    /// No settings.
    pub fn new() -> (r: Properties)
        ensures
            r@ == Map::<Seq<char>, Seq<char>>::empty(),
    {
        let r = Properties { entries: Vec::new() };
        proof {
            r.lemma_model_is(Map::empty());
        }
        r
    }

    /// Whether there are no settings.
    pub fn is_empty(&self) -> (r: bool)
        ensures
            r == (self@ == Map::<Seq<char>, Seq<char>>::empty()),
    {
        proof {
            use_type_invariant(self);
            if self.entries@.len() > 0 {
                self.lemma_model_at(0);
            } else {
                self.lemma_model_is(Map::empty());
            }
        }
        self.entries.len() == 0
    }

    fn position(&self, key: &str) -> (r: Option<usize>)
        ensures
            match r {
                Some(i) => self.has_at(key@, i as int),
                None => forall|i: int|
                    0 <= i < self.entries@.len() ==> (#[trigger] self.entries@[i]).0@ != key@,
            },
    {
        let mut i: usize = 0;
        while i < self.entries.len()
            invariant
                i <= self.entries.len(),
                forall|j: int| 0 <= j < i ==> (#[trigger] self.entries@[j]).0@ != key@,
            decreases self.entries.len() - i,
        {
            if same_text(self.entries[i].0.as_str(), key) {
                return Some(i);
            }
            i += 1;
        }
        None
    }

    /// The text set under `key`, if there is one.
    pub fn get(&self, key: &str) -> (r: Option<&String>)
        ensures
            match r {
                Some(v) => self@.contains_key(key@) && self@[key@] == v@,
                None => !self@.contains_key(key@),
            },
    {
        proof {
            use_type_invariant(self);
        }
        match self.position(key) {
            Some(i) => {
                proof {
                    self.lemma_model_at(i as int);
                }
                Some(&self.entries[i].1)
            },
            None => {
                proof {
                    self.lemma_model_absent(key@);
                }
                None
            },
        }
    }

    /// Sets `key` to `value`. Returns the text that was set before, if
    /// there was one.
    pub fn insert(&mut self, key: String, value: String) -> (r: Option<String>)
        ensures
            final(self)@ == old(self)@.insert(key@, value@),
            match r {
                Some(v) => old(self)@.contains_key(key@) && old(self)@[key@] == v@,
                None => !old(self)@.contains_key(key@),
            },
    {
        proof {
            use_type_invariant(&*self);
        }
        let ghost before = *self;
        let ghost target = before.model().insert(key@, value@);
        let place = self.position(key.as_str());
        let mut entries: Vec<(String, String)> = Vec::new();
        std::mem::swap(&mut entries, &mut self.entries);
        let n = entries.len();
        let (at, gone): (usize, Option<String>) = match place {
            Some(i) => {
                proof {
                    before.lemma_model_at(i as int);
                }
                let old_entry = entries.remove(i);
                entries.insert(i, (key, value));
                (i, Some(old_entry.1))
            },
            None => {
                proof {
                    before.lemma_model_absent(key@);
                }
                entries.push((key, value));
                (n, None)
            },
        };
        let fresh = Properties { entries };
        proof {
            assert(fresh.unique()) by {
                assert forall|a: int, b: int| 0 <= a < b < fresh.entries@.len() implies (
                #[trigger] fresh.entries@[a]).0@ != (#[trigger] fresh.entries@[b]).0@ by {
                    if place is Some {
                        assert(fresh.entries@[a].0@ == before.entries@[a].0@);
                        assert(fresh.entries@[b].0@ == before.entries@[b].0@);
                        assert(before.entries@[a].0@ != before.entries@[b].0@);
                    } else if b == n {
                        assert(before.entries@[a].0@ != key@);
                    } else {
                        assert(before.entries@[a].0@ != before.entries@[b].0@);
                    }
                }
            }
            assert forall|j: int| 0 <= j < fresh.entries@.len() implies target.contains_key(
                (#[trigger] fresh.entries@[j]).0@,
            ) && target[fresh.entries@[j].0@] == fresh.entries@[j].1@ by {
                if j != at {
                    before.lemma_model_at(j);
                    if place is Some {
                        if j < at {
                            assert(before.entries@[j].0@ != before.entries@[at as int].0@);
                        } else {
                            assert(before.entries@[at as int].0@ != before.entries@[j].0@);
                        }
                    } else {
                        assert(before.entries@[j].0@ != key@);
                    }
                }
            }
            assert forall|k: Seq<char>| #[trigger] target.contains_key(k) implies exists|j: int|
                fresh.has_at(k, j) by {
                if k == key@ {
                    assert(fresh.has_at(k, at as int));
                } else {
                    let j = choose|j: int| before.has_at(k, j);
                    assert(before.has_at(k, j));
                    assert(fresh.has_at(k, j));
                }
            }
            fresh.lemma_model_is(target);
        }
        *self = fresh;
        gone
    }
}

impl Properties {
    /// The settings as pairs of a name and a text, in the order in which the
    /// names were first set: each setting once and nothing else.
    pub fn to_pairs(&self) -> (r: Vec<(String, String)>)
        ensures
            forall|i: int|
                0 <= i < r@.len() ==> self@.contains_key((#[trigger] r@[i]).0@) && self@[r@[i].0@]
                    == r@[i].1@,
            forall|k: Seq<char>| #[trigger]
                self@.contains_key(k) ==> exists|i: int| 0 <= i < r@.len() && (#[trigger] r@[i]).0@ == k,
            forall|i: int, j: int|
                0 <= i < j < r@.len() ==> (#[trigger] r@[i]).0@ != (#[trigger] r@[j]).0@,
    {
        proof {
            use_type_invariant(self);
        }
        let mut out: Vec<(String, String)> = Vec::new();
        let mut i: usize = 0;
        while i < self.entries.len()
            invariant
                i <= self.entries.len(),
                out@.len() == i,
                forall|j: int|
                    0 <= j < i ==> (#[trigger] out@[j]).0@ == self.entries@[j].0@ && out@[j].1@
                        == self.entries@[j].1@,
            decreases self.entries.len() - i,
        {
            out.push((self.entries[i].0.clone(), self.entries[i].1.clone()));
            i += 1;
        }
        proof {
            assert forall|j: int| 0 <= j < out@.len() implies self@.contains_key(
                (#[trigger] out@[j]).0@,
            ) && self@[out@[j].0@] == out@[j].1@ by {
                self.lemma_model_at(j);
            }
            assert forall|k: Seq<char>| #[trigger] self@.contains_key(k) implies exists|j: int|
                0 <= j < out@.len() && (#[trigger] out@[j]).0@ == k by {
                let j = choose|j: int| self.has_at(k, j);
                assert(self.has_at(k, j));
                assert(out@[j].0@ == k);
            }
            assert forall|a: int, b: int| 0 <= a < b < out@.len() implies (#[trigger] out@[a]).0@ != (
            #[trigger] out@[b]).0@ by {
                assert(self.entries@[a].0@ != self.entries@[b].0@);
            }
        }
        out
    }

    /// These settings with those of `other` added; where both set a name,
    /// the text of `other` stands.
    pub fn merged_with(&self, other: &Properties) -> (r: Properties)
        ensures
            r@ == self@.union_prefer_right(other@),
    {
        proof {
            use_type_invariant(other);
        }
        let mut r = self.clone();
        let mut i: usize = 0;
        while i < other.entries.len()
            invariant
                i <= other.entries.len(),
                other.unique(),
                r@ == self@.union_prefer_right(other.prefix_model(i as int)),
            decreases other.entries.len() - i,
        {
            r.insert(other.entries[i].0.clone(), other.entries[i].1.clone());
            proof {
                other.lemma_prefix_step(i as int);
                assert(r@ =~= self@.union_prefer_right(other.prefix_model(i + 1)));
            }
            i += 1;
        }
        proof {
            other.lemma_prefix_all();
        }
        r
    }

    /// The settings of the first `n` entries.
    closed spec fn prefix_model(self, n: int) -> Map<Seq<char>, Seq<char>>
        decreases n,
    {
        if n <= 0 {
            Map::empty()
        } else {
            self.prefix_model(n - 1).insert(self.entries@[n - 1].0@, self.entries@[n - 1].1@)
        }
    }

    proof fn lemma_prefix_step(self, n: int)
        requires
            0 <= n < self.entries@.len(),
        ensures
            self.prefix_model(n + 1) == self.prefix_model(n).insert(
                self.entries@[n].0@,
                self.entries@[n].1@,
            ),
    {
    }

    proof fn lemma_prefix_holds(self, n: int)
        requires
            self.unique(),
            0 <= n <= self.entries@.len(),
        ensures
            forall|k: Seq<char>| #[trigger]
                self.prefix_model(n).contains_key(k) <==> exists|i: int| 0 <= i < n && self.has_at(k, i),
            forall|i: int|
                0 <= i < n ==> self.prefix_model(n)[(#[trigger] self.entries@[i]).0@]
                    == self.entries@[i].1@,
        decreases n,
    {
        if n > 0 {
            self.lemma_prefix_holds(n - 1);
            let key = self.entries@[n - 1].0@;
            assert(self.has_at(key, n - 1));
            assert forall|k: Seq<char>| #[trigger]
                self.prefix_model(n).contains_key(k) <==> exists|i: int|
                    0 <= i < n && self.has_at(k, i) by {
                if self.prefix_model(n).contains_key(k) {
                    if k == key {
                        assert(0 <= n - 1 < n && self.has_at(k, n - 1));
                    } else {
                        assert(self.prefix_model(n - 1).contains_key(k));
                        let i = choose|i: int| 0 <= i < n - 1 && self.has_at(k, i);
                        assert(0 <= i < n && self.has_at(k, i));
                    }
                }
                if exists|i: int| 0 <= i < n && self.has_at(k, i) {
                    let i = choose|i: int| 0 <= i < n && self.has_at(k, i);
                    if i < n - 1 {
                        assert(self.prefix_model(n - 1).contains_key(k));
                    }
                }
            }
            assert forall|i: int| 0 <= i < n implies self.prefix_model(n)[(
            #[trigger] self.entries@[i]).0@] == self.entries@[i].1@ by {
                if i < n - 1 {
                    assert(self.entries@[i].0@ != self.entries@[n - 1].0@);
                }
            }
        }
    }

    proof fn lemma_prefix_all(self)
        requires
            self.unique(),
        ensures
            self.prefix_model(self.entries@.len() as int) == self.model(),
    {
        let n = self.entries@.len() as int;
        self.lemma_prefix_holds(n);
        let m = self.prefix_model(n);
        assert forall|k: Seq<char>| #[trigger] m.contains_key(k) implies exists|i: int|
            self.has_at(k, i) by {
            let i = choose|i: int| 0 <= i < n && self.has_at(k, i);
            assert(self.has_at(k, i));
        }
        assert forall|i: int| 0 <= i < n implies m.contains_key((#[trigger] self.entries@[i]).0@)
            && m[self.entries@[i].0@] == self.entries@[i].1@ by {
            assert(self.has_at(self.entries@[i].0@, i));
        }
        self.lemma_model_is(m);
    }
}

impl PartialEq for Properties {
    fn eq(&self, other: &Properties) -> (r: bool) {
        proof {
            use_type_invariant(self);
            use_type_invariant(other);
            self.lemma_size(self.entries@.len() as int);
            other.lemma_size(other.entries@.len() as int);
        }
        if self.entries.len() != other.entries.len() {
            return false;
        }
        let mut i: usize = 0;
        while i < self.entries.len()
            invariant
                i <= self.entries.len(),
                self.unique(),
                forall|j: int|
                    0 <= j < i ==> other.model().contains_key((#[trigger] self.entries@[j]).0@)
                        && other.model()[self.entries@[j].0@] == self.entries@[j].1@,
            decreases self.entries.len() - i,
        {
            proof {
                self.lemma_model_at(i as int);
            }
            match other.get(self.entries[i].0.as_str()) {
                None => {
                    return false;
                },
                Some(v) => {
                    if !same_text(self.entries[i].1.as_str(), v.as_str()) {
                        return false;
                    }
                },
            }
            i += 1;
        }
        proof {
            assert forall|k: Seq<char>| #[trigger]
                self.model().contains_key(k) implies other.model().contains_key(k)
                && other.model()[k] == self.model()[k] by {
                let j = choose|j: int| self.has_at(k, j);
                assert(self.has_at(k, j));
                self.lemma_model_at(j);
                assert(other.model().contains_key(self.entries@[j].0@));
            }
            assert(self.model().dom().subset_of(other.model().dom()));
            vstd::set_lib::lemma_subset_equality(self.model().dom(), other.model().dom());
            assert(self.model() =~= other.model());
        }
        true
    }
}

impl PartialEqSpecImpl for Properties {
    open spec fn obeys_eq_spec() -> bool {
        true
    }

    open spec fn eq_spec(&self, other: &Properties) -> bool {
        self@ == other@
    }
}

impl Eq for Properties {

}

impl Properties {
    /// The names of the first `n` entries.
    spec fn prefix_names(self, n: int) -> Set<Seq<char>> {
        Set::new(|k: Seq<char>| exists|i: int| 0 <= i < n && self.has_at(k, i))
    }

    /// The first `n` entries have `n` names, and all entries have the names
    /// of the map.
    proof fn lemma_size(self, n: int)
        requires
            self.unique(),
            0 <= n <= self.entries@.len(),
        ensures
            self.prefix_names(n).finite(),
            self.prefix_names(n).len() == n,
            n == self.entries@.len() ==> self.prefix_names(n) == self.model().dom(),
        decreases n,
    {
        if n == 0 {
            assert(self.prefix_names(0) =~= Set::empty());
        } else {
            self.lemma_size(n - 1);
            let k = self.entries@[n - 1].0@;
            assert(self.has_at(k, n - 1));
            assert(!self.prefix_names(n - 1).contains(k)) by {
                if self.prefix_names(n - 1).contains(k) {
                    let i = choose|i: int| 0 <= i < n - 1 && self.has_at(k, i);
                    assert(self.entries@[i].0@ != self.entries@[n - 1].0@);
                }
            }
            assert(self.prefix_names(n) =~= self.prefix_names(n - 1).insert(k));
        }
        if n == self.entries@.len() {
            assert(self.prefix_names(n) =~= self.model().dom()) by {
                assert forall|k: Seq<char>| self.model().dom().contains(k) implies self.prefix_names(
                    n,
                ).contains(k) by {
                    let i = choose|i: int| self.has_at(k, i);
                    assert(self.has_at(k, i));
                }
            }
        }
    }

    /// The number of settings.
    pub fn len(&self) -> (r: usize)
        ensures
            r == self@.len(),
            self@.dom().finite(),
    {
        proof {
            use_type_invariant(self);
            self.lemma_size(self.entries@.len() as int);
        }
        self.entries.len()
    }
}

impl View for Properties {
    type V = Map<Seq<char>, Seq<char>>;

    open spec fn view(&self) -> Map<Seq<char>, Seq<char>> {
        self.model()
    }
}

impl Clone for Properties {
    /// A copy with the same settings.
    fn clone(&self) -> (r: Properties)
        ensures
            r@ == self@,
    {
        proof {
            use_type_invariant(self);
        }
        let mut out: Vec<(String, String)> = Vec::new();
        let mut i: usize = 0;
        while i < self.entries.len()
            invariant
                i <= self.entries.len(),
                out@.len() == i,
                forall|j: int|
                    0 <= j < i ==> (#[trigger] out@[j]).0@ == self.entries@[j].0@ && out@[j].1@
                        == self.entries@[j].1@,
            decreases self.entries.len() - i,
        {
            out.push((self.entries[i].0.clone(), self.entries[i].1.clone()));
            i += 1;
        }
        let r = Properties { entries: out };
        proof {
            assert forall|j: int| 0 <= j < r.entries@.len() implies self.model().contains_key(
                (#[trigger] r.entries@[j]).0@,
            ) && self.model()[r.entries@[j].0@] == r.entries@[j].1@ by {
                self.lemma_model_at(j);
            }
            assert forall|k: Seq<char>| #[trigger] self.model().contains_key(k) implies exists|
                j: int,
            |
                r.has_at(k, j) by {
                let j = choose|j: int| self.has_at(k, j);
                assert(self.has_at(k, j));
                assert(r.has_at(k, j));
            }
            r.lemma_model_is(self.model());
        }
        r
    }
}

impl Default for Properties {
    /// No settings.
    fn default() -> (r: Properties)
        ensures
            r@ == Map::<Seq<char>, Seq<char>>::empty(),
    {
        Properties::new()
    }
}

} // verus!
