//! A small table from names to values.
use vstd::prelude::*;

use crate::text::str_eq;

verus! {

/// A table from names to values. No name occurs twice.
#[derive(Debug)]
pub struct Table<T: View> {
    entries: Vec<(String, T)>,
}

/// Whether no name occurs twice.
spec fn distinct<T>(e: Seq<(String, T)>) -> bool {
    forall|i: int, j: int| 0 <= i < j < e.len() ==> (#[trigger] e[i]).0@ != (#[trigger] e[j]).0@
}

/// The values by their names.
spec fn contents<T: View>(e: Seq<(String, T)>) -> Map<Seq<char>, T::V>
    decreases e.len(),
{
    if e.len() == 0 {
        Map::empty()
    } else {
        contents(e.drop_last()).insert(e.last().0@, e.last().1@)
    }
}

proof fn lemma_contents<T: View>(e: Seq<(String, T)>)
    requires
        distinct(e),
    ensures
        forall|i: int|
            0 <= i < e.len() ==> contents(e).contains_key((#[trigger] e[i]).0@) && contents(
                e,
            )[e[i].0@] == e[i].1@,
        forall|k: Seq<char>| #[trigger]
            contents(e).contains_key(k) ==> exists|i: int|
                0 <= i < e.len() && (#[trigger] e[i]).0@ == k,
        contents(e).dom().finite(),
        contents(e).dom().len() == e.len(),
    decreases e.len(),
{
    if e.len() > 0 {
        let d = e.drop_last();
        assert forall|i: int, j: int| 0 <= i < j < d.len() implies (#[trigger] d[i]).0@ != (
        #[trigger] d[j]).0@ by {
            assert(d[i] == e[i] && d[j] == e[j]);
        }
        lemma_contents(d);
        assert forall|i: int| 0 <= i < e.len() implies contents(e).contains_key(
            (#[trigger] e[i]).0@,
        ) && contents(e)[e[i].0@] == e[i].1@ by {
            if i < d.len() {
                assert(d[i] == e[i]);
                assert(e[i].0@ != e[e.len() - 1].0@);
            }
        }
        assert forall|k: Seq<char>| #[trigger] contents(e).contains_key(k) implies exists|i: int|
            0 <= i < e.len() && (#[trigger] e[i]).0@ == k by {
            if k == e.last().0@ {
                assert(e[e.len() - 1].0@ == k);
            } else {
                assert(contents(d).contains_key(k));
                let i = choose|i: int| 0 <= i < d.len() && (#[trigger] d[i]).0@ == k;
                assert(e[i].0@ == k);
            }
        }
        assert(!contents(d).contains_key(e.last().0@)) by {
            if contents(d).contains_key(e.last().0@) {
                let i = choose|i: int| 0 <= i < d.len() && (#[trigger] d[i]).0@ == e.last().0@;
                assert(e[i].0@ != e[e.len() - 1].0@);
            }
        }
        assert(contents(e).dom() =~= contents(d).dom().insert(e.last().0@));
    }
}

/// Two tables with the same entries hold the same, in whatever order.
proof fn lemma_contents_same<T: View>(e: Seq<(String, T)>, m: Map<Seq<char>, T::V>)
    requires
        distinct(e),
        forall|i: int|
            0 <= i < e.len() ==> m.contains_key((#[trigger] e[i]).0@) && m[e[i].0@] == e[i].1@,
        forall|k: Seq<char>| #[trigger]
            m.contains_key(k) ==> exists|i: int| 0 <= i < e.len() && (#[trigger] e[i]).0@ == k,
    ensures
        contents(e) == m,
{
    lemma_contents(e);
    assert forall|k: Seq<char>| contents(e).contains_key(k) == m.contains_key(k) by {
        if contents(e).contains_key(k) {
            let i = choose|i: int| 0 <= i < e.len() && (#[trigger] e[i]).0@ == k;
            assert(m.contains_key(e[i].0@));
        }
        if m.contains_key(k) {
            let i = choose|i: int| 0 <= i < e.len() && (#[trigger] e[i]).0@ == k;
            assert(contents(e).contains_key(e[i].0@));
        }
    }
    assert forall|k: Seq<char>| contents(e).contains_key(k) implies contents(e)[k] == m[k] by {
        let i = choose|i: int| 0 <= i < e.len() && (#[trigger] e[i]).0@ == k;
        assert(contents(e)[e[i].0@] == e[i].1@);
        assert(m[e[i].0@] == e[i].1@);
    }
    assert(contents(e) =~= m);
}

impl<T: View> View for Table<T> {
    type V = Map<Seq<char>, T::V>;

    closed spec fn view(&self) -> Map<Seq<char>, T::V> {
        contents(self.entries@)
    }
}

impl<T: View> Table<T> {
    #[verifier::type_invariant]
    spec fn no_name_twice(self) -> bool {
        distinct(self.entries@)
    }

    /// A table without entries.
    pub fn new() -> (r: Table<T>)
        ensures
            r@ == Map::<Seq<char>, T::V>::empty(),
    {
        Table { entries: Vec::new() }
    }

    /// The number of entries.
    pub fn len(&self) -> (r: usize)
        ensures
            self@.dom().finite(),
            r == self@.dom().len(),
    {
        proof {
            use_type_invariant(self);
            lemma_contents(self.entries@);
        }
        self.entries.len()
    }

    fn find(&self, name: &str) -> (r: Option<usize>)
        ensures
            r matches Some(i) ==> i < self.entries@.len() && self.entries@[i as int].0@ == name@,
            r is None ==> forall|i: int|
                0 <= i < self.entries@.len() ==> (#[trigger] self.entries@[i]).0@ != name@,
            r is Some <==> self@.contains_key(name@),
            r matches Some(i) ==> self@[name@] == self.entries@[i as int].1@,
    {
        proof {
            use_type_invariant(self);
            lemma_contents(self.entries@);
        }
        let mut i: usize = 0;
        while i < self.entries.len()
            invariant
                i <= self.entries@.len(),
                forall|k: int| 0 <= k < i ==> (#[trigger] self.entries@[k]).0@ != name@,
                forall|k: int|
                    0 <= k < self.entries@.len() ==> self@.contains_key(
                        (#[trigger] self.entries@[k]).0@,
                    ) && self@[self.entries@[k].0@] == self.entries@[k].1@,
            decreases self.entries@.len() - i,
        {
            if str_eq(self.entries[i].0.as_str(), name) {
                return Some(i);
            }
            i += 1;
        }
        None
    }

    /// Whether there is a value under a name.
    pub fn contains(&self, name: &str) -> (r: bool)
        ensures
            r == self@.contains_key(name@),
    {
        self.find(name).is_some()
    }

    /// The value under a name.
    pub fn get(&self, name: &str) -> (r: Option<&T>)
        ensures
            r is Some <==> self@.contains_key(name@),
            r matches Some(v) ==> v@ == self@[name@],
    {
        match self.find(name) {
            Some(i) => Some(&self.entries[i].1),
            None => None,
        }
    }

    /// Takes the value under a name out of the table.
    pub fn remove(&mut self, name: &str) -> (r: Option<T>)
        ensures
            r is Some <==> old(self)@.contains_key(name@),
            r matches Some(v) ==> v@ == old(self)@[name@],
            final(self)@ == old(self)@.remove(name@),
    {
        let ghost before = self.entries@;
        let ghost m = self@;
        proof {
            use_type_invariant(&*self);
            lemma_contents(before);
        }
        match self.find(name) {
            Some(i) => {
                let mut entries: Vec<(String, T)> = Vec::new();
                std::mem::swap(&mut entries, &mut self.entries);
                let (_, v) = entries.remove(i);
                proof {
                    let e = entries@;
                    assert(e =~= before.remove(i as int));
                    assert forall|a: int, b: int| 0 <= a < b < e.len() implies (#[trigger] e[a]).0@
                        != (#[trigger] e[b]).0@ by {
                        let x = if a < i {
                            a
                        } else {
                            a + 1
                        };
                        let y = if b < i {
                            b
                        } else {
                            b + 1
                        };
                        assert(e[a] == before[x] && e[b] == before[y]);
                    }
                    let gone = m.remove(name@);
                    assert forall|k: int| 0 <= k < e.len() implies gone.contains_key(
                        (#[trigger] e[k]).0@,
                    ) && gone[e[k].0@] == e[k].1@ by {
                        let x = if k < i {
                            k
                        } else {
                            k + 1
                        };
                        assert(e[k] == before[x]);
                        if x < i {
                            assert(before[x].0@ != before[i as int].0@);
                        } else {
                            assert(before[i as int].0@ != before[x].0@);
                        }
                    }
                    assert forall|k: Seq<char>| #[trigger] gone.contains_key(k) implies exists|
                        j: int,
                    |
                        0 <= j < e.len() && (#[trigger] e[j]).0@ == k by {
                        assert(m.contains_key(k));
                        let x = choose|x: int| 0 <= x < before.len() && (#[trigger] before[x]).0@ == k;
                        assert(x != i);
                        let j = if x < i {
                            x
                        } else {
                            x - 1
                        };
                        assert(e[j] == before[x]);
                    }
                    lemma_contents_same(e, gone);
                }
                self.entries = entries;
                Some(v)
            },
            None => {
                assert(m.remove(name@) =~= m);
                None
            },
        }
    }

    /// Puts a value under a name, in place of the one that stood there.
    pub fn insert(&mut self, name: &str, value: T) -> (r: Option<T>)
        ensures
            r is Some <==> old(self)@.contains_key(name@),
            r matches Some(v) ==> v@ == old(self)@[name@],
            final(self)@ == old(self)@.insert(name@, value@),
    {
        let ghost m = self@;
        let old_value = self.remove(name);
        let ghost before = self.entries@;
        proof {
            use_type_invariant(&*self);
            lemma_contents(before);
        }
        let mut entries: Vec<(String, T)> = Vec::new();
        std::mem::swap(&mut entries, &mut self.entries);
        entries.push((name.to_owned(), value));
        proof {
            let e = entries@;
            assert(e.drop_last() =~= before);
            assert forall|a: int, b: int| 0 <= a < b < e.len() implies (#[trigger] e[a]).0@ != (
            #[trigger] e[b]).0@ by {
                assert(e[a] == before[a]);
                if b < before.len() {
                    assert(e[b] == before[b]);
                } else {
                    assert(contents(before).contains_key(before[a].0@));
                }
            }
            assert(contents(e) =~= m.insert(name@, value@));
        }
        self.entries = entries;
        old_value
    }

    /// Takes all entries out of the table.
    pub fn clear(&mut self)
        ensures
            final(self)@ == Map::<Seq<char>, T::V>::empty(),
    {
        self.entries = Vec::new();
    }

    /// All names, each once.
    pub fn names(&self) -> (r: Vec<String>)
        ensures
            forall|k: Seq<char>| #[trigger]
                self@.contains_key(k) <==> exists|i: int|
                    0 <= i < r@.len() && (#[trigger] r@[i])@ == k,
            forall|i: int, j: int|
                0 <= i < j < r@.len() ==> (#[trigger] r@[i])@ != (#[trigger] r@[j])@,
    {
        proof {
            use_type_invariant(self);
            lemma_contents(self.entries@);
        }
        let mut out: Vec<String> = Vec::new();
        let mut i: usize = 0;
        while i < self.entries.len()
            invariant
                i <= self.entries@.len(),
                out@.len() == i,
                forall|k: int| 0 <= k < i ==> (#[trigger] out@[k])@ == self.entries@[k].0@,
            decreases self.entries@.len() - i,
        {
            out.push(self.entries[i].0.clone());
            i += 1;
        }
        proof {
            let e = self.entries@;
            assert forall|k: Seq<char>| #[trigger] self@.contains_key(k) implies exists|j: int|
                0 <= j < out@.len() && (#[trigger] out@[j])@ == k by {
                let j = choose|j: int| 0 <= j < e.len() && (#[trigger] e[j]).0@ == k;
                assert(out@[j]@ == k);
            }
            assert forall|j: int| 0 <= j < out@.len() implies self@.contains_key(
                (#[trigger] out@[j])@,
            ) by {
                assert(contents(e).contains_key(e[j].0@));
            }
            assert forall|a: int, b: int| 0 <= a < b < out@.len() implies (#[trigger] out@[a])@ != (
            #[trigger] out@[b])@ by {
                assert(e[a].0@ != e[b].0@);
            }
        }
        out
    }
}

} // verus!
