//! The variables of one frame: a mapping from names to values.
use vstd::prelude::*;
use crate::value::{Value, ValueView};

verus! {

/// A name and the value bound to it.
#[derive(Debug, PartialEq, Eq)]
pub struct Binding {
    pub name: String,
    pub value: Value,
}

/// The variables of a frame. Its value is a map; the order in which the
/// bindings were made plays no part in it.
#[derive(Debug, PartialEq, Eq)]
pub struct Scope {
    pub bindings: Vec<Binding>,
}

/// The value of the first binding of `name`.
pub open spec fn spec_find(bindings: Seq<Binding>, name: Seq<char>) -> Option<ValueView>
    decreases bindings.len(),
{
    if bindings.len() == 0 {
        None
    } else if bindings[0].name@ == name {
        Some(bindings[0].value@)
    } else {
        spec_find(bindings.drop_first(), name)
    }
}

/// The map that a sequence of bindings stands for.
pub open spec fn spec_map(bindings: Seq<Binding>) -> Map<Seq<char>, ValueView> {
    Map::new(
        |name: Seq<char>| spec_find(bindings, name) is Some,
        |name: Seq<char>| spec_find(bindings, name).unwrap(),
    )
}

impl View for Scope {
    type V = Map<Seq<char>, ValueView>;

    open spec fn view(&self) -> Map<Seq<char>, ValueView> {
        spec_map(self.bindings@)
    }
}

proof fn lemma_find_skip(bindings: Seq<Binding>, name: Seq<char>, k: int)
    requires
        0 <= k <= bindings.len(),
        forall|i: int| 0 <= i < k ==> bindings[i].name@ != name,
    ensures
        spec_find(bindings, name) == spec_find(bindings.skip(k), name),
    decreases k,
{
    if k == 0 {
        assert(bindings.skip(0) == bindings);
    } else {
        let rest = bindings.drop_first();
        assert forall|i: int| 0 <= i < k - 1 implies rest[i].name@ != name by {
            assert(rest[i] == bindings[i + 1]);
        }
        lemma_find_skip(rest, name, k - 1);
        assert(rest.skip(k - 1) == bindings.skip(k));
    }
}

proof fn lemma_find_update(bindings: Seq<Binding>, k: int, renewed: Binding, other: Seq<char>)
    requires
        0 <= k < bindings.len(),
        bindings[k].name@ == renewed.name@,
        forall|i: int| 0 <= i < k ==> bindings[i].name@ != renewed.name@,
    ensures
        spec_find(bindings.update(k, renewed), other) == if other == renewed.name@ {
            Some(renewed.value@)
        } else {
            spec_find(bindings, other)
        },
    decreases k,
{
    let after = bindings.update(k, renewed);
    if k == 0 {
        assert(after.drop_first() == bindings.drop_first());
    } else {
        let rest = bindings.drop_first();
        assert forall|i: int| 0 <= i < k - 1 implies rest[i].name@ != renewed.name@ by {
            assert(rest[i] == bindings[i + 1]);
        }
        lemma_find_update(rest, k - 1, renewed, other);
        assert(after.drop_first() == rest.update(k - 1, renewed));
    }
}

proof fn lemma_find_push(bindings: Seq<Binding>, added: Binding, other: Seq<char>)
    ensures
        spec_find(bindings.push(added), other) == if spec_find(bindings, other) is Some {
            spec_find(bindings, other)
        } else if other == added.name@ {
            Some(added.value@)
        } else {
            None
        },
    decreases bindings.len(),
{
    let after = bindings.push(added);
    if bindings.len() == 0 {
        assert(after.drop_first().len() == 0);
        assert(spec_find(after.drop_first(), other) is None);
        assert(after[0] == added);
    } else {
        lemma_find_push(bindings.drop_first(), added, other);
        assert(after.drop_first() == bindings.drop_first().push(added));
        assert(after[0] == bindings[0]);
    }
}

impl Scope {
    /// A scope without variables.
    pub fn new() -> (r: Scope)
        ensures
            r@ == Map::<Seq<char>, ValueView>::empty(),
    {
        let r = Scope { bindings: Vec::new() };
        assert(r@ =~= Map::<Seq<char>, ValueView>::empty());
        r
    }

    /// Where the first binding of `name` stands.
    fn position(&self, name: &String) -> (r: Option<usize>)
        ensures
            match r {
                Some(k) => {
                    &&& k < self.bindings.len()
                    &&& self.bindings@[k as int].name@ == name@
                    &&& forall|i: int| 0 <= i < k ==> self.bindings@[i].name@ != name@
                    &&& spec_find(self.bindings@, name@) == Some(self.bindings@[k as int].value@)
                },
                None => spec_find(self.bindings@, name@) is None,
            },
    {
        let mut i: usize = 0;
        while i < self.bindings.len()
            invariant
                i <= self.bindings.len(),
                forall|k: int| 0 <= k < i ==> self.bindings@[k].name@ != name@,
            decreases self.bindings.len() - i,
        {
            if self.bindings[i].name == *name {
                proof {
                    lemma_find_skip(self.bindings@, name@, i as int);
                }
                return Some(i);
            }
            i += 1;
        }
        proof {
            lemma_find_skip(self.bindings@, name@, i as int);
        }
        None
    }

    /// A copy of the value bound to `name`, if there is one.
    pub fn get(&self, name: &String) -> (r: Option<Value>)
        ensures
            r is Some == self@.contains_key(name@),
            r is Some ==> r.unwrap()@ == self@[name@],
    {
        match self.position(name) {
            Some(k) => Some(self.bindings[k].value.duplicate()),
            None => None,
        }
    }

    /// Binds `name` to `value`, whether or not it was bound before.
    pub fn set(&mut self, name: String, value: Value)
        ensures
            final(self)@ == old(self)@.insert(name@, value@),
    {
        let ghost before = self.bindings@;
        let ghost key = name@;
        let ghost bound = value@;
        match self.position(&name) {
            Some(k) => {
                let renewed = Binding { name, value };
                self.bindings.set(k, renewed);
                proof {
                    assert forall|other: Seq<char>|
                        spec_find(self.bindings@, other) == (if other == key {
                            Some(bound)
                        } else {
                            spec_find(before, other)
                        }) by {
                        lemma_find_update(before, k as int, renewed, other);
                    }
                }
            },
            None => {
                let added = Binding { name, value };
                self.bindings.push(added);
                proof {
                    assert forall|other: Seq<char>|
                        spec_find(self.bindings@, other) == (if other == key {
                            Some(bound)
                        } else {
                            spec_find(before, other)
                        }) by {
                        lemma_find_push(before, added, other);
                    }
                }
            },
        }
        assert(self@ =~= spec_map(before).insert(key, bound));
    }
}

} // verus!
