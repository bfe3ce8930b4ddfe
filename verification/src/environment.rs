//! Environment overrides: names with values, ordered by name.

use vstd::prelude::*;

use crate::text::{precedes, text_precedes, same_text, lemma_precedes_total, lemma_precedes_transitive};

verus! {

/// A list of names with values, read from front to back: of two values for one
/// name the later one holds.
pub open spec fn overlaid(pairs: Seq<(Seq<char>, Seq<char>)>) -> Map<Seq<char>, Seq<char>>
    decreases pairs.len(),
{
    if pairs.len() == 0 {
        Map::empty()
    } else {
        overlaid(pairs.drop_last()).insert(pairs.last().0, pairs.last().1)
    }
}

/// The texts of a list of pairs of strings.
pub open spec fn pair_texts(list: Seq<(String, String)>) -> Seq<(Seq<char>, Seq<char>)> {
    list.map_values(|p: (String, String)| (p.0@, p.1@))
}

/// Whether each name comes before the next one.
pub open spec fn ascending(pairs: Seq<(Seq<char>, Seq<char>)>) -> bool {
    forall|i: int, j: int|
        0 <= i < j < pairs.len() ==> precedes(#[trigger] pairs[i].0, #[trigger] pairs[j].0)
}

/// Names with values, each name once, in the order of the names.
#[derive(Debug)]
pub struct Environment {
    entries: Vec<(String, String)>,
}

impl View for Environment {
    type V = Map<Seq<char>, Seq<char>>;

    open spec fn view(&self) -> Map<Seq<char>, Seq<char>> {
        overlaid(self.pairs())
    }
}

impl Environment {
    /// The names with their values, in order.
    pub closed spec fn pairs(&self) -> Seq<(Seq<char>, Seq<char>)> {
        pair_texts(self.entries@)
    }

    #[verifier::type_invariant]
    spec fn ordered(&self) -> bool {
        ascending(pair_texts(self.entries@))
    }

    /// No names.
    pub fn new() -> (r: Self)
        ensures
            r@ == Map::<Seq<char>, Seq<char>>::empty(),
            r.pairs().len() == 0,
    {
        Environment { entries: Vec::new() }
    }

    /// Gives `name` the value `value`, in place of any value that it had.
    pub fn insert(&mut self, name: String, value: String)
        ensures
            final(self)@ == old(self)@.insert(name@, value@),
    {
        proof {
            use_type_invariant(&*self);
        }
        let ghost old_pairs = self.pairs();
        let mut entries: Vec<(String, String)> = Vec::new();
        std::mem::swap(&mut self.entries, &mut entries);
        let mut at: usize = 0;
        while at < entries.len() && text_precedes(entries[at].0.as_str(), name.as_str())
            invariant
                at <= entries.len(),
                old_pairs == pair_texts(entries@),
                ascending(old_pairs),
                forall|i: int| 0 <= i < at ==> precedes(#[trigger] old_pairs[i].0, name@),
            decreases entries.len() - at,
        {
            assert(old_pairs[at as int].0 == entries@[at as int].0@);
            at = at + 1;
        }
        assert(at < entries.len() ==> old_pairs[at as int].0 == entries@[at as int].0@);
        if at < entries.len() && same_text(entries[at].0.as_str(), name.as_str()) {
            let ghost new_pairs = old_pairs.update(at as int, (name@, value@));
            entries.set(at, (name, value));
            proof {
                assert(pair_texts(entries@) =~= new_pairs);
                assert forall|i: int| at < i < old_pairs.len() implies #[trigger] old_pairs[i].0
                    != name@ by {
                    assert(precedes(old_pairs[at as int].0, old_pairs[i].0));
                    lemma_precedes_total(old_pairs[at as int].0, old_pairs[i].0);
                }
                lemma_overlaid_update(old_pairs, at as int, name@, value@);
                assert(ascending(new_pairs)) by {
                    assert forall|i: int, j: int| 0 <= i < j < new_pairs.len() implies precedes(
                        #[trigger] new_pairs[i].0,
                        #[trigger] new_pairs[j].0,
                    ) by {
                        assert(precedes(old_pairs[i].0, old_pairs[j].0));
                    }
                }
            }
        } else {
            let ghost new_pairs = old_pairs.insert(at as int, (name@, value@));
            proof {
                assert forall|i: int| at <= i < old_pairs.len() implies precedes(
                    name@,
                    #[trigger] old_pairs[i].0,
                ) by {
                    lemma_precedes_total(old_pairs[at as int].0, name@);
                    if i > at {
                        assert(precedes(old_pairs[at as int].0, old_pairs[i].0));
                        lemma_precedes_transitive(name@, old_pairs[at as int].0, old_pairs[i].0);
                    }
                }
                assert forall|i: int| at <= i < old_pairs.len() implies #[trigger] old_pairs[i].0
                    != name@ by {
                    lemma_precedes_total(name@, old_pairs[i].0);
                }
                lemma_overlaid_insert(old_pairs, at as int, name@, value@);
            }
            entries.insert(at, (name, value));
            proof {
                assert(pair_texts(entries@) =~= new_pairs);
                assert(ascending(new_pairs)) by {
                    assert forall|i: int, j: int| 0 <= i < j < new_pairs.len() implies precedes(
                        #[trigger] new_pairs[i].0,
                        #[trigger] new_pairs[j].0,
                    ) by {
                        let x = if i < at {
                            i
                        } else {
                            i - 1
                        };
                        let y = if j < at {
                            j
                        } else {
                            j - 1
                        };
                        if i != at && j != at {
                            assert(precedes(old_pairs[x].0, old_pairs[y].0));
                        } else if i == at {
                            assert(precedes(name@, old_pairs[y].0));
                        } else {
                            assert(precedes(old_pairs[x].0, name@));
                        }
                    }
                }
            }
        }
        self.entries = entries;
    }

    /// The names with values that a list gives, read from front to back.
    pub fn from_pairs(pairs: Vec<(String, String)>) -> (r: Self)
        ensures
            r@ == overlaid(pair_texts(pairs@)),
    {
        let mut r = Environment::new();
        let mut i: usize = 0;
        while i < pairs.len()
            invariant
                i <= pairs.len(),
                r@ == overlaid(pair_texts(pairs@.take(i as int))),
            decreases pairs.len() - i,
        {
            proof {
                let next = pair_texts(pairs@.take(i + 1));
                assert(next.drop_last() =~= pair_texts(pairs@.take(i as int)));
                assert(next.last() == (pairs@[i as int].0@, pairs@[i as int].1@));
            }
            r.insert(pairs[i].0.clone(), pairs[i].1.clone());
            i = i + 1;
        }
        assert(pairs@.take(pairs@.len() as int) =~= pairs@);
        r
    }

    /// The names with their values, each name once, in the order of the names.
    pub fn entries(&self) -> (r: &Vec<(String, String)>)
        ensures
            pair_texts(r@) == self.pairs(),
            ascending(pair_texts(r@)),
            overlaid(pair_texts(r@)) == self@,
    {
        proof {
            use_type_invariant(self);
        }
        &self.entries
    }
}

impl Clone for Environment {
    fn clone(&self) -> (r: Self)
        ensures
            r@ == self@,
            r.pairs() == self.pairs(),
    {
        proof {
            use_type_invariant(self);
        }
        let mut entries: Vec<(String, String)> = Vec::new();
        let mut i: usize = 0;
        while i < self.entries.len()
            invariant
                i <= self.entries.len(),
                pair_texts(entries@) == pair_texts(self.entries@.take(i as int)),
            decreases self.entries.len() - i,
        {
            let ghost before = entries@;
            entries.push((self.entries[i].0.clone(), self.entries[i].1.clone()));
            proof {
                assert(self.entries@.take(i + 1) =~= self.entries@.take(i as int).push(
                    self.entries@[i as int],
                ));
                assert(pair_texts(entries@) =~= pair_texts(before).push(
                    (self.entries@[i as int].0@, self.entries@[i as int].1@),
                ));
                assert(pair_texts(self.entries@.take(i + 1)) =~= pair_texts(
                    self.entries@.take(i as int),
                ).push((self.entries@[i as int].0@, self.entries@[i as int].1@)));
            }
            i = i + 1;
        }
        assert(self.entries@.take(self.entries@.len() as int) =~= self.entries@);
        Environment { entries }
    }
}

/// Each name of a list has the value that stands last for it.
pub proof fn law_last_value_holds(pairs: Seq<(Seq<char>, Seq<char>)>, at: int)
    requires
        0 <= at < pairs.len(),
        forall|i: int| at < i < pairs.len() ==> #[trigger] pairs[i].0 != pairs[at].0,
    ensures
        overlaid(pairs).contains_key(pairs[at].0),
        overlaid(pairs)[pairs[at].0] == pairs[at].1,
    decreases pairs.len(),
{
    if at < pairs.len() - 1 {
        let head = pairs.drop_last();
        assert(pairs[pairs.len() - 1].0 != pairs[at].0);
        assert forall|i: int| at < i < head.len() implies #[trigger] head[i].0 != head[at].0 by {
            assert(pairs[i].0 != pairs[at].0);
        }
        law_last_value_holds(head, at);
    }
}

/// Exactly the names that a list gives have a value.
pub proof fn law_names_are_those_given(pairs: Seq<(Seq<char>, Seq<char>)>, name: Seq<char>)
    ensures
        overlaid(pairs).contains_key(name) <==> exists|i: int|
            0 <= i < pairs.len() && (#[trigger] pairs[i]).0 == name,
    decreases pairs.len(),
{
    if pairs.len() > 0 {
        let head = pairs.drop_last();
        let last = pairs.len() - 1;
        law_names_are_those_given(head, name);
        if overlaid(pairs).contains_key(name) {
            if pairs.last().0 == name {
                assert(pairs[last].0 == name);
            } else {
                let i = choose|i: int| 0 <= i < head.len() && (#[trigger] head[i]).0 == name;
                assert(pairs[i].0 == name);
            }
        }
        if exists|i: int| 0 <= i < pairs.len() && (#[trigger] pairs[i]).0 == name {
            let i = choose|i: int| 0 <= i < pairs.len() && (#[trigger] pairs[i]).0 == name;
            if i < last {
                assert(head[i].0 == name);
            }
        }
    }
}

/// The entries of an environment are its names with their values: each name once, before
/// every name that is later in the order of texts, and with the value that it has.
pub proof fn law_entries_are_the_names(env: Environment, entries: &Vec<(String, String)>)
    requires
        call_ensures(Environment::entries, (&env,), entries),
    ensures
        forall|i: int, j: int|
            0 <= i < j < entries@.len() ==> precedes(
                (#[trigger] entries@[i]).0@,
                (#[trigger] entries@[j]).0@,
            ),
        forall|i: int|
            0 <= i < entries@.len() ==> env@.contains_key((#[trigger] entries@[i]).0@)
                && env@[entries@[i].0@] == entries@[i].1@,
        forall|name: Seq<char>| #[trigger]
            env@.contains_key(name) ==> exists|i: int|
                0 <= i < entries@.len() && (#[trigger] entries@[i]).0@ == name,
{
    let pairs = pair_texts(entries@);
    assert forall|i: int, j: int| 0 <= i < j < entries@.len() implies precedes(
        (#[trigger] entries@[i]).0@,
        (#[trigger] entries@[j]).0@,
    ) by {
        assert(precedes(pairs[i].0, pairs[j].0));
    }
    assert forall|at: int| 0 <= at < entries@.len() implies env@.contains_key(
        (#[trigger] entries@[at]).0@,
    ) && env@[entries@[at].0@] == entries@[at].1@ by {
        assert forall|i: int| at < i < pairs.len() implies #[trigger] pairs[i].0 != pairs[at].0 by {
            assert(precedes(pairs[at].0, pairs[i].0));
            lemma_precedes_total(pairs[at].0, pairs[i].0);
        }
        law_last_value_holds(pairs, at);
    }
    assert forall|name: Seq<char>| #[trigger] env@.contains_key(name) implies exists|i: int|
        0 <= i < entries@.len() && (#[trigger] entries@[i]).0@ == name by {
        law_names_are_those_given(pairs, name);
        let i = choose|i: int| 0 <= i < pairs.len() && (#[trigger] pairs[i]).0 == name;
        assert(entries@[i].0@ == name);
    }
}

/// A variable that is set has its value from then on, in place of any other, and no other
/// variable changes.
pub proof fn law_setting_changes_one_variable(
    env: &mut Environment,
    name: String,
    value: String,
    other: Seq<char>,
)
    requires
        call_ensures(Environment::insert, (env, name, value), ()),
    ensures
        final(env)@.contains_key(name@),
        final(env)@[name@] == value@,
        other != name@ ==> (final(env)@.contains_key(other) <==> old(env)@.contains_key(other)),
        other != name@ && old(env)@.contains_key(other) ==> final(env)@[other] == old(env)@[other],
{
}

proof fn lemma_overlaid_update(
    pairs: Seq<(Seq<char>, Seq<char>)>,
    at: int,
    name: Seq<char>,
    value: Seq<char>,
)
    requires
        0 <= at < pairs.len(),
        pairs[at].0 == name,
        forall|i: int| at < i < pairs.len() ==> #[trigger] pairs[i].0 != name,
    ensures
        overlaid(pairs.update(at, (name, value))) == overlaid(pairs).insert(name, value),
    decreases pairs.len(),
{
    let new = pairs.update(at, (name, value));
    if at == pairs.len() - 1 {
        assert(new.drop_last() =~= pairs.drop_last());
        assert(overlaid(new) =~= overlaid(pairs).insert(name, value));
    } else {
        let head = pairs.drop_last();
        assert forall|i: int| at < i < head.len() implies #[trigger] head[i].0 != name by {
            assert(pairs[i].0 != name);
        }
        lemma_overlaid_update(head, at, name, value);
        assert(new.drop_last() =~= head.update(at, (name, value)));
        assert(pairs[pairs.len() - 1].0 != name);
        assert(overlaid(new) =~= overlaid(pairs).insert(name, value));
    }
}

proof fn lemma_overlaid_insert(
    pairs: Seq<(Seq<char>, Seq<char>)>,
    at: int,
    name: Seq<char>,
    value: Seq<char>,
)
    requires
        0 <= at <= pairs.len(),
        forall|i: int| at <= i < pairs.len() ==> #[trigger] pairs[i].0 != name,
    ensures
        overlaid(pairs.insert(at, (name, value))) == overlaid(pairs).insert(name, value),
    decreases pairs.len(),
{
    let new = pairs.insert(at, (name, value));
    if at == pairs.len() {
        assert(new.drop_last() =~= pairs);
    } else {
        let head = pairs.drop_last();
        assert forall|i: int| at <= i < head.len() implies #[trigger] head[i].0 != name by {
            assert(pairs[i].0 != name);
        }
        lemma_overlaid_insert(head, at, name, value);
        assert(new.drop_last() =~= head.insert(at, (name, value)));
        assert(pairs[pairs.len() - 1].0 != name);
        assert(overlaid(new) =~= overlaid(pairs).insert(name, value));
    }
}

} // verus!
