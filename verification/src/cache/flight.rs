//! Which names have a query to upstream under way, so that a second query
//! for a name waits for the answer to the first instead of asking again.

use vstd::prelude::*;
use crate::cache::limit_map::names_of;
use crate::filter::{is_listed, without};

verus! {

/// The names for which a query to upstream is under way.
#[derive(Debug)]
pub struct Flights {
    names: Vec<String>,
}

impl View for Flights {
    type V = Set<Seq<char>>;

    closed spec fn view(&self) -> Set<Seq<char>> {
        names_of(self.names@).to_set()
    }
}

/// A list without `name` holds every other entry that it held, and not
/// `name`.
pub proof fn lemma_without_is_removal(list: Seq<Seq<char>>, name: Seq<char>)
    ensures
        without(list, name).to_set() == list.to_set().remove(name),
    decreases list.len(),
{
    if list.len() == 0 {
        assert(without(list, name).to_set() =~= list.to_set().remove(name));
    } else {
        let front = list.drop_last();
        let last = list.last();
        lemma_without_is_removal(front, name);
        assert(list =~= front.push(last));
        assert forall|x: Seq<char>| list.to_set().contains(x) <==> front.to_set().contains(x) || x
            == last by {
            if list.to_set().contains(x) {
                let i = choose|i: int| 0 <= i < list.len() && list[i] == x;
                if i < front.len() {
                    assert(front[i] == x);
                }
            }
            if front.to_set().contains(x) {
                let i = choose|i: int| 0 <= i < front.len() && front[i] == x;
                assert(list[i] == x);
            }
            if x == last {
                assert(list[list.len() - 1] == x);
            }
        }
        let kept = without(front, name);
        if last == name {
            assert(without(list, name).to_set() =~= list.to_set().remove(name));
        } else {
            let out = kept.push(last);
            assert forall|x: Seq<char>| out.to_set().contains(x) <==> kept.to_set().contains(x)
                || x == last by {
                if out.to_set().contains(x) {
                    let i = choose|i: int| 0 <= i < out.len() && out[i] == x;
                    if i < kept.len() {
                        assert(kept[i] == x);
                    }
                }
                if kept.to_set().contains(x) {
                    let i = choose|i: int| 0 <= i < kept.len() && kept[i] == x;
                    assert(out[i] == x);
                }
                if x == last {
                    assert(out[out.len() - 1] == x);
                }
            }
            assert(without(list, name).to_set() =~= list.to_set().remove(name));
        }
    }
}

impl Flights {
    /// No query is under way.
    pub fn new() -> (flights: Self)
        ensures
            flights@ == Set::<Seq<char>>::empty(),
    {
        let flights = Flights { names: Vec::new() };
        assert(flights@ =~= Set::<Seq<char>>::empty());
        flights
    }

    /// Notes that a query for `name` goes to upstream, unless one is under
    /// way already: tells whether the caller is the one to ask.
    pub fn begin(&mut self, name: &String) -> (first: bool)
        ensures
            first == !old(self)@.contains(name@),
            final(self)@ == old(self)@.insert(name@),
    {
        let ghost before = names_of(self.names@);
        if is_listed(&self.names, name) {
            assert(self@ =~= old(self)@.insert(name@));
            return false;
        }
        self.names.push(name.clone());
        proof {
            let after = names_of(self.names@);
            assert(after =~= before.push(name@));
            assert forall|x: Seq<char>| after.to_set().contains(x) <==> before.to_set().contains(x)
                || x == name@ by {
                if after.to_set().contains(x) {
                    let i = choose|i: int| 0 <= i < after.len() && after[i] == x;
                    if i < before.len() {
                        assert(before[i] == x);
                    }
                }
                if before.to_set().contains(x) {
                    let i = choose|i: int| 0 <= i < before.len() && before[i] == x;
                    assert(after[i] == x);
                }
                if x == name@ {
                    assert(after[after.len() - 1] == x);
                }
            }
            assert(self@ =~= old(self)@.insert(name@));
        }
        true
    }

    /// Notes that the query for `name` is over.
    pub fn end(&mut self, name: &String)
        ensures
            final(self)@ == old(self)@.remove(name@),
    {
        let ghost before = names_of(self.names@);
        let mut kept: Vec<String> = Vec::new();
        let n = self.names.len();
        let mut i: usize = 0;
        assert(before.take(0) =~= Seq::<Seq<char>>::empty());
        assert(names_of(kept@) =~= Seq::<Seq<char>>::empty());
        while i < n
            invariant
                n == self.names@.len(),
                before == names_of(self.names@),
                i <= n,
                names_of(kept@) == without(before.take(i as int), name@),
            decreases n - i,
        {
            let ghost so_far = names_of(kept@);
            proof {
                let upto = before.take(i + 1);
                assert(upto.drop_last() =~= before.take(i as int));
                assert(upto.last() == self.names@[i as int]@);
            }
            if !(self.names[i] == *name) {
                kept.push(self.names[i].clone());
                assert(names_of(kept@) =~= so_far.push(self.names@[i as int]@));
            }
            i = i + 1;
        }
        proof {
            assert(before.take(n as int) =~= before);
            lemma_without_is_removal(before, name@);
        }
        self.names = kept;
    }

    /// Whether a query for `name` is under way.
    pub fn contains(&self, name: &String) -> (yes: bool)
        ensures
            yes == self@.contains(name@),
    {
        let found = is_listed(&self.names, name);
        proof {
            let list = names_of(self.names@);
            if found {
                let i = choose|i: int| 0 <= i < list.len() && list[i] == name@;
                assert(list.to_set().contains(list[i]));
            }
        }
        found
    }
}

} // verus!
