//! Sets of texts, and texts under names.

use crate::text::{opt_view, same_text, views};
use vstd::prelude::*;

verus! {

broadcast use vstd::string::group_string_axioms;

/// A set of texts, which remembers the order in which they came.
#[derive(Clone, Debug)]
pub struct TextSet {
    items: Vec<String>,
}

impl View for TextSet {
    type V = Set<Seq<char>>;

    closed spec fn view(&self) -> Set<Seq<char>> {
        views(self.items@).to_set()
    }
}

impl TextSet {
    /// The texts, in the order in which they came.
    pub closed spec fn order(&self) -> Seq<Seq<char>> {
        views(self.items@)
    }

    /// No text is held twice.
    pub open spec fn wf(&self) -> bool {
        self.order().no_duplicates() && self@ == self.order().to_set()
    }

    /// The empty set.
    pub fn new() -> (r: TextSet)
        ensures
            r.wf(),
            r@ == Set::<Seq<char>>::empty(),
            r.order() == Seq::<Seq<char>>::empty(),
    {
        let r = TextSet { items: Vec::new() };
        proof {
            assert(r.order() =~= Seq::empty());
            assert(r@ =~= Set::empty());
        }
        r
    }

    fn position(&self, s: &str) -> (r: Option<usize>)
        ensures
            match r {
                Some(i) => i < self.items@.len() && self.order()[i as int] == s@,
                None => !self.order().contains(s@),
            },
    {
        let mut i: usize = 0;
        while i < self.items.len()
            invariant
                0 <= i <= self.items@.len(),
                forall|k: int| 0 <= k < i ==> self.order()[k] != s@,
            decreases self.items@.len() - i,
        {
            if same_text(self.items[i].as_str(), s) {
                return Some(i);
            }
            i = i + 1;
        }
        None
    }

    /// Whether the set holds a text.
    pub fn contains(&self, s: &str) -> (r: bool)
        requires
            self.wf(),
        ensures
            r == self@.contains(s@),
    {
        self.position(s).is_some()
    }

    /// Puts a text into the set, and says whether it is new there.
    pub fn insert(&mut self, s: &str) -> (r: bool)
        requires
            old(self).wf(),
        ensures
            final(self).wf(),
            r == !old(self)@.contains(s@),
            final(self)@ == old(self)@.insert(s@),
            final(self).order() == if r {
                old(self).order().push(s@)
            } else {
                old(self).order()
            },
    {
        let ghost before = self.order();
        match self.position(s) {
            Some(i) => {
                assert(before.contains(s@)) by {
                    assert(before[i as int] == s@);
                }
                assert(old(self)@.insert(s@) =~= old(self)@);
                false
            },
            None => {
                self.items.push(s.to_owned());
                proof {
                    assert(self.order() =~= before.push(s@));
                    assert forall|x: Seq<char>| self@.contains(x) <==> old(self)@.insert(
                        s@,
                    ).contains(x) by {
                        if before.contains(x) {
                            let k = before.index_of(x);
                            assert(self.order()[k] == x);
                        }
                        if x == s@ {
                            assert(self.order()[before.len() as int] == x);
                        }
                    }
                    assert(self@ =~= old(self)@.insert(s@));
                }
                true
            },
        }
    }

    /// Takes a text out of the set.
    pub fn remove(&mut self, s: &str)
        requires
            old(self).wf(),
        ensures
            final(self).wf(),
            final(self)@ == old(self)@.remove(s@),
    {
        let ghost before = self.order();
        match self.position(s) {
            None => {
                assert(old(self)@.remove(s@) =~= old(self)@);
            },
            Some(i) => {
                self.items.remove(i);
                proof {
                    let after = self.order();
                    assert(after =~= before.remove(i as int));
                    assert forall|x: Seq<char>| self@.contains(x) <==> old(self)@.remove(
                        s@,
                    ).contains(x) by {
                        if after.contains(x) {
                            let k = after.index_of(x);
                            if k < i {
                                assert(before[k] == x);
                            } else {
                                assert(before[k + 1] == x);
                            }
                        }
                        if before.contains(x) && x != s@ {
                            let k = before.index_of(x);
                            if k < i {
                                assert(after[k] == x);
                            } else {
                                assert(after[k - 1] == x);
                            }
                        }
                    }
                    assert(self@ =~= old(self)@.remove(s@));
                }
            },
        }
    }

    /// Takes everything out of the set.
    pub fn clear(&mut self)
        ensures
            final(self).wf(),
            final(self)@ == Set::<Seq<char>>::empty(),
    {
        self.items = Vec::new();
        proof {
            assert(self.order() =~= Seq::empty());
            assert(self@ =~= Set::empty());
        }
    }

    /// The texts, each once.
    pub fn items(&self) -> (r: Vec<String>)
        ensures
            views(r@) == self.order(),
    {
        crate::text::duplicate_all(&self.items)
    }

    /// The order holds exactly the texts of the set, each once.
    pub proof fn order_tells_the_set(&self)
        requires
            self.wf(),
        ensures
            self.order().no_duplicates(),
            forall|s: Seq<char>| self.order().contains(s) <==> #[trigger] self@.contains(s),
    {
    }

    /// How many texts the set holds.
    pub fn len(&self) -> (r: usize)
        ensures
            r == self.order().len(),
    {
        self.items.len()
    }
}

/// The text that stands under a name, or nothing.
pub open spec fn named(pairs: Seq<(Seq<char>, Seq<char>)>, name: Seq<char>) -> Option<Seq<char>>
    decreases pairs.len(),
{
    if pairs.len() == 0 {
        None
    } else if pairs[0].0 == name {
        Some(pairs[0].1)
    } else {
        named(pairs.subrange(1, pairs.len() as int), name)
    }
}

/// The first text that stands under a name.
pub fn lookup(pairs: &Vec<(String, String)>, name: &str) -> (r: Option<String>)
    ensures
        opt_view(r) == named(views(pairs@), name@),
{
    let ghost all = views(pairs@);
    let mut i: usize = 0;
    assert(all.subrange(0, all.len() as int) =~= all);
    while i < pairs.len()
        invariant
            0 <= i <= pairs@.len(),
            all == views(pairs@),
            named(all, name@) == named(all.subrange(i as int, all.len() as int), name@),
        decreases pairs@.len() - i,
    {
        proof {
            let rest = all.subrange(i as int, all.len() as int);
            assert(rest.subrange(1, rest.len() as int) =~= all.subrange(i + 1, all.len() as int));
            assert(rest[0] == pairs@[i as int]@);
        }
        if same_text(pairs[i].0.as_str(), name) {
            return Some(pairs[i].1.clone());
        }
        i = i + 1;
    }
    None
}

/// What stands under a name is the text of the first pair of that name, and there is none exactly
/// when no pair has the name.
pub proof fn names_tell_the_first(pairs: Seq<(Seq<char>, Seq<char>)>, name: Seq<char>)
    ensures
        match named(pairs, name) {
            Some(text) => exists|i: int|
                0 <= i < pairs.len() && #[trigger] pairs[i] == (name, text) && forall|k: int|
                    0 <= k < i ==> (#[trigger] pairs[k]).0 != name,
            None => forall|i: int| 0 <= i < pairs.len() ==> (#[trigger] pairs[i]).0 != name,
        },
    decreases pairs.len(),
{
    if pairs.len() > 0 {
        if pairs[0].0 == name {
            assert(pairs[0] == (name, pairs[0].1));
        } else {
            let rest = pairs.subrange(1, pairs.len() as int);
            names_tell_the_first(rest, name);
            match named(rest, name) {
                Some(text) => {
                    let i = choose|i: int|
                        0 <= i < rest.len() && #[trigger] rest[i] == (name, text) && forall|k: int|
                            0 <= k < i ==> (#[trigger] rest[k]).0 != name;
                    assert(pairs[i + 1] == rest[i]);
                    assert forall|k: int| 0 <= k < i + 1 implies (#[trigger] pairs[k]).0 != name by {
                        if k > 0 {
                            assert(rest[k - 1] == pairs[k]);
                        }
                    }
                },
                None => {
                    assert forall|i: int| 0 <= i < pairs.len() implies (#[trigger] pairs[i]).0
                        != name by {
                        if i > 0 {
                            assert(rest[i - 1] == pairs[i]);
                        }
                    }
                },
            }
        }
    }
}

} // verus!
