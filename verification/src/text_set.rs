//! Sets of texts.

use crate::text;
use vstd::prelude::*;

verus! {

/// A set of texts.
#[derive(Debug)]
pub struct TextSet {
    items: Vec<String>,
}

impl View for TextSet {
    type V = Set<Seq<char>>;

    closed spec fn view(&self) -> Set<Seq<char>> {
        text::strings(self.items@).to_set()
    }
}

/// A set with a text taken out if it was in it, and put in if it was not.
pub open spec fn toggled(set: Set<Seq<char>>, item: Seq<char>) -> Set<Seq<char>> {
    if set.contains(item) {
        set.remove(item)
    } else {
        set.insert(item)
    }
}

impl TextSet {
    /// The empty set.
    pub fn new() -> (r: TextSet)
        ensures
            r@ == Set::<Seq<char>>::empty(),
    {
        let r = TextSet { items: Vec::new() };
        assert(r@ =~= Set::<Seq<char>>::empty());
        r
    }

    /// Whether a text is in the set.
    pub fn contains(&self, item: &str) -> (r: bool)
        ensures
            r == self@.contains(item@),
    {
        let ghost all = text::strings(self.items@);
        let mut i: usize = 0;
        while i < self.items.len()
            invariant
                i <= self.items@.len(),
                all == text::strings(self.items@),
                forall|k: int| 0 <= k < i ==> #[trigger] all[k] != item@,
            decreases self.items@.len() - i,
        {
            if text::same(self.items[i].as_str(), item) {
                assert(all[i as int] == item@);
                return true;
            }
            assert(all[i as int] != item@);
            i += 1;
        }
        false
    }

    /// A text is taken out of the set if it was in it, and put in if it was not.
    pub fn toggle(&mut self, item: String)
        ensures
            final(self)@ == toggled(old(self)@, item@),
    {
        if self.contains(item.as_str()) {
            self.remove(item.as_str());
        } else {
            let ghost before = text::strings(self.items@);
            self.items.push(item);
            proof {
                let after = text::strings(self.items@);
                assert(after =~= before.push(item@));
                assert(after.to_set() =~= before.to_set().insert(item@)) by {
                    assert forall|s: Seq<char>| after.to_set().contains(s) == before.to_set().insert(
                        item@,
                    ).contains(s) by {
                        if after.contains(s) {
                            let k = choose|k: int| 0 <= k < after.len() && after[k] == s;
                            if k < before.len() {
                                assert(before[k] == s);
                            }
                        }
                        if before.contains(s) {
                            let k = choose|k: int| 0 <= k < before.len() && before[k] == s;
                            assert(after[k] == s);
                        }
                        assert(after[before.len() as int] == item@);
                    }
                }
            }
        }
    }

    /// A text is taken out of the set.
    fn remove(&mut self, item: &str)
        ensures
            final(self)@ == old(self)@.remove(item@),
    {
        let ghost all = text::strings(self.items@);
        let mut kept: Vec<String> = Vec::new();
        let mut i: usize = 0;
        while i < self.items.len()
            invariant
                i <= self.items@.len(),
                all == text::strings(self.items@),
                self.items@ == old(self).items@,
                forall|s: Seq<char>| #[trigger]
                    text::strings(kept@).contains(s) <==> s != item@ && all.take(i as int).contains(
                        s,
                    ),
            decreases self.items@.len() - i,
        {
            let ghost before = text::strings(kept@);
            let ghost here = all[i as int];
            assert(self.items@[i as int]@ == here);
            if !text::same(self.items[i].as_str(), item) {
                kept.push(self.items[i].clone());
            }
            i += 1;
            proof {
                let after = text::strings(kept@);
                let front = all.take(i - 1);
                let more = all.take(i as int);
                assert(more =~= front.push(here));
                if here != item@ {
                    assert(after =~= before.push(here));
                }
                assert forall|s: Seq<char>| #[trigger] after.contains(s) <==> s != item@
                    && more.contains(s) by {
                    assert(before.contains(s) <==> s != item@ && front.contains(s));
                    if more.contains(s) {
                        let k = choose|k: int| 0 <= k < more.len() && more[k] == s;
                        if k < front.len() {
                            assert(front[k] == s);
                        }
                    }
                    if front.contains(s) {
                        let k = choose|k: int| 0 <= k < front.len() && front[k] == s;
                        assert(more[k] == s);
                    }
                    assert(more[front.len() as int] == here);
                    if here != item@ {
                        if after.contains(s) {
                            let k = choose|k: int| 0 <= k < after.len() && after[k] == s;
                            if k < before.len() {
                                assert(before[k] == s);
                            }
                        }
                        if before.contains(s) {
                            let k = choose|k: int| 0 <= k < before.len() && before[k] == s;
                            assert(after[k] == s);
                        }
                        assert(after[before.len() as int] == here);
                    }
                }
            }
        }
        self.items = kept;
        proof {
            assert(all.take(i as int) =~= all);
            let after = text::strings(self.items@);
            assert(self@ =~= old(self)@.remove(item@)) by {
                assert forall|s: Seq<char>| self@.contains(s) == old(self)@.remove(
                    item@,
                ).contains(s) by {
                    assert(after.contains(s) <==> s != item@ && all.contains(s));
                }
            }
        }
    }
}

} // verus!
