//! Named text values: what a route bound, what a query or a form holds.

use crate::http::same_text;
use vstd::prelude::*;

verus! {

/// The pairs of a list, each as its two texts.
pub open spec fn pairs_view(pairs: Vec<(String, String)>) -> Seq<(Seq<char>, Seq<char>)> {
    pairs@.map_values(|pair: (String, String)| (pair.0@, pair.1@))
}

/// The map that pairs make when they are entered in their order: of two pairs with
/// one key, the later one stays.
pub open spec fn map_of(pairs: Seq<(Seq<char>, Seq<char>)>) -> Map<Seq<char>, Seq<char>>
    decreases pairs.len(),
{
    if pairs.len() == 0 {
        Map::empty()
    } else {
        map_of(pairs.drop_last()).insert(pairs.last().0, pairs.last().1)
    }
}

/// A map from names to values, both texts.
#[derive(Clone, Debug)]
pub struct Params {
    pairs: Vec<(String, String)>,
}

impl View for Params {
    type V = Map<Seq<char>, Seq<char>>;

    closed spec fn view(&self) -> Map<Seq<char>, Seq<char>> {
        map_of(pairs_view(self.pairs))
    }
}

impl Params {
    /// The empty map.
    pub fn new() -> (p: Params)
        ensures
            p@ == Map::<Seq<char>, Seq<char>>::empty(),
    {
        let p = Params { pairs: Vec::new() };
        assert(pairs_view(p.pairs) =~= Seq::empty());
        p
    }

    /// The map that `pairs` make when they are entered in their order.
    pub fn from_pairs(pairs: Vec<(String, String)>) -> (p: Params)
        ensures
            p@ == map_of(pairs_view(pairs)),
    {
        Params { pairs }
    }

    /// Enters a value under a name, in place of any that stood there.
    pub fn insert(&mut self, name: String, value: String)
        ensures
            final(self)@ == old(self)@.insert(name@, value@),
    {
        let ghost before = pairs_view(self.pairs);
        self.pairs.push((name, value));
        assert(pairs_view(self.pairs) =~= before.push((name@, value@)));
        assert(pairs_view(self.pairs).drop_last() =~= before);
    }

    /// Leaves the map empty.
    pub fn clear(&mut self)
        ensures
            final(self)@ == Map::<Seq<char>, Seq<char>>::empty(),
    {
        self.pairs.clear();
        assert(pairs_view(self.pairs) =~= Seq::empty());
    }

    /// The value under `name`.
    pub fn get(&self, name: &str) -> (r: Option<&str>)
        ensures
            match r {
                Some(value) => self@.dom().contains(name@) && self@[name@] == value@,
                None => !self@.dom().contains(name@),
            },
    {
        let wanted = String::from_str(name);
        let ghost all = pairs_view(self.pairs);
        let mut i: usize = self.pairs.len();
        assert(all.take(i as int) =~= all);
        while i > 0
            invariant
                i <= self.pairs.len(),
                all == pairs_view(self.pairs),
                wanted@ == name@,
                map_of(all).dom().contains(name@) == map_of(all.take(i as int)).dom().contains(
                    name@,
                ),
                map_of(all).dom().contains(name@) ==> map_of(all)[name@] == map_of(
                    all.take(i as int),
                )[name@],
            decreases i,
        {
            i -= 1;
            assert(all.take(i + 1).last() == all[i as int]);
            assert(all.take(i + 1).drop_last() =~= all.take(i as int));
            if same_text(&self.pairs[i].0, &wanted) {
                return Some(self.pairs[i].1.as_str());
            }
        }
        assert(all.take(0).len() == 0);
        None
    }
}

} // verus!
