//! A map from names to text: the shape of a variable scope, of a header
//! table, of a query table and of an environment snapshot.

use vstd::prelude::*;

verus! {
/// The map that a list of pairs stands for: a pair overrides the pairs
/// before it that have the same name.
pub open spec fn pairs_map(pairs: Seq<(Seq<char>, Seq<char>)>) -> Map<Seq<char>, Seq<char>>
    decreases pairs.len(),
{
    if pairs.len() == 0 {
        Map::empty()
    } else {
        pairs_map(pairs.drop_last()).insert(pairs.last().0, pairs.last().1)
    }
}

/// No name occurs twice in the list.
pub open spec fn distinct_names(pairs: Seq<(Seq<char>, Seq<char>)>) -> bool {
    forall|i: int, j: int| 0 <= i < j < pairs.len() ==> pairs[i].0 != pairs[j].0
}

/// A name is in the map of a list exactly if a pair of the list has it.
pub proof fn lemma_pairs_map_domain(pairs: Seq<(Seq<char>, Seq<char>)>, name: Seq<char>)
    ensures
        pairs_map(pairs).contains_key(name) <==> exists|i: int|
            0 <= i < pairs.len() && #[trigger] pairs[i].0 == name,
    decreases pairs.len(),
{
    if pairs.len() > 0 {
        let front = pairs.drop_last();
        lemma_pairs_map_domain(front, name);
        if pairs_map(pairs).contains_key(name) {
            if pairs.last().0 == name {
            } else {
                let i = choose|i: int| 0 <= i < front.len() && #[trigger] front[i].0 == name;
            }
        }
        if exists|i: int| 0 <= i < pairs.len() && #[trigger] pairs[i].0 == name {
            let i = choose|i: int| 0 <= i < pairs.len() && #[trigger] pairs[i].0 == name;
            if i < pairs.len() - 1 {
                assert(front[i].0 == name);
            }
        }
    }
}

/// The map of a list gives a name the text of the last pair that has it.
pub proof fn lemma_pairs_map_last(pairs: Seq<(Seq<char>, Seq<char>)>, i: int)
    requires
        0 <= i < pairs.len(),
        forall|j: int| i < j < pairs.len() ==> pairs[j].0 != pairs[i].0,
    ensures
        pairs_map(pairs).contains_key(pairs[i].0),
        pairs_map(pairs)[pairs[i].0] == pairs[i].1,
    decreases pairs.len(),
{
    if i < pairs.len() - 1 {
        let front = pairs.drop_last();
        assert forall|j: int| i < j < front.len() implies front[j].0 != front[i].0 by {}
        lemma_pairs_map_last(front, i);
    }
}

/// Replacing the text of the last pair that has a name stores that text
/// under the name and changes nothing else.
pub proof fn lemma_pairs_map_update(pairs: Seq<(Seq<char>, Seq<char>)>, i: int, text: Seq<char>)
    requires
        0 <= i < pairs.len(),
        forall|j: int| i < j < pairs.len() ==> pairs[j].0 != pairs[i].0,
    ensures
        pairs_map(pairs.update(i, (pairs[i].0, text))) == pairs_map(pairs).insert(pairs[i].0, text),
    decreases pairs.len(),
{
    let changed = pairs.update(i, (pairs[i].0, text));
    if i == pairs.len() - 1 {
        assert(changed.drop_last() == pairs.drop_last());
    } else {
        let front = pairs.drop_last();
        assert forall|j: int| i < j < front.len() implies front[j].0 != front[i].0 by {}
        lemma_pairs_map_update(front, i, text);
        assert(changed.drop_last() == front.update(i, (pairs[i].0, text)));
    }
}

/// A map from names to text. Storing under a name that is present replaces
/// its text, so a map built by `new` and `insert` holds no name twice.
#[derive(Debug)]
pub struct StringMap {
    entries: Vec<(String, String)>,
}

impl Clone for StringMap {
    fn clone(&self) -> (r: Self)
        ensures
            r@ == self@,
            r.pairs() == self.pairs(),
    {
        let mut entries: Vec<(String, String)> = Vec::new();
        let mut i: usize = 0;
        while i < self.entries.len()
            invariant
                i <= self.entries.len(),
                entries@.len() == i,
                forall|j: int|
                    0 <= j < i ==> (#[trigger] entries@[j]).0@ == self.entries@[j].0@
                        && entries@[j].1@ == self.entries@[j].1@,
            decreases self.entries.len() - i,
        {
            entries.push((self.entries[i].0.clone(), self.entries[i].1.clone()));
            i += 1;
        }
        let r = StringMap { entries };
        assert(r.pairs() =~= self.pairs());
        r
    }
}

impl View for StringMap {
    type V = Map<Seq<char>, Seq<char>>;

    closed spec fn view(&self) -> Map<Seq<char>, Seq<char>> {
        pairs_map(self.pairs())
    }
}

impl StringMap {
    /// The pairs of the map, in the order in which their names were first
    /// stored.
    pub closed spec fn pairs(&self) -> Seq<(Seq<char>, Seq<char>)> {
        Seq::new(self.entries@.len(), |i: int| (self.entries@[i].0@, self.entries@[i].1@))
    }

    /// No name is held twice.
    pub open spec fn well_formed(&self) -> bool {
        distinct_names(self.pairs())
    }

    /// The map is the map of its pairs.
    pub proof fn lemma_view_of_pairs(&self)
        ensures
            self@ == pairs_map(self.pairs()),
    {
    }

    /// A map that holds nothing.
    pub fn new() -> (r: Self)
        ensures
            r@ == Map::<Seq<char>, Seq<char>>::empty(),
            r.pairs() == Seq::<(Seq<char>, Seq<char>)>::empty(),
            r.well_formed(),
    {
        let r = StringMap { entries: Vec::new() };
        r
    }

    /// The map of a list of pairs: a pair overrides the pairs before it
    /// that have the same name.
    pub fn from_pairs(pairs: Vec<(String, String)>) -> (r: Self)
        ensures
            r@ == pairs_map(Seq::new(pairs@.len(), |i: int| (pairs@[i].0@, pairs@[i].1@))),
            r.well_formed(),
    {
        let ghost given = Seq::new(pairs@.len(), |i: int| (pairs@[i].0@, pairs@[i].1@));
        let mut r = StringMap::new();
        let mut i: usize = 0;
        while i < pairs.len()
            invariant
                i <= pairs.len(),
                given == Seq::new(pairs@.len(), |i: int| (pairs@[i].0@, pairs@[i].1@)),
                r@ == pairs_map(given.take(i as int)),
                r.well_formed(),
            decreases pairs.len() - i,
        {
            assert(given.take(i + 1).drop_last() == given.take(i as int));
            r.insert(pairs[i].0.clone(), pairs[i].1.clone());
            i += 1;
        }
        assert(given.take(given.len() as int) == given);
        r
    }

    /// The number of pairs in the map.
    pub fn len(&self) -> (r: usize)
        ensures
            r == self.pairs().len(),
    {
        self.entries.len()
    }

    /// The name of the pair at position `i`.
    pub fn name_at(&self, i: usize) -> (r: &String)
        requires
            i < self.pairs().len(),
        ensures
            r@ == self.pairs()[i as int].0,
    {
        &self.entries[i].0
    }

    /// The text of the pair at position `i`.
    pub fn text_at(&self, i: usize) -> (r: &String)
        requires
            i < self.pairs().len(),
        ensures
            r@ == self.pairs()[i as int].1,
    {
        &self.entries[i].1
    }

    /// The position of the last pair that has `name`.
    fn position(&self, name: &str) -> (r: Option<usize>)
        ensures
            match r {
                Some(i) => {
                    &&& i < self.pairs().len()
                    &&& self.pairs()[i as int].0 == name@
                    &&& forall|j: int| i < j < self.pairs().len() ==> self.pairs()[j].0 != name@
                },
                None => forall|j: int| 0 <= j < self.pairs().len() ==> self.pairs()[j].0 != name@,
            },
    {
        let wanted = name.to_owned();
        let mut i: usize = self.entries.len();
        while i > 0
            invariant
                i <= self.entries.len(),
                wanted@ == name@,
                self.entries@.len() == self.pairs().len(),
                forall|j: int| i <= j < self.pairs().len() ==> self.pairs()[j].0 != name@,
            decreases i,
        {
            i -= 1;
            if self.entries[i].0 == wanted {
                return Some(i);
            }
        }
        None
    }

    /// The text stored under `name`, if any.
    pub fn get(&self, name: &str) -> (r: Option<&String>)
        ensures
            match r {
                Some(text) => self@.contains_key(name@) && self@[name@] == text@,
                None => !self@.contains_key(name@),
            },
    {
        proof {
            lemma_pairs_map_domain(self.pairs(), name@);
        }
        match self.position(name) {
            Some(i) => {
                proof {
                    lemma_pairs_map_last(self.pairs(), i as int);
                }
                Some(&self.entries[i].1)
            },
            None => None,
        }
    }

    /// Whether anything is stored under `name`.
    pub fn contains_key(&self, name: &str) -> (r: bool)
        ensures
            r == self@.contains_key(name@),
    {
        self.get(name).is_some()
    }

    /// Stores `text` under `name`, in place of what was stored there.
    pub fn insert(&mut self, name: String, text: String)
        ensures
            final(self)@ == old(self)@.insert(name@, text@),
            old(self).well_formed() ==> final(self).well_formed(),
            final(self).pairs().len() == old(self).pairs().len() + (if old(self)@.contains_key(
                name@,
            ) {
                0int
            } else {
                1int
            }),
    {
        let ghost before = self.pairs();
        proof {
            lemma_pairs_map_domain(before, name@);
        }
        match self.position(name.as_str()) {
            Some(i) => {
                proof {
                    lemma_pairs_map_update(before, i as int, text@);
                }
                self.entries.set(i, (name, text));
                assert(self.pairs() == before.update(i as int, (before[i as int].0, text@)));
            },
            None => {
                self.entries.push((name, text));
                assert(self.pairs() == before.push((name@, text@)));
                assert(self.pairs().drop_last() == before);
            },
        }
    }
}

} // verus!
