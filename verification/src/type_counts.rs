//! How many files there are of each type.

use vstd::hash_map::StringHashMap;
use vstd::prelude::*;

verus! {

/// A tally of files by type. It answers how many files of a type were
/// recorded, and lists the types in the order in which each was first seen.
pub struct TypeCounts {
    counts: StringHashMap<usize>,
    types: Vec<String>,
}

impl View for TypeCounts {
    type V = Map<Seq<char>, nat>;

    /// The number of files recorded of each type that occurs.
    closed spec fn view(&self) -> Map<Seq<char>, nat> {
        Map::new(
            |file_type: Seq<char>| self.counts@.contains_key(file_type),
            |file_type: Seq<char>| self.counts@[file_type] as nat,
        )
    }
}

impl Clone for TypeCounts {
    fn clone(&self) -> (copy: Self)
        ensures
            self.wf() ==> copy.wf() && copy@ == self@ && copy.listed() == self.listed(),
    {
        let mut copy = TypeCounts { counts: StringHashMap::new(), types: Vec::new() };
        let mut index: usize = 0;
        while index < self.types.len()
            invariant
                index <= self.types.len(),
                copy.listed() == self.listed().take(index as int),
                forall|file_type: Seq<char>| #[trigger]
                    copy.counts@.contains_key(file_type) <==> copy.listed().contains(file_type),
                self.wf() ==> forall|file_type: Seq<char>| #[trigger]
                    copy.counts@.contains_key(file_type) ==> copy.counts@[file_type]
                        == self.counts@[file_type],
            decreases self.types.len() - index,
        {
            let ghost before = copy.listed();
            let file_type = self.types[index].clone();
            let count = self.get(file_type.as_str());
            copy.counts.insert(file_type.clone(), count);
            copy.types.push(file_type);
            proof {
                let added = self.listed()[index as int];
                assert(copy.listed() =~= before.push(added));
                assert(self.listed().take(index + 1) =~= before.push(added));
                assert(self.wf() ==> self.counts@.contains_key(added)) by {
                    if self.wf() {
                        assert(self.listed().contains(added));
                    }
                }
                assert forall|other: Seq<char>| #[trigger]
                    copy.counts@.contains_key(other) <==> copy.listed().contains(other) by {
                    if other == added {
                        assert(copy.listed()[before.len() as int] == other);
                    } else if before.contains(other) {
                        let at = choose|at: int| 0 <= at < before.len() && before[at] == other;
                        assert(copy.listed()[at] == other);
                    }
                }
            }
            index += 1;
        }
        proof {
            assert(self.listed().take(index as int) =~= self.listed());
            if self.wf() {
                assert forall|file_type: Seq<char>| #[trigger]
                    copy.counts@.contains_key(file_type) implies copy.counts@[file_type] > 0 by {
                    assert(self.counts@.contains_key(file_type));
                }
                assert(copy@ =~= self@);
            }
        }
        copy
    }
}

impl TypeCounts {
    /// The types that occur, each once, in the order of their first files.
    pub closed spec fn listed(&self) -> Seq<Seq<char>> {
        self.types.deep_view()
    }

    /// The tally is well formed: the types listed are those that it counts,
    /// each listed once and counted at least once.
    pub closed spec fn wf(&self) -> bool {
        &&& self.listed().no_duplicates()
        &&& forall|file_type: Seq<char>| #[trigger]
            self.counts@.contains_key(file_type) <==> self.listed().contains(file_type)
        &&& forall|file_type: Seq<char>| #[trigger]
            self.counts@.contains_key(file_type) ==> self.counts@[file_type] > 0
    }

    /// The number of files recorded of `file_type`.
    pub open spec fn count(&self, file_type: Seq<char>) -> nat {
        if self@.contains_key(file_type) {
            self@[file_type]
        } else {
            0
        }
    }

    /// In a well-formed tally the types listed are the types counted, and no
    /// count is zero or beyond what the machine can hold.
    pub proof fn lemma_listed(&self)
        requires
            self.wf(),
        ensures
            self.listed().no_duplicates(),
            forall|file_type: Seq<char>| #[trigger]
                self@.contains_key(file_type) <==> self.listed().contains(file_type),
            forall|file_type: Seq<char>| #[trigger]
                self@.contains_key(file_type) ==> 0 < self@[file_type] <= usize::MAX,
    {
    }

    /// A tally of no files.
    pub fn new() -> (tally: Self)
        ensures
            tally.wf(),
            tally@ == Map::<Seq<char>, nat>::empty(),
            tally.listed() == Seq::<Seq<char>>::empty(),
    {
        let tally = TypeCounts { counts: StringHashMap::new(), types: Vec::new() };
        assert(tally@ =~= Map::<Seq<char>, nat>::empty());
        assert(tally.listed() =~= Seq::<Seq<char>>::empty());
        tally
    }

    /// The number of files recorded of `file_type`; 0 where there is none.
    pub fn get(&self, file_type: &str) -> (count: usize)
        ensures
            count == self.count(file_type@),
    {
        match self.counts.get(file_type) {
            Some(count) => *count,
            None => 0,
        }
    }

    /// The number of types that occur.
    pub fn len(&self) -> (count: usize)
        ensures
            count == self.listed().len(),
    {
        self.types.len()
    }

    /// The type that was first seen after `index` others.
    pub fn type_at(&self, index: usize) -> (file_type: &String)
        requires
            index < self.listed().len(),
        ensures
            file_type@ == self.listed()[index as int],
    {
        &self.types[index]
    }

    /// Records one more file of `file_type`.
    pub fn record(&mut self, file_type: &str)
        requires
            old(self).wf(),
            old(self).count(file_type@) < usize::MAX,
        ensures
            final(self).wf(),
            final(self)@ == old(self)@.insert(file_type@, old(self).count(file_type@) + 1),
            final(self).listed() == if old(self)@.contains_key(file_type@) {
                old(self).listed()
            } else {
                old(self).listed().push(file_type@)
            },
    {
        self.record_many(file_type, 1);
    }

    /// Records `files` more files of `file_type` at once; none leaves the
    /// tally as it is.
    pub fn record_many(&mut self, file_type: &str, files: usize)
        requires
            old(self).wf(),
            old(self).count(file_type@) + files <= usize::MAX,
        ensures
            final(self).wf(),
            final(self)@ == if files == 0 {
                old(self)@
            } else {
                old(self)@.insert(file_type@, (old(self).count(file_type@) + files) as nat)
            },
            final(self).listed() == if files == 0 || old(self)@.contains_key(file_type@) {
                old(self).listed()
            } else {
                old(self).listed().push(file_type@)
            },
    {
        if files == 0 {
            return;
        }
        let ghost before = self.listed();
        let known = match self.counts.get(file_type) {
            Some(count) => Some(*count),
            None => None,
        };
        match known {
            Some(count) => {
                self.counts.insert(file_type.to_owned(), count + files);
            },
            None => {
                self.counts.insert(file_type.to_owned(), files);
                self.types.push(file_type.to_owned());
                proof {
                    assert(self.listed() =~= before.push(file_type@));
                    assert forall|other: Seq<char>| #[trigger]
                        self.counts@.contains_key(other) <==> self.listed().contains(other) by {
                        if other == file_type@ {
                            assert(self.listed()[before.len() as int] == other);
                        } else if before.contains(other) {
                            let at = choose|at: int| 0 <= at < before.len() && before[at] == other;
                            assert(self.listed()[at] == other);
                        }
                    }
                }
            },
        }
        assert(self@ =~= old(self)@.insert(file_type@, (old(self).count(file_type@) + files) as nat));
    }

    /// The types that occur with their counts, in the order of `listed`.
    pub fn to_pairs(&self) -> (pairs: Vec<(String, usize)>)
        ensures
            pairs.len() == self.listed().len(),
            forall|i: int|
                0 <= i < pairs.len() ==> (#[trigger] pairs[i]).0@ == self.listed()[i]
                    && pairs[i].1 == self.count(self.listed()[i]),
    {
        let mut pairs: Vec<(String, usize)> = Vec::new();
        let mut index: usize = 0;
        while index < self.types.len()
            invariant
                index <= self.types.len(),
                pairs.len() == index,
                forall|i: int|
                    0 <= i < pairs.len() ==> (#[trigger] pairs[i]).0@ == self.listed()[i]
                        && pairs[i].1 == self.count(self.listed()[i]),
            decreases self.types.len() - index,
        {
            let file_type = self.types[index].clone();
            let count = self.get(file_type.as_str());
            pairs.push((file_type, count));
            index += 1;
        }
        pairs
    }
}

} // verus!
