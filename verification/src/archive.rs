//! The index of an archive's members: their names in archive order, and a
//! map from name to position for constant-time lookups.

use crate::text::texts;
use vstd::hash_map::StringHashMap;
use vstd::prelude::*;

verus! {

/// Position of the last member called `name` among the first `to` members,
/// or -1 if there is none.
pub open spec fn last_position(names: Seq<Seq<char>>, name: Seq<char>, to: int) -> int
    decreases to,
{
    if to <= 0 || to > names.len() {
        -1
    } else if names[to - 1] == name {
        to - 1
    } else {
        last_position(names, name, to - 1)
    }
}

/// Names of the members of an archive, each with its position. Where a name
/// occurs more than once, the last occurrence is the one that is found.
pub struct ArchiveIndex {
    names: Vec<String>,
    positions: StringHashMap<usize>,
}

impl ArchiveIndex {
    /// The map holds, for each name, the position of its last occurrence.
    pub closed spec fn wf(&self) -> bool {
        forall|name: Seq<char>|
            {
                let at = last_position(texts(self.names@), name, self.names@.len() as int);
                if at >= 0 {
                    #[trigger] self.positions@.contains_key(name) && self.positions@[name] == at
                } else {
                    !self.positions@.contains_key(name)
                }
            }
    }

    /// The member names, in archive order.
    pub closed spec fn members(&self) -> Seq<Seq<char>> {
        texts(self.names@)
    }

    /// Whether a member is called `name`.
    pub open spec fn contains(&self, name: Seq<char>) -> bool {
        self.members().contains(name)
    }

    /// The index of an archive without members.
    pub fn new() -> (r: Self)
        ensures
            r.wf(),
            r.members().len() == 0,
    {
        ArchiveIndex { names: Vec::new(), positions: StringHashMap::new() }
    }

    /// Indexes the members of an archive, given their names in archive
    /// order.
    pub fn build(names: Vec<String>) -> (r: Self)
        ensures
            r.wf(),
            r.members() == texts(names@),
    {
        let mut positions: StringHashMap<usize> = StringHashMap::new();
        let mut i: usize = 0;
        while i < names.len()
            invariant
                i <= names.len(),
                forall|name: Seq<char>|
                    {
                        let at = last_position(texts(names@), name, i as int);
                        if at >= 0 {
                            #[trigger] positions@.contains_key(name) && positions@[name] == at
                        } else {
                            !positions@.contains_key(name)
                        }
                    },
            decreases names.len() - i,
        {
            let ghost before = positions@;
            let key = names[i].clone();
            positions.insert(key, i);
            i += 1;
            assert forall|name: Seq<char>|
                {
                    let at = last_position(texts(names@), name, i as int);
                    if at >= 0 {
                        #[trigger] positions@.contains_key(name) && positions@[name] == at
                    } else {
                        !positions@.contains_key(name)
                    }
                } by {
                assert(texts(names@)[i - 1] == names@[i - 1]@);
                if name != names@[i - 1]@ {
                    assert(before.contains_key(name) == positions@.contains_key(name));
                    assert(last_position(texts(names@), name, i as int) == last_position(
                        texts(names@),
                        name,
                        i - 1,
                    ));
                }
            }
        }
        ArchiveIndex { names, positions }
    }

    /// Whether a member is called `path`.
    pub fn has(&self, path: &str) -> (b: bool)
        requires
            self.wf(),
        ensures
            b == self.contains(path@),
    {
        proof {
            lemma_last_position(self.members(), path@, self.names@.len() as int);
        }
        self.positions.contains_key(path)
    }

    /// The position of the member called `path`: of the last one, where
    /// several are.
    pub fn locate(&self, path: &str) -> (r: Option<usize>)
        requires
            self.wf(),
        ensures
            match r {
                Some(at) => at == last_position(self.members(), path@, self.members().len() as int)
                    && at < self.members().len() && self.members()[at as int] == path@,
                None => !self.contains(path@),
            },
    {
        proof {
            lemma_last_position(self.members(), path@, self.names@.len() as int);
        }
        match self.positions.get(path) {
            Some(at) => Some(*at),
            None => None,
        }
    }

    /// The member names, in archive order.
    pub fn names(&self) -> (names: &Vec<String>)
        ensures
            texts(names@) == self.members(),
    {
        &self.names
    }

    /// Number of members.
    pub fn len(&self) -> (n: usize)
        ensures
            n == self.members().len(),
    {
        self.names.len()
    }
}

/// What the search from the back finds: the last member of that name among
/// the first `to`, or nothing when none of them has it.
pub proof fn lemma_last_position(names: Seq<Seq<char>>, name: Seq<char>, to: int)
    requires
        0 <= to <= names.len(),
    ensures
        ({
            let at = last_position(names, name, to);
            if at < 0 {
                at == -1 && forall|i: int| 0 <= i < to ==> names[i] != name
            } else {
                &&& 0 <= at < to
                &&& names[at] == name
                &&& forall|i: int| at < i < to ==> names[i] != name
            }
        }),
        to == names.len() ==> (last_position(names, name, to) >= 0 <==> names.contains(name)),
    decreases to,
{
    if to > 0 && names[to - 1] != name {
        lemma_last_position(names, name, to - 1);
    }
}

} // verus!
