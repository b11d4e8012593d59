//! Sets of paths.

use vstd::prelude::*;

verus! {

/// The texts of a list of strings, in order.
pub open spec fn texts(strings: Seq<String>) -> Seq<Seq<char>> {
    strings.map_values(|s: String| s@)
}

/// A set of paths: no path is held twice, and the paths stay in the order
/// in which they were inserted.
#[derive(Debug, PartialEq, Eq, Hash)]
pub struct PathSet {
    paths: Vec<String>,
}

impl View for PathSet {
    type V = Seq<Seq<char>>;

    closed spec fn view(&self) -> Seq<Seq<char>> {
        texts(self.paths@)
    }
}

impl Clone for PathSet {
    fn clone(&self) -> (r: PathSet)
        ensures
            r@ == self@,
    {
        proof {
            use_type_invariant(self);
        }
        let mut paths: Vec<String> = Vec::new();
        let mut i: usize = 0;
        while i < self.paths.len()
            invariant
                i <= self.paths.len(),
                paths@.len() == i,
                forall|j: int| 0 <= j < i ==> paths@[j]@ == self.paths@[j]@,
            decreases self.paths.len() - i,
        {
            paths.push(self.paths[i].clone());
            i += 1;
        }
        proof {
            assert(texts(paths@) =~= texts(self.paths@));
        }
        PathSet { paths }
    }
}

impl PathSet {
    #[verifier::type_invariant]
    spec fn distinct(self) -> bool {
        texts(self.paths@).no_duplicates()
    }

    /// The set without paths.
    pub fn new() -> (r: PathSet)
        ensures
            r@.len() == 0,
    {
        PathSet { paths: Vec::new() }
    }

    /// The number of paths.
    pub fn len(&self) -> (r: usize)
        ensures
            r == self@.len(),
    {
        self.paths.len()
    }

    /// Whether the set holds no path.
    pub fn is_empty(&self) -> (r: bool)
        ensures
            r == (self@.len() == 0),
    {
        self.paths.len() == 0
    }

    /// Whether the set holds `path`.
    pub fn contains(&self, path: &str) -> (r: bool)
        ensures
            r == self@.contains(path@),
    {
        let wanted = path.to_owned();
        let mut i: usize = 0;
        while i < self.paths.len()
            invariant
                i <= self.paths.len(),
                wanted@ == path@,
                forall|j: int| 0 <= j < i ==> texts(self.paths@)[j] != path@,
            decreases self.paths.len() - i,
        {
            if self.paths[i] == wanted {
                proof {
                    assert(texts(self.paths@)[i as int] == path@);
                }
                return true;
            }
            i += 1;
        }
        false
    }

    /// Adds `path` behind the others, unless the set holds it already.
    /// Returns whether the path was added.
    pub fn insert(&mut self, path: String) -> (added: bool)
        ensures
            added == !old(self)@.contains(path@),
            final(self)@ == if added {
                old(self)@.push(path@)
            } else {
                old(self)@
            },
    {
        proof {
            use_type_invariant(&*self);
        }
        if self.contains(path.as_str()) {
            return false;
        }
        let mut taken = PathSet::new();
        core::mem::swap(self, &mut taken);
        let mut paths = taken.paths;
        let ghost before = texts(paths@);
        paths.push(path);
        proof {
            assert(texts(paths@) =~= before.push(path@));
        }
        *self = PathSet { paths };
        true
    }

    /// The paths, in the order in which they were inserted.
    pub fn paths(&self) -> (r: &Vec<String>)
        ensures
            texts(r@) == self@,
            self@.no_duplicates(),
    {
        proof {
            use_type_invariant(self);
        }
        &self.paths
    }
}

} // verus!
