use vstd::prelude::*;
use vstd::string::StringExecFns;
use crate::text::{str_compare, Cmp};

verus! {

/// A filesystem path as an ordered list of components.
///
/// The surrounding application translates between this representation and the
/// platform's native paths: the first component may itself be a longer prefix
/// (such as the absolute cache root the caller configured), and every further
/// component is a single directory or file name.
#[derive(Debug)]
pub struct FsPath {
    pub parts: Vec<String>,
}

impl View for FsPath {
    type V = Seq<Seq<char>>;

    open spec fn view(&self) -> Seq<Seq<char>> {
        Seq::new(self.parts@.len(), |i: int| self.parts@[i]@)
    }
}

impl DeepView for FsPath {
    type V = Seq<Seq<char>>;

    open spec fn deep_view(&self) -> Seq<Seq<char>> {
        self.view()
    }
}

impl FsPath {
    /// The path with no components.
    pub fn empty() -> (r: FsPath)
        ensures
            r@ == Seq::<Seq<char>>::empty(),
    {
        let r = FsPath { parts: Vec::new() };
        proof {
            assert(r@ =~= Seq::<Seq<char>>::empty());
        }
        r
    }

    /// The path consisting of the single component `part`.
    pub fn from_part(part: &str) -> (r: FsPath)
        ensures
            r@ == seq![part@],
    {
        let mut parts: Vec<String> = Vec::new();
        parts.push(String::from_str(part));
        let r = FsPath { parts };
        proof {
            assert(r@ =~= seq![part@]);
        }
        r
    }

    /// Append one component in place.
    pub fn push_part(&mut self, part: String)
        ensures
            final(self)@ == old(self)@.push(part@),
    {
        self.parts.push(part);
        proof {
            assert(self@ =~= old(self)@.push(part@));
        }
    }

    /// This path extended by one further component, as a new value.
    pub fn join(&self, part: &str) -> (r: FsPath)
        ensures
            r@ == self@.push(part@),
    {
        let mut r = self.clone_path();
        r.push_part(String::from_str(part));
        r
    }

    /// An identical copy of this path.
    pub fn clone_path(&self) -> (r: FsPath)
        ensures
            r@ == self@,
    {
        let mut parts: Vec<String> = Vec::new();
        let mut i: usize = 0;
        while i < self.parts.len()
            invariant
                i <= self.parts.len(),
                parts@.len() == i,
                forall|j: int| 0 <= j < i ==> parts@[j]@ == self.parts@[j]@,
            decreases self.parts.len() - i,
        {
            parts.push(self.parts[i].clone());
            i = i + 1;
        }
        let r = FsPath { parts };
        proof {
            assert(r@ =~= self@);
        }
        r
    }

    /// Whether this path has the same components as `other`.
    pub fn same_as(&self, other: &FsPath) -> (r: bool)
        ensures
            r == (self@ == other@),
    {
        if self.parts.len() != other.parts.len() {
            proof {
                assert(self@.len() != other@.len());
            }
            return false;
        }
        let mut i: usize = 0;
        while i < self.parts.len()
            invariant
                i <= self.parts.len(),
                self.parts.len() == other.parts.len(),
                forall|j: int| 0 <= j < i ==> self@[j] == other@[j],
            decreases self.parts.len() - i,
        {
            match str_compare(self.parts[i].as_str(), other.parts[i].as_str()) {
                Cmp::Equal => {},
                _ => {
                    proof {
                        assert(self@[i as int] != other@[i as int]);
                    }
                    return false;
                },
            }
            i = i + 1;
        }
        proof {
            assert(self@ =~= other@);
        }
        true
    }
}

} // verus!
