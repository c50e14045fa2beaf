//! Filesystem locations as sequences of components.
//!
//! A location is built by joining components onto a base; turning it into an
//! operating-system path (with that system's separator) is left to the code
//! that performs the I/O, which joins the components in order.

use vstd::prelude::*;

verus! {

/// A location: its first component is the base it was built from, each
/// further component one level below the one before.
#[derive(Clone)]
pub struct FsPath {
    pub parts: Vec<String>,
}

impl View for FsPath {
    type V = Seq<Seq<char>>;

    open spec fn view(&self) -> Seq<Seq<char>> {
        self.parts@.map_values(|p: String| p@)
    }
}

impl FsPath {
    /// The location with no components (an empty path).
    pub fn empty() -> (r: FsPath)
        ensures
            r@ == Seq::<Seq<char>>::empty(),
    {
        let r = FsPath { parts: Vec::new() };
        assert(r@ =~= Seq::<Seq<char>>::empty());
        r
    }

    /// The location made of one component.
    pub fn from_str(s: &str) -> (r: FsPath)
        ensures
            r@ == seq![s@],
    {
        let mut parts = Vec::new();
        parts.push(s.to_owned());
        let r = FsPath { parts };
        assert(r@ =~= seq![s@]);
        r
    }

    /// A copy of this location.
    pub fn duplicate(&self) -> (r: FsPath)
        ensures
            r@ == self@,
    {
        let mut parts: Vec<String> = Vec::new();
        let mut i: usize = 0;
        while i < self.parts.len()
            invariant
                i <= self.parts.len(),
                parts@.len() == i,
                forall|k: int| 0 <= k < i ==> #[trigger] parts@[k]@ == self.parts@[k]@,
            decreases self.parts.len() - i,
        {
            let c = self.parts[i].clone();
            parts.push(c);
            i += 1;
        }
        let r = FsPath { parts };
        assert(r@ =~= self@);
        r
    }

    /// This location with `part` added below it (`Path::join` of a relative
    /// component).
    pub fn join(&self, part: &str) -> (r: FsPath)
        ensures
            r@ == self@.push(part@),
    {
        let mut r = self.duplicate();
        r.parts.push(part.to_owned());
        assert(r@ =~= self@.push(part@));
        r
    }

    /// The number of components.
    pub fn depth(&self) -> (n: usize)
        ensures
            n == self@.len(),
    {
        self.parts.len()
    }
}

} // verus!
