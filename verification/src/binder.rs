//! Variable-binding strategies: De Bruijn indices, names, and named De Bruijn
//! indices.

use vstd::prelude::*;

verus! {

/// A De Bruijn index: the number of binders between a variable occurrence and
/// the lambda that binds it (1 is the innermost).
#[derive(Debug, Copy, Clone, PartialEq, Eq, Structural)]
pub struct DeBruijn(pub usize);

impl DeBruijn {
    /// The index `i`.
    pub fn new(i: usize) -> (r: Self)
        ensures
            r.0 == i,
    {
        DeBruijn(i)
    }

    /// The index 0, used for lambda parameters.
    pub fn zero() -> (r: Self)
        ensures
            r.0 == 0,
    {
        DeBruijn(0)
    }

    /// The index as a number.
    pub fn index(&self) -> (r: usize)
        ensures
            r == self.0,
    {
        self.0
    }
}

/// A named binding: a text label and a number that tells shadowed names apart.
#[derive(Debug, Clone)]
pub struct Name {
    pub text: String,
    pub unique: usize,
}

impl Name {
    /// The name `text` with uniqueness number `unique`.
    pub fn new(text: String, unique: usize) -> (r: Self)
        ensures
            r.text@ == text@,
            r.unique == unique,
    {
        Name { text, unique }
    }
}

/// A binding that carries both a name and a De Bruijn index.
#[derive(Debug, Clone)]
pub struct NamedDeBruijn {
    pub text: String,
    pub index: usize,
}

impl NamedDeBruijn {
    /// The name `text` with De Bruijn index `index`.
    pub fn new(text: String, index: usize) -> (r: Self)
        ensures
            r.text@ == text@,
            r.index == index,
    {
        NamedDeBruijn { text, index }
    }

    /// The De Bruijn index.
    pub fn index(&self) -> (r: usize)
        ensures
            r == self.index,
    {
        self.index
    }
}

} // verus!
