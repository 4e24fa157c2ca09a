//! Programs and their versions.

use vstd::prelude::*;

use crate::term::{Term, TermV};

verus! {

/// A UPLC program version `major.minor.patch`.
#[derive(Debug, Copy, Clone)]
pub struct Version(pub (usize, usize, usize));

/// Whether `(a, b, c)` comes before `(x, y, z)` in lexicographic order.
pub open spec fn triple_lt(t: (usize, usize, usize), u: (usize, usize, usize)) -> bool {
    t.0 < u.0 || (t.0 == u.0 && (t.1 < u.1 || (t.1 == u.1 && t.2 < u.2)))
}

impl Version {
    /// The version `major.minor.patch`.
    pub fn new(major: usize, minor: usize, patch: usize) -> (r: Self)
        ensures
            r.0 == (major, minor, patch),
    {
        Version((major, minor, patch))
    }

    /// The version of Plutus V1 scripts: 1.0.0.
    pub fn plutus_v1() -> (r: Self)
        ensures
            r.0 == (1usize, 0usize, 0usize),
    {
        Self::new(1, 0, 0)
    }

    /// The version of Plutus V2 scripts: 1.0.0.
    pub fn plutus_v2() -> (r: Self)
        ensures
            r.0 == (1usize, 0usize, 0usize),
    {
        Self::new(1, 0, 0)
    }

    /// The version of Plutus V3 scripts: 1.1.0.
    pub fn plutus_v3() -> (r: Self)
        ensures
            r.0 == (1usize, 1usize, 0usize),
    {
        Self::new(1, 1, 0)
    }

    /// Whether this version is 1.0.0.
    pub fn is_v1_0_0(&self) -> (r: bool)
        ensures
            r == (self.0 == (1usize, 0usize, 0usize)),
    {
        self.0.0 == 1 && self.0.1 == 0 && self.0.2 == 0
    }

    /// Whether this version is 1.1.0.
    pub fn is_v1_1_0(&self) -> (r: bool)
        ensures
            r == (self.0 == (1usize, 1usize, 0usize)),
    {
        self.0.0 == 1 && self.0.1 == 1 && self.0.2 == 0
    }

    /// Whether this version is one of the known versions, 1.0.0 and 1.1.0.
    pub fn is_valid_version(&self) -> (r: bool)
        ensures
            r == (self.0 == (1usize, 0usize, 0usize) || self.0 == (1usize, 1usize, 0usize)),
    {
        self.is_v1_0_0() || self.is_v1_1_0()
    }

    /// Whether this version comes before 1.1.0.
    pub fn is_less_than_1_1_0(&self) -> (r: bool)
        ensures
            r == triple_lt(self.0, (1usize, 1usize, 0usize)),
    {
        let (a, b, c) = self.0;
        a < 1 || (a == 1 && (b < 1 || (b == 1 && c < 0)))
    }

    /// Whether this version is 1.1.0 or later.
    pub fn is_at_least_1_1_0(&self) -> (r: bool)
        ensures
            r == !triple_lt(self.0, (1usize, 1usize, 0usize)),
    {
        !self.is_less_than_1_1_0()
    }

    /// The major component.
    pub fn major(&self) -> (r: usize)
        ensures
            r == self.0.0,
    {
        self.0.0
    }

    /// The minor component.
    pub fn minor(&self) -> (r: usize)
        ensures
            r == self.0.1,
    {
        self.0.1
    }

    /// The patch component.
    pub fn patch(&self) -> (r: usize)
        ensures
            r == self.0.2,
    {
        self.0.2
    }
}

/// A versioned program.
#[derive(Debug)]
pub struct Program {
    /// The language version.
    pub version: Version,
    /// The root term.
    pub term: Term,
}

/// The mathematical value of a [`Program`].
pub struct ProgramV {
    pub version: (usize, usize, usize),
    pub term: TermV,
}

impl View for Program {
    type V = ProgramV;

    open spec fn view(&self) -> ProgramV {
        ProgramV { version: self.version.0, term: self.term@ }
    }
}

impl Program {
    /// The program of `version` whose root is `term`.
    pub fn new(version: Version, term: Term) -> (r: Program)
        ensures
            r@ == (ProgramV { version: version.0, term: term@ }),
    {
        Program { version, term }
    }

    /// The program whose root is this one's root applied to `term`.
    pub fn apply(self, term: Term) -> (r: Program)
        ensures
            r@ == (ProgramV {
                version: self.version.0,
                term: TermV::Apply(Box::new(self.term@), Box::new(term@)),
            }),
    {
        let version = self.version;
        Program::new(version, self.term.apply(term))
    }
}

} // verus!
