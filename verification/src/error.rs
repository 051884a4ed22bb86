//! The ways in which a request to the library can fail.

use vstd::prelude::*;
use vstd::string::StringExecFns;

verus! {

/// A failure, with the name that caused it.
#[derive(Debug, PartialEq)]
pub enum Error {
    /// An identifier or a call could not be reduced to a constant.
    UnresolvedReference(String),
    /// Neither the type nor any of its ancestors defines the variable.
    UndefinedVariable(String),
    /// The configuration names a pass that is not registered.
    UnknownPass(String),
}

impl Error {
    /// The name that the failure is about.
    pub open spec fn name(self) -> Seq<char> {
        match self {
            Error::UnresolvedReference(n) => n@,
            Error::UndefinedVariable(n) => n@,
            Error::UnknownPass(n) => n@,
        }
    }

    /// The words that introduce a failure of this kind.
    pub open spec fn label(self) -> Seq<char> {
        match self {
            Error::UnresolvedReference(_) => "unresolved reference: "@,
            Error::UndefinedVariable(_) => "undefined variable: "@,
            Error::UnknownPass(_) => "unknown pass: "@,
        }
    }

    /// A description of the failure: its kind, then the name.
    pub fn message(&self) -> (s: String)
        ensures
            s@ == self.label() + self.name(),
    {
        let (kind, name) = match self {
            Error::UnresolvedReference(n) => ("unresolved reference: ", n),
            Error::UndefinedVariable(n) => ("undefined variable: ", n),
            Error::UnknownPass(n) => ("unknown pass: ", n),
        };
        let mut s = String::from_str(kind);
        s.append(name.as_str());
        s
    }
}

} // verus!
