//! Small system-side values: the structured error type and the theme
//! handle.

use vstd::prelude::*;

verus! {

/// What went wrong while building the application.
#[derive(Clone, Copy, PartialEq, Eq, Structural, Debug)]
pub enum ErrorKind {
    InvalidParameter,
    InitializationFailure,
}

/// A structured error: its kind plus a human-readable description.
#[derive(PartialEq, Eq, Debug)]
pub struct Error {
    pub kind: ErrorKind,
    pub description: String,
}

impl Error {
    pub fn new(kind: ErrorKind, description: String) -> (r: Error)
        ensures
            r.kind == kind,
            r.description == description,
    {
        Error { kind, description }
    }

    pub fn kind(&self) -> (r: ErrorKind)
        ensures
            r == self.kind,
    {
        self.kind
    }

    pub fn description(&self) -> (r: &str)
        ensures
            r@ == self.description@,
    {
        self.description.as_str()
    }
}

/// The built-in theme palettes.
#[derive(Clone, Copy, PartialEq, Eq, Structural, Debug)]
pub enum Themes {
    Default,
}

/// A chosen theme.
#[derive(Clone, Copy, PartialEq, Eq, Structural, Debug)]
pub struct Theme {
    pub kind: Themes,
}

impl Theme {
    pub fn new(kind: Themes) -> (r: Theme)
        ensures
            r.kind == kind,
    {
        Theme { kind }
    }
}

} // verus!
