//! The errors that end a run, and the exit code that each stands for.

use crate::text::{push_text, string_of};
use vstd::prelude::*;

verus! {

/// An error that ends a run, with what went wrong in words.
#[derive(Debug)]
pub enum NovalynError {
    Config(String),
    Git(String),
    Io(String),
    Semantic(String),
}

impl NovalynError {
    /// The exit code of each kind of error.
    pub open spec fn code(&self) -> i32 {
        match self {
            NovalynError::Config(_) => 2,
            NovalynError::Git(_) => 4,
            NovalynError::Io(_) => 5,
            NovalynError::Semantic(_) => 6,
        }
    }

    /// What went wrong, in the words that the error was made with.
    pub open spec fn detail(&self) -> Seq<char> {
        match self {
            NovalynError::Config(m) => m@,
            NovalynError::Git(m) => m@,
            NovalynError::Io(m) => m@,
            NovalynError::Semantic(m) => m@,
        }
    }

    /// The words that introduce each kind of error.
    pub open spec fn label(&self) -> Seq<char> {
        match self {
            NovalynError::Config(_) => "config error: "@,
            NovalynError::Git(_) => "git error: "@,
            NovalynError::Io(_) => "io error: "@,
            NovalynError::Semantic(_) => "semantic error: "@,
        }
    }

    /// The code with which the process exits on this error.
    pub fn exit_code(&self) -> (r: i32)
        ensures
            r == self.code(),
            r == 2 || r == 4 || r == 5 || r == 6,
    {
        match self {
            NovalynError::Config(_) => 2,
            NovalynError::Git(_) => 4,
            NovalynError::Io(_) => 5,
            NovalynError::Semantic(_) => 6,
        }
    }

    /// The error as it is shown: the kind of error, then what went wrong.
    pub fn to_string(&self) -> (r: String)
        ensures
            r@ == self.label() + self.detail(),
    {
        let mut out: Vec<char> = Vec::new();
        match self {
            NovalynError::Config(m) => {
                push_text(&mut out, "config error: ");
                push_text(&mut out, m.as_str());
            },
            NovalynError::Git(m) => {
                push_text(&mut out, "git error: ");
                push_text(&mut out, m.as_str());
            },
            NovalynError::Io(m) => {
                push_text(&mut out, "io error: ");
                push_text(&mut out, m.as_str());
            },
            NovalynError::Semantic(m) => {
                push_text(&mut out, "semantic error: ");
                push_text(&mut out, m.as_str());
            },
        }
        string_of(out.as_slice())
    }
}

} // verus!
