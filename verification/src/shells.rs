//! The shells for which completions can be generated.

use crate::text::{chars_of, eq_ignore_ascii_case, push_text, same_chars_ignore_case, same_text, string_of};
use vstd::prelude::*;

verus! {

/// A shell that completions can be generated for.
#[derive(Clone, Copy, Debug, PartialEq, Eq, Hash, Structural)]
#[non_exhaustive]
pub enum Shell {
    /// Bourne Again shell
    Bash,
    /// Elvish shell
    Elvish,
    /// Friendly interactive shell
    Fish,
    /// PowerShell
    PowerShell,
    /// Z shell
    Zsh,
    /// Nushell
    Nushell,
}

impl Shell {
    /// The name under which the shell is chosen.
    pub open spec fn name(self) -> Seq<char> {
        match self {
            Shell::Bash => "bash"@,
            Shell::Elvish => "elvish"@,
            Shell::Fish => "fish"@,
            Shell::PowerShell => "powershell"@,
            Shell::Zsh => "zsh"@,
            Shell::Nushell => "nushell"@,
        }
    }

    /// The shell that `s` names, the case of ASCII letters aside.
    pub open spec fn named(s: Seq<char>) -> Option<Shell> {
        if eq_ignore_ascii_case(s, "bash"@) {
            Some(Shell::Bash)
        } else if eq_ignore_ascii_case(s, "elvish"@) {
            Some(Shell::Elvish)
        } else if eq_ignore_ascii_case(s, "fish"@) {
            Some(Shell::Fish)
        } else if eq_ignore_ascii_case(s, "powershell"@) {
            Some(Shell::PowerShell)
        } else if eq_ignore_ascii_case(s, "zsh"@) {
            Some(Shell::Zsh)
        } else if eq_ignore_ascii_case(s, "nushell"@) {
            Some(Shell::Nushell)
        } else {
            None
        }
    }

    /// The shell whose program file has the stem `stem`.
    pub open spec fn for_stem(stem: Seq<char>) -> Option<Shell> {
        if stem == "bash"@ {
            Some(Shell::Bash)
        } else if stem == "zsh"@ {
            Some(Shell::Zsh)
        } else if stem == "fish"@ {
            Some(Shell::Fish)
        } else if stem == "elvish"@ {
            Some(Shell::Elvish)
        } else if stem == "powershell"@ || stem == "powershell_ise"@ {
            Some(Shell::PowerShell)
        } else if stem == "nu"@ || stem == "nushell"@ {
            Some(Shell::Nushell)
        } else {
            None
        }
    }

    /// The name under which the shell is chosen.
    pub fn to_string(&self) -> (r: String)
        ensures
            r@ == self.name(),
    {
        match self {
            Shell::Bash => "bash".to_owned(),
            Shell::Elvish => "elvish".to_owned(),
            Shell::Fish => "fish".to_owned(),
            Shell::PowerShell => "powershell".to_owned(),
            Shell::Zsh => "zsh".to_owned(),
            Shell::Nushell => "nushell".to_owned(),
        }
    }

    /// Reads a shell from its name, in any case of ASCII letters. A text that
    /// names no shell comes back in the error, after `invalid variant: `.
    pub fn parse(s: &str) -> (r: Result<Shell, String>)
        ensures
            match r {
                Ok(shell) => Self::named(s@) == Some(shell),
                Err(e) => Self::named(s@) is None && e@ == "invalid variant: "@ + s@,
            },
    {
        let chars = chars_of(s);
        let given = chars.as_slice();
        if same_chars_ignore_case(given, chars_of("bash").as_slice()) {
            Ok(Shell::Bash)
        } else if same_chars_ignore_case(given, chars_of("elvish").as_slice()) {
            Ok(Shell::Elvish)
        } else if same_chars_ignore_case(given, chars_of("fish").as_slice()) {
            Ok(Shell::Fish)
        } else if same_chars_ignore_case(given, chars_of("powershell").as_slice()) {
            Ok(Shell::PowerShell)
        } else if same_chars_ignore_case(given, chars_of("zsh").as_slice()) {
            Ok(Shell::Zsh)
        } else if same_chars_ignore_case(given, chars_of("nushell").as_slice()) {
            Ok(Shell::Nushell)
        } else {
            let mut out: Vec<char> = Vec::new();
            push_text(&mut out, "invalid variant: ");
            push_text(&mut out, s);
            Err(string_of(out.as_slice()))
        }
    }

    /// The shell whose program file has the stem `stem`.
    pub fn from_stem(stem: &str) -> (r: Option<Shell>)
        ensures
            r == Self::for_stem(stem@),
    {
        if same_text(stem, "bash") {
            Some(Shell::Bash)
        } else if same_text(stem, "zsh") {
            Some(Shell::Zsh)
        } else if same_text(stem, "fish") {
            Some(Shell::Fish)
        } else if same_text(stem, "elvish") {
            Some(Shell::Elvish)
        } else if same_text(stem, "powershell") || same_text(stem, "powershell_ise") {
            Some(Shell::PowerShell)
        } else if same_text(stem, "nu") || same_text(stem, "nushell") {
            Some(Shell::Nushell)
        } else {
            None
        }
    }

    /// Parse a shell from a path to the executable for the shell.
    pub fn from_shell_path(path: &str) -> (r: Option<Shell>)
        ensures
            r is Some ==> exists|stem: Seq<char>| Self::for_stem(stem) == r,
    {
        match file_stem_of(path) {
            Some(stem) => Shell::from_stem(stem.as_str()),
            None => None,
        }
    }
}

impl std::str::FromStr for Shell {
    type Err = String;

    fn from_str(s: &str) -> (r: Result<Shell, String>)
        ensures
            match r {
                Ok(shell) => Shell::named(s@) == Some(shell),
                Err(e) => Shell::named(s@) is None && e@ == "invalid variant: "@ + s@,
            },
    {
        Shell::parse(s)
    }
}

/// `Path::file_stem` of the standard library on `path`, as text: the last
/// component of the path without its extension. How a path falls into
/// components is the platform's matter, so nothing is claimed of the result.
#[verifier::external_body]
fn file_stem_of(path: &str) -> (r: Option<String>) {
    std::path::Path::new(path).file_stem().and_then(|s| s.to_str()).map(|s| s.to_owned())
}

} // verus!
