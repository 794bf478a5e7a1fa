//! The semantic version value and its rendered form.

use vstd::prelude::*;
use crate::numbers::dec_digits;

verus! {

/// A `major.minor.patch` version.
///
/// `ident` marks a non-release build (a feature, fix or other branch name);
/// `commit` carries the short identifier of the commit the version was
/// derived for. A version is never mutated: deriving a new one always builds
/// a new value.
#[derive(Debug, Clone)]
pub struct SemanticVersion {
    pub major: usize,
    pub minor: usize,
    pub patch: usize,
    pub ident: Option<String>,
    pub commit: Option<String>,
}

/// The rendered form: `major.minor.patch`, with `-ident` appended when the
/// version carries an identifier.
pub open spec fn render_spec(v: SemanticVersion) -> Seq<char> {
    let base = dec_digits(v.major as nat) + seq!['.'] + dec_digits(v.minor as nat) + seq!['.']
        + dec_digits(v.patch as nat);
    match v.ident {
        Some(id) => base + seq!['-'] + id@,
        None => base,
    }
}

impl SemanticVersion {
    pub fn new(
        major: usize,
        minor: usize,
        patch: usize,
        ident: Option<String>,
        commit: Option<String>,
    ) -> (v: Self)
        ensures
            v.major == major,
            v.minor == minor,
            v.patch == patch,
            v.ident == ident,
            v.commit == commit,
    {
        Self { major, minor, patch, ident, commit }
    }

    /// Renders the version as a string.
    pub fn version_string(&self) -> (s: String)
        ensures
            s@ == render_spec(*self),
    {
        proof {
            reveal_strlit(".");
            reveal_strlit("-");
        }
        let mut s = crate::numbers::render_number(self.major);
        s.append(".");
        let minor = crate::numbers::render_number(self.minor);
        s.append(minor.as_str());
        s.append(".");
        let patch = crate::numbers::render_number(self.patch);
        s.append(patch.as_str());
        match &self.ident {
            Some(id) => {
                s.append("-");
                s.append(id.as_str());
                proof {
                    assert(s@ =~= render_spec(*self));
                }
            },
            None => {
                proof {
                    assert(s@ =~= render_spec(*self));
                }
            },
        }
        s
    }
}

} // verus!
