//! Handling of tests marked `#[ignore]`: whether a run executes ignored
//! tests, non-ignored tests, or both.

use vstd::prelude::*;
use crate::errors::RunIgnoredParseError;
use crate::helpers::str_eq;

verus! {

/// Which tests a run executes with respect to the ignored flag.
#[derive(Clone, Copy, Debug, PartialEq, Eq, Structural)]
pub enum RunIgnored {
    /// Only tests that are not ignored.
    Default,
    /// Only ignored tests.
    IgnoredOnly,
    /// Every test.
    All,
}

impl RunIgnored {
    /// The accepted input strings, in documentation order.
    pub open spec fn spec_variants() -> Seq<Seq<char>> {
        seq!["default"@, "ignored-only"@, "all"@]
    }

    /// All accepted input strings.
    pub fn variants() -> (r: Vec<&'static str>)
        ensures
            crate::helpers::slice_views(r@) == Self::spec_variants(),
    {
        let mut v: Vec<&'static str> = Vec::new();
        v.push("default");
        v.push("ignored-only");
        v.push("all");
        proof {
            assert(crate::helpers::slice_views(v@) =~= Self::spec_variants());
        }
        v
    }

    /// The variant that an input string denotes, if any.
    pub open spec fn spec_parse(s: Seq<char>) -> Option<RunIgnored> {
        if s == "default"@ {
            Some(RunIgnored::Default)
        } else if s == "ignored-only"@ {
            Some(RunIgnored::IgnoredOnly)
        } else if s == "all"@ {
            Some(RunIgnored::All)
        } else {
            None
        }
    }

    /// Parses an input string, rejecting anything outside `spec_variants`.
    pub fn parse(s: &str) -> (r: Result<RunIgnored, RunIgnoredParseError>)
        ensures
            match r {
                Ok(v) => Self::spec_parse(s@) == Some(v),
                Err(e) => Self::spec_parse(s@) is None && e.input_view() == s@,
            },
    {
        if str_eq(s, "default") {
            Ok(RunIgnored::Default)
        } else if str_eq(s, "ignored-only") {
            Ok(RunIgnored::IgnoredOnly)
        } else if str_eq(s, "all") {
            Ok(RunIgnored::All)
        } else {
            Err(RunIgnoredParseError::new(s))
        }
    }

    /// Whether a test whose ignored flag is `ignored` is executed under this
    /// mode.
    pub open spec fn spec_runs(self, ignored: bool) -> bool {
        match self {
            RunIgnored::Default => !ignored,
            RunIgnored::IgnoredOnly => ignored,
            RunIgnored::All => true,
        }
    }

    /// Decides `spec_runs`.
    pub fn runs(self, ignored: bool) -> (r: bool)
        ensures
            r == self.spec_runs(ignored),
    {
        match self {
            RunIgnored::Default => !ignored,
            RunIgnored::IgnoredOnly => ignored,
            RunIgnored::All => true,
        }
    }
}

} // verus!
