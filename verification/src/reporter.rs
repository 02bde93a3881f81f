//! Display settings consumed by reporters: how much test output to show and
//! which status lines to print.  Both are small string-encoded surfaces that
//! reject unrecognized values with the full list of valid ones.

use vstd::prelude::*;
use crate::errors::{StatusLevelParseError, TestOutputDisplayParseError};
use crate::helpers::str_eq;

verus! {

/// When to display captured test output.
#[derive(Clone, Copy, Debug, PartialEq, Eq, Structural)]
pub enum TestOutputDisplay {
    /// Display output as soon as the test finishes.
    Immediate,
    /// Display output immediately and again in the final summary.
    ImmediateFinal,
    /// Display output only in the final summary.
    Final,
    /// Never display output.
    Never,
}

impl TestOutputDisplay {
    /// The accepted input strings, in documentation order.
    pub open spec fn spec_variants() -> Seq<Seq<char>> {
        seq!["immediate"@, "immediate-final"@, "final"@, "never"@]
    }

    /// All accepted input strings.
    pub fn variants() -> (r: Vec<&'static str>)
        ensures
            crate::helpers::slice_views(r@) == Self::spec_variants(),
    {
        let mut v: Vec<&'static str> = Vec::new();
        v.push("immediate");
        v.push("immediate-final");
        v.push("final");
        v.push("never");
        proof {
            assert(crate::helpers::slice_views(v@) =~= Self::spec_variants());
        }
        v
    }

    /// The variant that an input string denotes, if any.
    pub open spec fn spec_parse(s: Seq<char>) -> Option<TestOutputDisplay> {
        if s == "immediate"@ {
            Some(TestOutputDisplay::Immediate)
        } else if s == "immediate-final"@ {
            Some(TestOutputDisplay::ImmediateFinal)
        } else if s == "final"@ {
            Some(TestOutputDisplay::Final)
        } else if s == "never"@ {
            Some(TestOutputDisplay::Never)
        } else {
            None
        }
    }

    /// Parses an input string, rejecting anything outside `spec_variants`.
    pub fn parse(s: &str) -> (r: Result<TestOutputDisplay, TestOutputDisplayParseError>)
        ensures
            match r {
                Ok(v) => Self::spec_parse(s@) == Some(v),
                Err(e) => Self::spec_parse(s@) is None && e.input_view() == s@,
            },
    {
        if str_eq(s, "immediate") {
            Ok(TestOutputDisplay::Immediate)
        } else if str_eq(s, "immediate-final") {
            Ok(TestOutputDisplay::ImmediateFinal)
        } else if str_eq(s, "final") {
            Ok(TestOutputDisplay::Final)
        } else if str_eq(s, "never") {
            Ok(TestOutputDisplay::Never)
        } else {
            Err(TestOutputDisplayParseError::new(s))
        }
    }

    /// Whether output is shown while the run progresses.
    pub fn is_immediate(self) -> (r: bool)
        ensures
            r == (self is Immediate || self is ImmediateFinal),
    {
        match self {
            TestOutputDisplay::Immediate | TestOutputDisplay::ImmediateFinal => true,
            _ => false,
        }
    }

    /// Whether output is shown in the final summary.
    pub fn is_final(self) -> (r: bool)
        ensures
            r == (self is Final || self is ImmediateFinal),
    {
        match self {
            TestOutputDisplay::Final | TestOutputDisplay::ImmediateFinal => true,
            _ => false,
        }
    }
}

/// Which test statuses to display while running.
#[derive(Clone, Copy, Debug, PartialEq, Eq, Structural)]
pub enum StatusLevel {
    /// No statuses (the input string `"none"`).
    Quiet,
    /// Failing tests.
    Fail,
    /// Also retried attempts.
    Retry,
    /// Also slow tests.
    Slow,
    /// Also passing tests.
    Pass,
    /// Also skipped tests.
    Skip,
    /// Every status.
    All,
}

impl StatusLevel {
    /// The accepted input strings, in documentation order.
    pub open spec fn spec_variants() -> Seq<Seq<char>> {
        seq!["none"@, "fail"@, "retry"@, "slow"@, "pass"@, "skip"@, "all"@]
    }

    /// All accepted input strings.
    pub fn variants() -> (r: Vec<&'static str>)
        ensures
            crate::helpers::slice_views(r@) == Self::spec_variants(),
    {
        let mut v: Vec<&'static str> = Vec::new();
        v.push("none");
        v.push("fail");
        v.push("retry");
        v.push("slow");
        v.push("pass");
        v.push("skip");
        v.push("all");
        proof {
            assert(crate::helpers::slice_views(v@) =~= Self::spec_variants());
        }
        v
    }

    /// The variant that an input string denotes, if any.
    pub open spec fn spec_parse(s: Seq<char>) -> Option<StatusLevel> {
        if s == "none"@ {
            Some(StatusLevel::Quiet)
        } else if s == "fail"@ {
            Some(StatusLevel::Fail)
        } else if s == "retry"@ {
            Some(StatusLevel::Retry)
        } else if s == "slow"@ {
            Some(StatusLevel::Slow)
        } else if s == "pass"@ {
            Some(StatusLevel::Pass)
        } else if s == "skip"@ {
            Some(StatusLevel::Skip)
        } else if s == "all"@ {
            Some(StatusLevel::All)
        } else {
            None
        }
    }

    /// Parses an input string, rejecting anything outside `spec_variants`.
    pub fn parse(s: &str) -> (r: Result<StatusLevel, StatusLevelParseError>)
        ensures
            match r {
                Ok(v) => Self::spec_parse(s@) == Some(v),
                Err(e) => Self::spec_parse(s@) is None && e.input_view() == s@,
            },
    {
        if str_eq(s, "none") {
            Ok(StatusLevel::Quiet)
        } else if str_eq(s, "fail") {
            Ok(StatusLevel::Fail)
        } else if str_eq(s, "retry") {
            Ok(StatusLevel::Retry)
        } else if str_eq(s, "slow") {
            Ok(StatusLevel::Slow)
        } else if str_eq(s, "pass") {
            Ok(StatusLevel::Pass)
        } else if str_eq(s, "skip") {
            Ok(StatusLevel::Skip)
        } else if str_eq(s, "all") {
            Ok(StatusLevel::All)
        } else {
            Err(StatusLevelParseError::new(s))
        }
    }
}

} // verus!
