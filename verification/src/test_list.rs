//! The test list: binaries, the cases discovered inside them, and the parser
//! for a binary's "list tests" output.
//!
//! A list is built once per run and never mutated; partitioning produces
//! derived views.  Each recognized output line yields exactly one entry; an
//! unrecognized line is a hard parse failure that keeps the full captured
//! output for diagnosis.

use vstd::prelude::*;
use vstd::string::StrSliceExecFns;
use crate::errors::ParseTestListError;
use crate::helpers::str_eq;
use crate::partition::PartitionerBuilder;
use crate::runner::PlannedTest;

verus! {

/// The kind of compiled artifact a test binary is.
#[derive(Clone, Copy, Debug, PartialEq, Eq, Structural)]
pub enum BinaryKind {
    /// A unit-test binary.
    UnitTest,
    /// An integration-test binary.
    IntegrationTest,
    /// A doctest binary.
    DocTest,
    /// A benchmark binary.
    Benchmark,
}

/// One compiled test artifact; immutable once discovered.
#[derive(Clone, Debug)]
pub struct TestBinary {
    /// The owning package's identifier.
    pub package_id: String,
    /// The target kind.
    pub kind: BinaryKind,
    /// The artifact's filesystem path.
    pub path: String,
    /// The platform triple the artifact was built for.
    pub platform_triple: String,
}

/// A single named test within a binary.
#[derive(Clone, Debug)]
pub struct TestCase {
    /// The binary the test lives in, as an index into the run's binaries.
    pub binary_index: usize,
    /// The test's exact name.
    pub name: String,
    /// Whether the test is flagged ignored.
    pub ignored: bool,
}

/// One parsed line of list output.
#[derive(Clone, Debug)]
pub struct ListEntry {
    /// The test's name.
    pub name: String,
    /// Whether the line declared a benchmark rather than a test.
    pub benchmark: bool,
}

/// The (name, benchmark) views of parsed entries.
pub open spec fn entry_views(s: Seq<ListEntry>) -> Seq<(Seq<char>, bool)> {
    s.map_values(|e: ListEntry| (e.name@, e.benchmark))
}

/// Splitting output into lines at `\n`, accumulating the current line;
/// empty lines are dropped.
pub open spec fn split_lines_acc(s: Seq<char>, cur: Seq<char>) -> Seq<Seq<char>>
    decreases s.len(),
{
    if s.len() == 0 {
        if cur.len() == 0 {
            Seq::empty()
        } else {
            seq![cur]
        }
    } else if s[0] == '\n' {
        if cur.len() == 0 {
            split_lines_acc(s.drop_first(), Seq::empty())
        } else {
            seq![cur] + split_lines_acc(s.drop_first(), Seq::empty())
        }
    } else {
        split_lines_acc(s.drop_first(), cur.push(s[0]))
    }
}

/// The non-empty lines of a captured output.
pub open spec fn split_lines(s: Seq<char>) -> Seq<Seq<char>> {
    split_lines_acc(s, Seq::empty())
}

proof fn lemma_split_lines_acc_skip(s: Seq<char>, i: int, ls: int)
    requires
        0 <= ls <= i < s.len(),
        forall|j: int| ls <= j < i ==> s[j] != '\n',
    ensures
        s[i as int] != '\n' ==> split_lines_acc(s.skip(i), s.subrange(ls, i)) == split_lines_acc(
            s.skip(i + 1),
            s.subrange(ls, i + 1),
        ),
        s[i as int] == '\n' && i > ls ==> split_lines_acc(s.skip(i), s.subrange(ls, i)) == seq![
            s.subrange(ls, i),
        ] + split_lines_acc(s.skip(i + 1), Seq::empty()),
        s[i as int] == '\n' && i == ls ==> split_lines_acc(s.skip(i), s.subrange(ls, i))
            == split_lines_acc(s.skip(i + 1), Seq::empty()),
{
    assert(s.skip(i)[0] == s[i as int]);
    assert(s.skip(i).drop_first() =~= s.skip(i + 1));
    if s[i as int] != '\n' {
        assert(s.subrange(ls, i).push(s[i as int]) =~= s.subrange(ls, i + 1));
    } else if i == ls {
        assert(s.subrange(ls, i) =~= Seq::<char>::empty());
    }
}

/// Splits captured output into its non-empty lines.
pub fn split_output_lines(s: &str) -> (r: Vec<String>)
    ensures
        crate::helpers::views(r@) == split_lines(s@),
{
    let n = s.unicode_len();
    let mut out: Vec<String> = Vec::new();
    let mut ls: usize = 0;
    let mut i: usize = 0;
    proof {
        assert(s@.skip(0) =~= s@);
        assert(s@.subrange(0, 0) =~= Seq::<char>::empty());
        assert(crate::helpers::views(out@) =~= Seq::<Seq<char>>::empty());
    }
    while i < n
        invariant
            n == s@.len(),
            ls <= i <= n,
            forall|j: int| ls <= j < i ==> s@[j] != '\n',
            split_lines(s@) == crate::helpers::views(out@) + split_lines_acc(
                s@.skip(i as int),
                s@.subrange(ls as int, i as int),
            ),
        decreases n - i,
    {
        let c = s.get_char(i);
        proof {
            lemma_split_lines_acc_skip(s@, i as int, ls as int);
        }
        if c == '\n' {
            if i > ls {
                let w = s.substring_char(ls, i).to_owned();
                let ghost out0 = out@;
                out.push(w);
                proof {
                    assert(crate::helpers::views(out@) =~= crate::helpers::views(out0).push(w@));
                    assert(w@ == s@.subrange(ls as int, i as int));
                    assert(crate::helpers::views(out@) + split_lines_acc(
                        s@.skip(i + 1),
                        Seq::empty(),
                    ) =~= crate::helpers::views(out0) + (seq![s@.subrange(ls as int, i as int)]
                        + split_lines_acc(s@.skip(i + 1), Seq::empty())));
                }
            }
            i += 1;
            ls = i;
            proof {
                assert(s@.subrange(ls as int, i as int) =~= Seq::<char>::empty());
            }
        } else {
            i += 1;
        }
    }
    if n > ls {
        let w = s.substring_char(ls, n).to_owned();
        let ghost out0 = out@;
        out.push(w);
        proof {
            assert(s@.skip(n as int) =~= Seq::<char>::empty());
            assert(crate::helpers::views(out@) =~= crate::helpers::views(out0).push(w@));
            assert(w@ == s@.subrange(ls as int, n as int));
            assert(crate::helpers::views(out0) + split_lines_acc(
                s@.skip(n as int),
                s@.subrange(ls as int, n as int),
            ) =~= crate::helpers::views(out@));
        }
    } else {
        proof {
            assert(s@.skip(n as int) =~= Seq::<char>::empty());
            assert(s@.subrange(ls as int, n as int) =~= Seq::<char>::empty());
            assert(crate::helpers::views(out@) + split_lines_acc(
                s@.skip(n as int),
                Seq::<char>::empty(),
            ) =~= crate::helpers::views(out@));
        }
    }
    out
}

/// What one non-empty line denotes: `NAME: test` yields a test entry,
/// `NAME: benchmark` a benchmark entry, with a non-empty name; anything
/// else is unrecognized.
pub open spec fn line_entry(line: Seq<char>) -> Option<(Seq<char>, bool)> {
    if line.len() > 6 && line.skip(line.len() - 6) == ": test"@ {
        Some((line.take(line.len() - 6), false))
    } else if line.len() > 11 && line.skip(line.len() - 11) == ": benchmark"@ {
        Some((line.take(line.len() - 11), true))
    } else {
        None
    }
}

/// The entries of a list output's lines, or `None` at the first
/// unrecognized line.
pub open spec fn spec_parse_lines(lines: Seq<Seq<char>>) -> Option<Seq<(Seq<char>, bool)>>
    decreases lines.len(),
{
    if lines.len() == 0 {
        Some(Seq::empty())
    } else {
        match line_entry(lines[0]) {
            None => None,
            Some(e) => match spec_parse_lines(lines.drop_first()) {
                None => None,
                Some(rest) => Some(seq![e] + rest),
            },
        }
    }
}

/// Whether `p` is a suffix of `s`, character for character.
pub fn str_has_suffix(s: &str, p: &str) -> (r: bool)
    ensures
        r == (p@.len() <= s@.len() && s@.skip(s@.len() - p@.len()) == p@),
{
    let pl = p.unicode_len();
    let sl = s.unicode_len();
    if pl > sl {
        return false;
    }
    let off = sl - pl;
    let mut i: usize = 0;
    while i < pl
        invariant
            pl == p@.len(),
            sl == s@.len(),
            off == sl - pl,
            i <= pl,
            forall|j: int| 0 <= j < i ==> s@[off + j] == p@[j],
        decreases pl - i,
    {
        if s.get_char(off + i) != p.get_char(i) {
            proof {
                assert(s@.skip(off as int)[i as int] != p@[i as int]);
            }
            return false;
        }
        i += 1;
    }
    proof {
        assert(s@.skip(off as int) =~= p@);
    }
    true
}

proof fn lemma_parse_lines_step(lines: Seq<Seq<char>>, i: int)
    requires
        0 <= i < lines.len(),
    ensures
        line_entry(lines[i]) is None ==> spec_parse_lines(lines.skip(i)) is None,
        line_entry(lines[i]) matches Some(e) ==> spec_parse_lines(lines.skip(i)) == (
        match spec_parse_lines(lines.skip(i + 1)) {
            None => None::<Seq<(Seq<char>, bool)>>,
            Some(rest) => Some(seq![e] + rest),
        }),
{
    assert(lines.skip(i)[0] == lines[i]);
    assert(lines.skip(i).drop_first() =~= lines.skip(i + 1));
}

/// Parses a binary's full "list tests" output into entries.  Every
/// recognized line yields exactly one entry; the first unrecognized line
/// fails the parse, and the error keeps the whole output.
pub fn parse_list_output(output: &str) -> (r: Result<Vec<ListEntry>, ParseTestListError>)
    ensures
        match r {
            Ok(es) => spec_parse_lines(split_lines(output@)) == Some(entry_views(es@)),
            Err(e) => spec_parse_lines(split_lines(output@)) is None && (e matches
                ParseTestListError::ParseLine { message, full_output } && message@
                == "invalid line in test list output"@ && full_output@ == output@),
        },
{
    let lines = split_output_lines(output);
    let ghost lviews = split_lines(output@);
    let mut out: Vec<ListEntry> = Vec::new();
    let mut i: usize = 0;
    proof {
        assert(lviews.skip(0) =~= lviews);
        assert(entry_views(out@) =~= Seq::<(Seq<char>, bool)>::empty());
    }
    while i < lines.len()
        invariant
            lviews == split_lines(output@),
            crate::helpers::views(lines@) == lviews,
            lines@.len() == lviews.len(),
            i <= lines@.len(),
            spec_parse_lines(lviews) == (match spec_parse_lines(lviews.skip(i as int)) {
                None => None::<Seq<(Seq<char>, bool)>>,
                Some(rest) => Some(entry_views(out@) + rest),
            }),
        decreases lines@.len() - i,
    {
        let line: &String = &lines[i];
        proof {
            lemma_parse_lines_step(lviews, i as int);
            assert(lviews[i as int] == line@);
        }
        let n = line.as_str().unicode_len();
        let entry: Option<ListEntry> = if str_has_suffix(line.as_str(), ": test") {
            proof {
                reveal_strlit(": test");
            }
            if n > 6 {
                let name = line.as_str().substring_char(0, n - 6).to_owned();
                proof {
                    assert(name@ =~= line@.take(line@.len() - 6));
                }
                Some(ListEntry { name, benchmark: false })
            } else {
                None
            }
        } else if str_has_suffix(line.as_str(), ": benchmark") {
            proof {
                reveal_strlit(": test");
                reveal_strlit(": benchmark");
            }
            if n > 11 {
                let name = line.as_str().substring_char(0, n - 11).to_owned();
                proof {
                    assert(name@ =~= line@.take(line@.len() - 11));
                }
                Some(ListEntry { name, benchmark: true })
            } else {
                None
            }
        } else {
            proof {
                reveal_strlit(": test");
                reveal_strlit(": benchmark");
            }
            None
        };
        match entry {
            Some(e) => {
                let ghost out0 = out@;
                let ghost ev = (e.name@, e.benchmark);
                out.push(e);
                proof {
                    assert(entry_views(out@) =~= entry_views(out0).push(ev));
                    assert(line_entry(lviews[i as int]) == Some(ev));
                    assert forall|rest: Seq<(Seq<char>, bool)>| true implies entry_views(out0)
                        + (seq![ev] + rest) =~= entry_views(out@) + rest by {}
                }
            },
            None => {
                proof {
                    assert(line_entry(lviews[i as int]) is None);
                }
                return Err(
                    ParseTestListError::parse_line("invalid line in test list output", output),
                );
            },
        }
        i += 1;
    }
    proof {
        assert(lviews.skip(lviews.len() as int) =~= Seq::<Seq<char>>::empty());
        assert(entry_views(out@) + Seq::<(Seq<char>, bool)>::empty() =~= entry_views(out@));
    }
    Ok(out)
}

/// The identity under which a case is hashed for partitioning: the binary's
/// path and the test name.
pub open spec fn spec_case_identity(binary_path: Seq<char>, name: Seq<char>) -> Seq<char> {
    binary_path + "::"@ + name
}

/// Builds a case's partitioning identity.
pub fn case_identity(binary_path: &str, name: &str) -> (r: String)
    ensures
        r@ == spec_case_identity(binary_path@, name@),
{
    let mut out = binary_path.to_owned();
    vstd::string::StringExecFns::append(&mut out, "::");
    vstd::string::StringExecFns::append(&mut out, name);
    out
}

/// The full, immutable snapshot of the cases discovered for a run.
#[derive(Clone, Debug)]
pub struct TestList {
    binaries: Vec<TestBinary>,
    cases: Vec<TestCase>,
}

impl TestList {
    /// The spec view of the cases.
    pub closed spec fn cases_view(self) -> Seq<TestCase> {
        self.cases@
    }

    /// The spec view of the binaries.
    pub closed spec fn binaries_view(self) -> Seq<TestBinary> {
        self.binaries@
    }

    /// Uniqueness and reference validity: every case points at a binary of
    /// the run, and no two cases share the same (binary, name) pair.
    pub open spec fn wf(self) -> bool {
        &&& forall|i: int|
            0 <= i < self.cases_view().len() ==> (#[trigger] self.cases_view()[i]).binary_index
                < self.binaries_view().len()
        &&& forall|i: int, j: int|
            0 <= i < j < self.cases_view().len() ==> !((
            #[trigger] self.cases_view()[i]).binary_index == (
            #[trigger] self.cases_view()[j]).binary_index && self.cases_view()[i].name@
                == self.cases_view()[j].name@)
    }

    /// The binaries of the run.
    pub fn binaries(&self) -> (r: &Vec<TestBinary>)
        ensures
            r@ == self.binaries_view(),
    {
        &self.binaries
    }

    /// The cases of the run.
    pub fn cases(&self) -> (r: &Vec<TestCase>)
        ensures
            r@ == self.cases_view(),
    {
        &self.cases
    }

    /// Builds the snapshot, enforcing the uniqueness invariant: `None`
    /// exactly when a case points outside the binaries or two cases share a
    /// (binary, name) pair.
    pub fn new(binaries: Vec<TestBinary>, cases: Vec<TestCase>) -> (r: Option<TestList>)
        ensures
            match r {
                Some(l) => l.wf() && l.binaries_view() == binaries@ && l.cases_view() == cases@,
                None => !((forall|i: int|
                    0 <= i < cases@.len() ==> (#[trigger] cases@[i]).binary_index
                        < binaries@.len()) && (forall|i: int, j: int|
                    0 <= i < j < cases@.len() ==> !((#[trigger] cases@[i]).binary_index == (
                    #[trigger] cases@[j]).binary_index && cases@[i].name@ == cases@[j].name@))),
            },
    {
        let mut i: usize = 0;
        while i < cases.len()
            invariant
                i <= cases@.len(),
                forall|k: int|
                    0 <= k < i ==> (#[trigger] cases@[k]).binary_index < binaries@.len(),
                forall|k: int, j: int|
                    0 <= k < j < i ==> !((#[trigger] cases@[k]).binary_index == (
                    #[trigger] cases@[j]).binary_index && cases@[k].name@ == cases@[j].name@),
            decreases cases@.len() - i,
        {
            if cases[i].binary_index >= binaries.len() {
                return None;
            }
            let mut j: usize = 0;
            while j < i
                invariant
                    j <= i < cases@.len(),
                    forall|k: int|
                        0 <= k < j ==> !((#[trigger] cases@[k]).binary_index
                            == cases@[i as int].binary_index && cases@[k].name@
                            == cases@[i as int].name@),
                decreases i - j,
            {
                if cases[j].binary_index == cases[i].binary_index && str_eq(
                    cases[j].name.as_str(),
                    cases[i].name.as_str(),
                ) {
                    return None;
                }
                j += 1;
            }
            i += 1;
        }
        Some(TestList { binaries, cases })
    }

    /// Whether case `i` belongs to the shard that `p` selects.
    pub fn case_in_shard(&self, i: usize, p: &PartitionerBuilder) -> (r: bool)
        requires
            self.wf(),
            i < self.cases_view().len(),
            p.wf(),
        ensures
            r == p.spec_member(
                vstd::utf8::encode_utf8(
                    spec_case_identity(
                        self.binaries_view()[self.cases_view()[i as int].binary_index as int].path@,
                        self.cases_view()[i as int].name@,
                    ),
                ),
            ),
    {
        let case = &self.cases[i];
        let binary = &self.binaries[case.binary_index];
        let id = case_identity(binary.path.as_str(), case.name.as_str());
        let bytes = id.as_str().as_bytes_vec();
        p.member_bytes(&bytes)
    }

    /// The scheduling plan for the run's cases, under one effective retry
    /// budget.
    pub fn to_planned(&self, retry_budget: usize) -> (r: Vec<PlannedTest>)
        ensures
            r@.len() == self.cases_view().len(),
            forall|i: int|
                0 <= i < r@.len() ==> (#[trigger] r@[i]).ignored == self.cases_view()[i].ignored
                    && r@[i].retry_budget == retry_budget,
    {
        let mut out: Vec<PlannedTest> = Vec::new();
        let mut i: usize = 0;
        while i < self.cases.len()
            invariant
                i <= self.cases@.len(),
                out@.len() == i,
                forall|k: int|
                    0 <= k < i ==> (#[trigger] out@[k]).ignored == self.cases@[k].ignored
                        && out@[k].retry_budget == retry_budget,
            decreases self.cases@.len() - i,
        {
            out.push(PlannedTest { ignored: self.cases[i].ignored, retry_budget });
            i += 1;
        }
        out
    }
}

} // verus!
