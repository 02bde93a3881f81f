//! Errors produced by the test-runner core.
//!
//! Fatal errors carry the exact offending value (input string, file path,
//! platform triple) so that their messages are self-contained; underlying
//! causes from collaborating crates are kept in fields for diagnostics.

use vstd::prelude::*;
use vstd::string::StringExecFns;
use crate::helpers::{comma_join, join_commas, sort_strings, strings_sorted, views};

verus! {

/// Holder for `std::io::Error`, which this crate stores as an opaque cause.
#[verifier::external_type_specification]
#[verifier::external_body]
pub struct ExIoError(std::io::Error);

/// Holder for `config::ConfigError`, the cause of a config parse failure.
#[verifier::external_type_specification]
#[verifier::external_body]
pub struct ExConfigError(config::ConfigError);

/// Holder for `guppy::Error`, the cause of a package-graph query failure.
#[verifier::external_type_specification]
#[verifier::external_body]
pub struct ExGuppyError(guppy::Error);

/// Holder for `serde_json::Error`, the cause of a JSON serialization failure.
#[verifier::external_type_specification]
#[verifier::external_body]
pub struct ExJsonError(serde_json::Error);

/// Holder for `quick_junit::SerializeError`, the cause of a JUnit XML failure.
#[verifier::external_type_specification]
#[verifier::external_body]
pub struct ExJunitSerializeError(quick_junit::SerializeError);

/// Holder for `toml::de::Error`, the cause of a TOML config parse failure.
#[verifier::external_type_specification]
#[verifier::external_body]
pub struct ExTomlDeError(toml::de::Error);

/// Holder for `target_spec::Error`, the cause of a host-platform failure.
#[verifier::external_type_specification]
#[verifier::external_body]
pub struct ExTargetSpecError(target_spec::Error);

/// Holder for `target_spec::errors::TripleParseError`, the cause of a triple
/// parse failure.
#[verifier::external_type_specification]
#[verifier::external_body]
pub struct ExTripleParseError(target_spec::errors::TripleParseError);

/// An error that occurred while parsing the config.
#[derive(Debug)]
pub struct ConfigParseError {
    config_file: String,
    err: config::ConfigError,
}

impl ConfigParseError {
    /// The path of the config file that failed to parse.
    pub closed spec fn config_file_view(&self) -> Seq<char> {
        self.config_file@
    }

    pub fn new(config_file: &str, err: config::ConfigError) -> (r: Self)
        ensures
            r.config_file_view() == config_file@,
    {
        Self { config_file: config_file.to_owned(), err }
    }

    /// The path of the config file that failed to parse.
    pub fn config_file(&self) -> (r: &str)
        ensures
            r@ == self.config_file_view(),
    {
        self.config_file.as_str()
    }

    /// The underlying cause.
    pub fn err(&self) -> &config::ConfigError {
        &self.err
    }

    /// The user-visible message.
    pub fn message(&self) -> (r: String)
        ensures
            r@ == "failed to parse nextest config at `"@ + self.config_file_view() + "`"@,
    {
        let mut out = String::from_str("failed to parse nextest config at `");
        out.append(self.config_file.as_str());
        out.append("`");
        out
    }
}

/// An error which indicates that a profile was requested but not known.
#[derive(Clone, Debug)]
pub struct ProfileNotFound {
    profile: String,
    all_profiles: Vec<String>,
}

impl ProfileNotFound {
    /// The name of the requested profile.
    pub closed spec fn profile_view(&self) -> Seq<char> {
        self.profile@
    }

    /// The known profile names, sorted.
    pub closed spec fn all_profiles_views(&self) -> Seq<Seq<char>> {
        views(self.all_profiles@)
    }

    /// Records the requested profile and the known profiles, sorted for
    /// deterministic diagnostics.
    pub fn new(profile: &str, all_profiles: Vec<String>) -> (r: Self)
        ensures
            r.profile_view() == profile@,
            strings_sorted(r.all_profiles_views()),
            r.all_profiles_views().to_multiset() == views(all_profiles@).to_multiset(),
            r.all_profiles_views().len() == all_profiles@.len(),
    {
        let sorted = sort_strings(all_profiles);
        Self { profile: profile.to_owned(), all_profiles: sorted }
    }

    /// The name of the requested profile.
    pub fn profile(&self) -> (r: &str)
        ensures
            r@ == self.profile_view(),
    {
        self.profile.as_str()
    }

    /// The user-visible message, listing all known profiles.
    pub fn message(&self) -> (r: String)
        ensures
            r@ == "profile '"@ + self.profile_view() + "' not found (known profiles: "@
                + comma_join(self.all_profiles_views()) + ")"@,
    {
        let mut out = String::from_str("profile '");
        out.append(self.profile.as_str());
        out.append("' not found (known profiles: ");
        let joined = join_commas(&self.all_profiles);
        out.append(joined.as_str());
        out.append(")");
        out
    }
}

/// Error returned while parsing a `TestOutputDisplay` value from a string.
#[derive(Clone, Debug)]
pub struct TestOutputDisplayParseError {
    input: String,
}

impl TestOutputDisplayParseError {
    /// The rejected input.
    pub closed spec fn input_view(&self) -> Seq<char> {
        self.input@
    }

    pub fn new(input: &str) -> (r: Self)
        ensures
            r.input_view() == input@,
    {
        Self { input: input.to_owned() }
    }

    /// The rejected input.
    pub fn input(&self) -> (r: &str)
        ensures
            r@ == self.input_view(),
    {
        self.input.as_str()
    }

    /// The user-visible message, listing the valid values.
    pub fn message(&self) -> (r: String)
        ensures
            r@ == "unrecognized value for test output display: "@ + self.input_view()
                + "\n(known values: "@
                + comma_join(crate::reporter::TestOutputDisplay::spec_variants()) + ")"@,
    {
        let mut out = String::from_str("unrecognized value for test output display: ");
        out.append(self.input.as_str());
        out.append("\n(known values: ");
        let variants = crate::reporter::TestOutputDisplay::variants();
        let joined = crate::helpers::join_commas_str(&variants);
        out.append(joined.as_str());
        out.append(")");
        out
    }
}

/// Error returned while parsing a `StatusLevel` value from a string.
#[derive(Clone, Debug)]
pub struct StatusLevelParseError {
    input: String,
}

impl StatusLevelParseError {
    /// The rejected input.
    pub closed spec fn input_view(&self) -> Seq<char> {
        self.input@
    }

    pub fn new(input: &str) -> (r: Self)
        ensures
            r.input_view() == input@,
    {
        Self { input: input.to_owned() }
    }

    /// The rejected input.
    pub fn input(&self) -> (r: &str)
        ensures
            r@ == self.input_view(),
    {
        self.input.as_str()
    }

    /// The user-visible message, listing the valid values.
    pub fn message(&self) -> (r: String)
        ensures
            r@ == "unrecognized value for status-level: "@ + self.input_view()
                + "\n(known values: "@
                + comma_join(crate::reporter::StatusLevel::spec_variants()) + ")"@,
    {
        let mut out = String::from_str("unrecognized value for status-level: ");
        out.append(self.input.as_str());
        out.append("\n(known values: ");
        let variants = crate::reporter::StatusLevel::variants();
        let joined = crate::helpers::join_commas_str(&variants);
        out.append(joined.as_str());
        out.append(")");
        out
    }
}

/// An error that occurs while parsing a `RunIgnored` value from a string.
#[derive(Clone, Debug)]
pub struct RunIgnoredParseError {
    input: String,
}

impl RunIgnoredParseError {
    /// The rejected input.
    pub closed spec fn input_view(&self) -> Seq<char> {
        self.input@
    }

    pub fn new(input: &str) -> (r: Self)
        ensures
            r.input_view() == input@,
    {
        Self { input: input.to_owned() }
    }

    /// The rejected input.
    pub fn input(&self) -> (r: &str)
        ensures
            r@ == self.input_view(),
    {
        self.input.as_str()
    }

    /// The user-visible message, listing the valid values.
    pub fn message(&self) -> (r: String)
        ensures
            r@ == "unrecognized value for run-ignored: "@ + self.input_view()
                + "\n(known values: "@
                + comma_join(crate::test_filter::RunIgnored::spec_variants()) + ")"@,
    {
        let mut out = String::from_str("unrecognized value for run-ignored: ");
        out.append(self.input.as_str());
        out.append("\n(known values: ");
        let variants = crate::test_filter::RunIgnored::variants();
        let joined = crate::helpers::join_commas_str(&variants);
        out.append(joined.as_str());
        out.append(")");
        out
    }
}

/// An error that occurs while parsing a partitioner specification.
#[derive(Clone, Debug)]
pub struct PartitionerBuilderParseError {
    expected_format: Option<&'static str>,
    message: String,
}

impl PartitionerBuilderParseError {
    /// The grammar the input was expected to follow, if one applies.
    pub closed spec fn expected_format_view(&self) -> Option<Seq<char>> {
        match self.expected_format {
            Some(f) => Some(f@),
            None => None,
        }
    }

    /// The description of what went wrong.
    pub closed spec fn message_view(&self) -> Seq<char> {
        self.message@
    }

    pub fn new(expected_format: Option<&'static str>, message: &str) -> (r: Self)
        ensures
            r.expected_format_view() == match expected_format {
                Some(f) => Some(f@),
                None => None::<Seq<char>>,
            },
            r.message_view() == message@,
    {
        Self { expected_format, message: message.to_owned() }
    }

    /// The description of what went wrong.
    pub fn message_text(&self) -> (r: &str)
        ensures
            r@ == self.message_view(),
    {
        self.message.as_str()
    }

    /// The user-visible message, naming the expected grammar when one applies.
    pub fn message(&self) -> (r: String)
        ensures
            match self.expected_format_view() {
                Some(f) => r@ == "partition must be in the format \""@ + f + "\":\n"@
                    + self.message_view(),
                None => r@ == self.message_view(),
            },
    {
        match self.expected_format {
            Some(format) => {
                let mut out = String::from_str("partition must be in the format \"");
                out.append(format);
                out.append("\":\n");
                out.append(self.message.as_str());
                out
            }
            None => self.message.clone(),
        }
    }
}

/// An error that occurs while reading build metadata.
#[derive(Debug)]
pub enum FromMessagesError {
    /// An error occurred while reading Cargo's JSON messages.
    ReadMessages(std::io::Error),
    /// An error occurred while querying the package graph.
    PackageGraph(guppy::Error),
}

impl FromMessagesError {
    /// The user-visible message, naming whether the cause was I/O or
    /// metadata-graph querying.
    pub fn message(&self) -> (r: String)
        ensures
            self is ReadMessages ==> r@ == "error reading Cargo JSON messages"@,
            self is PackageGraph ==> r@ == "error querying package graph"@,
    {
        match self {
            FromMessagesError::ReadMessages(_) => String::from_str(
                "error reading Cargo JSON messages",
            ),
            FromMessagesError::PackageGraph(_) => String::from_str("error querying package graph"),
        }
    }
}

/// An error that occurs while parsing test list output.
#[derive(Debug)]
pub enum ParseTestListError {
    /// Running a command to gather the list of tests failed.
    Command {
        /// The command that was run.
        command: String,
        /// The underlying error.
        error: std::io::Error,
    },
    /// An error occurred while parsing a line in the test output.
    ParseLine {
        /// A descriptive message.
        message: String,
        /// The full output, kept whole for postmortem diagnosis.
        full_output: String,
    },
}

impl ParseTestListError {
    pub fn command(command: &str, error: std::io::Error) -> (r: Self)
        ensures
            r matches ParseTestListError::Command { command: c, .. } && c@ == command@,
    {
        ParseTestListError::Command { command: command.to_owned(), error }
    }

    pub fn parse_line(message: &str, full_output: &str) -> (r: Self)
        ensures
            r matches ParseTestListError::ParseLine { message: m, full_output: f } && m@
                == message@ && f@ == full_output@,
    {
        ParseTestListError::ParseLine {
            message: message.to_owned(),
            full_output: full_output.to_owned(),
        }
    }

    /// The user-visible message; parse failures carry the full output.
    pub fn message(&self) -> (r: String)
        ensures
            self matches ParseTestListError::Command { command, .. } ==> r@ == "running '"@
                + command@ + "' failed"@,
            self matches ParseTestListError::ParseLine { message, full_output } ==> r@ == message@
                + "\nfull output:\n"@ + full_output@,
    {
        match self {
            ParseTestListError::Command { command, .. } => {
                let mut out = String::from_str("running '");
                out.append(command.as_str());
                out.append("' failed");
                out
            }
            ParseTestListError::ParseLine { message, full_output } => {
                let mut out = message.clone();
                out.append("\nfull output:\n");
                out.append(full_output.as_str());
                out
            }
        }
    }
}

/// An error that occurs while writing list output.
#[derive(Debug)]
pub enum WriteTestListError {
    /// An error occurred while writing the list to the provided output.
    Io(std::io::Error),
    /// An error occurred while serializing JSON, or while writing it.
    Json(serde_json::Error),
}

impl WriteTestListError {
    /// The user-visible message, distinguishing I/O from serialization.
    pub fn message(&self) -> (r: String)
        ensures
            self is Io ==> r@ == "error writing to output"@,
            self is Json ==> r@ == "error serializing to JSON"@,
    {
        match self {
            WriteTestListError::Io(_) => String::from_str("error writing to output"),
            WriteTestListError::Json(_) => String::from_str("error serializing to JSON"),
        }
    }
}

/// An error that occurred while producing JUnit XML.
#[derive(Debug)]
pub struct JunitError {
    err: quick_junit::SerializeError,
}

impl JunitError {
    pub fn new(err: quick_junit::SerializeError) -> Self {
        Self { err }
    }

    /// The underlying cause.
    pub fn err(&self) -> &quick_junit::SerializeError {
        &self.err
    }

    /// The user-visible message; the cause carries all the detail, so the
    /// message itself is empty.
    pub fn message(&self) -> (r: String)
        ensures
            r@ == Seq::<char>::empty(),
    {
        String::new()
    }
}

/// An error that occurs while writing an event.
#[derive(Debug)]
pub enum WriteEventError {
    /// An error occurred while writing the event to the provided output.
    Io(std::io::Error),
    /// An error occurred while operating on the file system.
    Fs {
        /// The file being operated on.
        file: String,
        /// The underlying IO error.
        error: std::io::Error,
    },
    /// An error occurred while producing JUnit XML.
    Junit {
        /// The output file.
        file: String,
        /// The underlying error.
        error: JunitError,
    },
}

impl WriteEventError {
    /// The user-visible message; file-system and JUnit failures identify the
    /// destination path.
    pub fn message(&self) -> (r: String)
        ensures
            self is Io ==> r@ == "error writing to output"@,
            self matches WriteEventError::Fs { file, .. } ==> r@ == "error operating on path "@
                + file@,
            self matches WriteEventError::Junit { file, .. } ==> r@
                == "error writing JUnit output to "@ + file@,
    {
        match self {
            WriteEventError::Io(_) => String::from_str("error writing to output"),
            WriteEventError::Fs { file, .. } => {
                let mut out = String::from_str("error operating on path ");
                out.append(file.as_str());
                out
            }
            WriteEventError::Junit { file, .. } => {
                let mut out = String::from_str("error writing JUnit output to ");
                out.append(file.as_str());
                out
            }
        }
    }
}

/// An error occurred determining the target runner.
#[derive(Debug)]
pub enum TargetRunnerError {
    /// Failed to determine the host triple, which is needed to determine the
    /// default target triple when a target is not explicitly specified.
    UnknownHostPlatform(target_spec::Error),
    /// An environment variable contained non-utf8 content.
    InvalidEnvironmentVar(String),
    /// An environment variable or config key was found that matches the
    /// target triple, but it didn't actually contain a binary.
    BinaryNotSpecified {
        /// The environment variable or config key path.
        key: String,
        /// The value that was read from the key.
        value: String,
    },
    /// Failed to retrieve a directory.
    UnableToReadDir(std::io::Error),
    /// Failed to canonicalize a path.
    FailedPathCanonicalization {
        /// The path that failed to canonicalize.
        path: String,
        /// The error that occurred during canonicalization.
        error: std::io::Error,
    },
    /// A path was non-utf8; the field holds its lossy rendering.
    NonUtf8Path(String),
    /// Failed to read the config file.
    FailedToReadConfig {
        /// The path of the config file.
        path: String,
        /// The error that occurred trying to read the config file.
        error: std::io::Error,
    },
    /// Failed to deserialize the config file.
    FailedToParseConfig {
        /// The path of the config file.
        path: String,
        /// The error that occurred trying to deserialize the config file.
        error: toml::de::Error,
    },
    /// Failed to parse the specified target triple.
    FailedToParseTargetTriple {
        /// The triple that failed to parse.
        triple: String,
        /// The error that occurred parsing the triple.
        error: target_spec::errors::TripleParseError,
    },
}

impl TargetRunnerError {
    /// The user-visible message; every variant names the exact value at
    /// fault, and variants with an underlying cause append its text.
    pub fn message(&self) -> (r: String)
        ensures
            self is UnknownHostPlatform ==> (exists|t: Seq<char>|
                r@ == "unable to determine host triple: "@ + t),
            self matches TargetRunnerError::InvalidEnvironmentVar(key) ==> r@
                == "environment variable '"@ + key@ + "' contained non-utf8 data"@,
            self matches TargetRunnerError::BinaryNotSpecified { key, value } ==> r@ == "runner '"@
                + key@ + "' = '"@ + value@ + "' did not contain a runner binary"@,
            self is UnableToReadDir ==> (exists|t: Seq<char>|
                r@ == "unable to read directory: "@ + t),
            self matches TargetRunnerError::FailedPathCanonicalization { path, .. } ==> (exists|
                t: Seq<char>,
            |
                r@ == "failed to canonicalize path '"@ + path@ + "': "@ + t),
            self matches TargetRunnerError::NonUtf8Path(path) ==> r@ == "path '"@ + path@
                + "' is non-utf8"@,
            self matches TargetRunnerError::FailedToReadConfig { path, .. } ==> (exists|
                t: Seq<char>,
            |
                r@ == "failed to read '"@ + path@ + "': "@ + t),
            self matches TargetRunnerError::FailedToParseConfig { path, .. } ==> (exists|
                t: Seq<char>,
            |
                r@ == "failed to parse config '"@ + path@ + "': "@ + t),
            self matches TargetRunnerError::FailedToParseTargetTriple { triple, .. } ==> (exists|
                t: Seq<char>,
            |
                r@ == "failed to parse triple '"@ + triple@ + "': "@ + t),
    {
        match self {
            TargetRunnerError::UnknownHostPlatform(error) => {
                let mut out = String::from_str("unable to determine host triple: ");
                let cause = error.to_string();
                out.append(cause.as_str());
                out
            }
            TargetRunnerError::InvalidEnvironmentVar(key) => {
                let mut out = String::from_str("environment variable '");
                out.append(key.as_str());
                out.append("' contained non-utf8 data");
                out
            }
            TargetRunnerError::BinaryNotSpecified { key, value } => {
                let mut out = String::from_str("runner '");
                out.append(key.as_str());
                out.append("' = '");
                out.append(value.as_str());
                out.append("' did not contain a runner binary");
                out
            }
            TargetRunnerError::UnableToReadDir(error) => {
                let mut out = String::from_str("unable to read directory: ");
                let cause = error.to_string();
                out.append(cause.as_str());
                out
            }
            TargetRunnerError::FailedPathCanonicalization { path, error } => {
                let mut out = String::from_str("failed to canonicalize path '");
                out.append(path.as_str());
                out.append("': ");
                let cause = error.to_string();
                out.append(cause.as_str());
                out
            }
            TargetRunnerError::NonUtf8Path(path) => {
                let mut out = String::from_str("path '");
                out.append(path.as_str());
                out.append("' is non-utf8");
                out
            }
            TargetRunnerError::FailedToReadConfig { path, error } => {
                let mut out = String::from_str("failed to read '");
                out.append(path.as_str());
                out.append("': ");
                let cause = error.to_string();
                out.append(cause.as_str());
                out
            }
            TargetRunnerError::FailedToParseConfig { path, error } => {
                let mut out = String::from_str("failed to parse config '");
                out.append(path.as_str());
                out.append("': ");
                let cause = error.to_string();
                out.append(cause.as_str());
                out
            }
            TargetRunnerError::FailedToParseTargetTriple { triple, error } => {
                let mut out = String::from_str("failed to parse triple '");
                out.append(triple.as_str());
                out.append("': ");
                let cause = error.to_string();
                out.append(cause.as_str());
                out
            }
        }
    }
}

} // verus!
