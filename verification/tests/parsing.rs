use nextest_runner::errors::{
    ConfigParseError, FromMessagesError, ParseTestListError, PartitionerBuilderParseError,
    ProfileNotFound, RunIgnoredParseError, StatusLevelParseError, TargetRunnerError,
    TestOutputDisplayParseError, WriteEventError, WriteTestListError,
};
use nextest_runner::partition::PartitionerBuilder;
use nextest_runner::reporter::{StatusLevel, TestOutputDisplay};
use nextest_runner::test_filter::RunIgnored;
use nextest_runner::test_list::{parse_list_output, BinaryKind, TestBinary, TestCase, TestList};

#[test]
fn test_output_display_parses_known_values() {
    assert_eq!(
        TestOutputDisplay::parse("immediate").unwrap(),
        TestOutputDisplay::Immediate
    );
    assert_eq!(
        TestOutputDisplay::parse("immediate-final").unwrap(),
        TestOutputDisplay::ImmediateFinal
    );
    assert_eq!(
        TestOutputDisplay::parse("final").unwrap(),
        TestOutputDisplay::Final
    );
    assert_eq!(
        TestOutputDisplay::parse("never").unwrap(),
        TestOutputDisplay::Never
    );
    assert!(TestOutputDisplay::parse("sometimes").is_err());
    let err = TestOutputDisplay::parse("Immediate").unwrap_err();
    assert_eq!(err.input(), "Immediate");
    assert_eq!(
        err.message(),
        "unrecognized value for test output display: Immediate\n(known values: immediate, immediate-final, final, never)"
    );
}

#[test]
fn status_level_parses_known_values() {
    assert_eq!(StatusLevel::parse("none").unwrap(), StatusLevel::Quiet);
    assert_eq!(StatusLevel::parse("fail").unwrap(), StatusLevel::Fail);
    assert_eq!(StatusLevel::parse("retry").unwrap(), StatusLevel::Retry);
    assert_eq!(StatusLevel::parse("slow").unwrap(), StatusLevel::Slow);
    assert_eq!(StatusLevel::parse("pass").unwrap(), StatusLevel::Pass);
    assert_eq!(StatusLevel::parse("skip").unwrap(), StatusLevel::Skip);
    assert_eq!(StatusLevel::parse("all").unwrap(), StatusLevel::All);
    let err = StatusLevel::parse("loud").unwrap_err();
    assert_eq!(
        err.message(),
        "unrecognized value for status-level: loud\n(known values: none, fail, retry, slow, pass, skip, all)"
    );
}

#[test]
fn run_ignored_parses_known_values() {
    assert_eq!(RunIgnored::parse("default").unwrap(), RunIgnored::Default);
    assert_eq!(
        RunIgnored::parse("ignored-only").unwrap(),
        RunIgnored::IgnoredOnly
    );
    assert_eq!(RunIgnored::parse("all").unwrap(), RunIgnored::All);
    let err = RunIgnored::parse("everything").unwrap_err();
    assert_eq!(
        err.message(),
        "unrecognized value for run-ignored: everything\n(known values: default, ignored-only, all)"
    );
    assert!(RunIgnored::Default.runs(false));
    assert!(!RunIgnored::Default.runs(true));
    assert!(RunIgnored::IgnoredOnly.runs(true));
    assert!(!RunIgnored::IgnoredOnly.runs(false));
    assert!(RunIgnored::All.runs(true));
    assert!(RunIgnored::All.runs(false));
}

#[test]
fn profile_not_found_sorts_known_profiles() {
    let err = ProfileNotFound::new(
        "release",
        vec![
            "default".to_owned(),
            "ci".to_owned(),
            "bench".to_owned(),
        ],
    );
    assert_eq!(err.profile(), "release");
    assert_eq!(
        err.message(),
        "profile 'release' not found (known profiles: bench, ci, default)"
    );
}

#[test]
fn partition_spec_parses_and_rejects() {
    assert_eq!(
        PartitionerBuilder::parse("count:1/3").unwrap(),
        PartitionerBuilder::Count { shard: 1, total: 3 }
    );
    assert_eq!(
        PartitionerBuilder::parse("hash:0/2").unwrap(),
        PartitionerBuilder::Hash { shard: 0, total: 2 }
    );
    assert_eq!(
        PartitionerBuilder::parse("1/3").unwrap(),
        PartitionerBuilder::Hash { shard: 1, total: 3 }
    );
    for bad in [
        "", "/", "1/", "/3", "3/3", "4/3", "0/0", "a/3", "1/b", "count:", "hash:",
        "count:3/2", "1/2/3", "1 /2",
    ] {
        let err = PartitionerBuilder::parse(bad).unwrap_err();
        assert_eq!(
            err.message(),
            format!(
                "partition must be in the format \"count:M/N, hash:M/N or M/N\":\ninvalid partition specification: {}",
                bad
            )
        );
    }
}

#[test]
fn partition_shards_cover_every_identity_once() {
    let identities = [
        "bin::alpha", "bin::beta", "bin::gamma", "bin::delta", "bin::epsilon",
        "bin::zeta", "bin::eta", "bin::theta", "bin::iota",
    ];
    let shards = [
        PartitionerBuilder::parse("0/3").unwrap(),
        PartitionerBuilder::parse("1/3").unwrap(),
        PartitionerBuilder::parse("2/3").unwrap(),
    ];
    let mut total = 0usize;
    for id in identities {
        let mut count = 0usize;
        for shard in &shards {
            if shard.member(id) {
                count += 1;
            }
        }
        assert_eq!(count, 1);
        total += count;
    }
    assert_eq!(total, 9);
}

#[test]
fn partition_membership_is_deterministic() {
    let p1 = PartitionerBuilder::parse("count:2/5").unwrap();
    let p2 = PartitionerBuilder::parse("count:2/5").unwrap();
    for id in ["x", "y", "a::b::c", ""] {
        assert_eq!(p1.member(id), p2.member(id));
        assert_eq!(p1.member(id), p1.member(id));
    }
}

#[test]
fn list_output_parses_tests_and_benchmarks() {
    let entries =
        parse_list_output("alpha::one: test\nalpha::two: test\n\nbench::speed: benchmark\n")
            .unwrap();
    assert_eq!(entries.len(), 3);
    assert_eq!(entries[0].name, "alpha::one");
    assert!(!entries[0].benchmark);
    assert_eq!(entries[1].name, "alpha::two");
    assert_eq!(entries[2].name, "bench::speed");
    assert!(entries[2].benchmark);
}

#[test]
fn list_output_rejects_unrecognized_line_with_full_output() {
    let output = "alpha::one: test\nwhat is this\nalpha::two: test\n";
    let err = parse_list_output(output).unwrap_err();
    match err {
        ParseTestListError::ParseLine {
            message,
            full_output,
        } => {
            assert_eq!(message, "invalid line in test list output");
            assert_eq!(full_output, output);
        }
        _ => panic!("expected a parse-line failure"),
    }
    assert!(parse_list_output(": test").is_err());
}

#[test]
fn test_list_enforces_unique_case_identity() {
    let binaries = vec![TestBinary {
        package_id: "pkg".to_owned(),
        kind: BinaryKind::UnitTest,
        path: "target/debug/pkg-abc".to_owned(),
        platform_triple: "x86_64-unknown-linux-gnu".to_owned(),
    }];
    let case = |name: &str| TestCase {
        binary_index: 0,
        name: name.to_owned(),
        ignored: false,
    };
    assert!(TestList::new(binaries.clone(), vec![case("a"), case("b")]).is_some());
    assert!(TestList::new(binaries.clone(), vec![case("a"), case("a")]).is_none());
    let oob = TestCase {
        binary_index: 1,
        name: "a".to_owned(),
        ignored: false,
    };
    assert!(TestList::new(binaries, vec![oob]).is_none());
}

#[test]
fn error_messages_name_the_fault() {
    let cfg = ConfigParseError::new(
        ".config/nextest.toml",
        config::ConfigError::Message("boom".to_owned()),
    );
    assert_eq!(
        cfg.message(),
        "failed to parse nextest config at `.config/nextest.toml`"
    );

    let io = std::io::Error::new(std::io::ErrorKind::NotFound, "gone");
    assert_eq!(
        FromMessagesError::ReadMessages(io).message(),
        "error reading Cargo JSON messages"
    );

    let io = std::io::Error::new(std::io::ErrorKind::NotFound, "gone");
    let cmd = ParseTestListError::command("my-binary --list", io);
    assert_eq!(cmd.message(), "running 'my-binary --list' failed");

    let json = serde_json::from_str::<serde_json::Value>("{").unwrap_err();
    assert_eq!(
        WriteTestListError::Json(json).message(),
        "error serializing to JSON"
    );
    let io = std::io::Error::new(std::io::ErrorKind::Other, "disk full");
    assert_eq!(
        WriteTestListError::Io(io).message(),
        "error writing to output"
    );

    let io = std::io::Error::new(std::io::ErrorKind::Other, "disk full");
    assert_eq!(
        WriteEventError::Fs {
            file: "out/junit.xml".to_owned(),
            error: io,
        }
        .message(),
        "error operating on path out/junit.xml"
    );
}

#[test]
fn target_runner_error_messages_name_the_value() {
    let err = TargetRunnerError::InvalidEnvironmentVar("CARGO_TARGET_FOO_RUNNER".to_owned());
    assert_eq!(
        err.message(),
        "environment variable 'CARGO_TARGET_FOO_RUNNER' contained non-utf8 data"
    );
    let err = TargetRunnerError::BinaryNotSpecified {
        key: "CARGO_TARGET_FOO_RUNNER".to_owned(),
        value: "   ".to_owned(),
    };
    assert_eq!(
        err.message(),
        "runner 'CARGO_TARGET_FOO_RUNNER' = '   ' did not contain a runner binary"
    );
    let err = TargetRunnerError::NonUtf8Path("a\u{fffd}b".to_owned());
    assert_eq!(err.message(), "path 'a\u{fffd}b' is non-utf8");

    let toml_err = toml::from_str::<toml::Value>("= bad").unwrap_err();
    let err = TargetRunnerError::FailedToParseConfig {
        path: "cfg.toml".to_owned(),
        error: toml_err,
    };
    assert!(err.message().starts_with("failed to parse config 'cfg.toml': "));

    let io = std::io::Error::new(std::io::ErrorKind::Other, "denied");
    let err = TargetRunnerError::FailedToReadConfig {
        path: "cfg.toml".to_owned(),
        error: io,
    };
    assert!(err.message().starts_with("failed to read 'cfg.toml': "));
}

#[test]
fn partitioner_error_without_format_is_just_the_message() {
    let err = PartitionerBuilderParseError::new(None, "nothing to partition");
    assert_eq!(err.message(), "nothing to partition");
    assert_eq!(err.message_text(), "nothing to partition");
}

#[test]
fn parse_error_constructors_keep_inputs() {
    let e = TestOutputDisplayParseError::new("xyz");
    assert_eq!(e.input(), "xyz");
    let e = StatusLevelParseError::new("xyz");
    assert_eq!(e.input(), "xyz");
    let e = RunIgnoredParseError::new("xyz");
    assert_eq!(e.input(), "xyz");
    let e = ParseTestListError::parse_line("bad line", "the whole output");
    match e {
        ParseTestListError::ParseLine {
            message,
            full_output,
        } => {
            assert_eq!(message, "bad line");
            assert_eq!(full_output, "the whole output");
        }
        _ => panic!("expected a parse-line failure"),
    }
}
