use scripty::errors::ExecError;
use scripty::replies::code_block;
use scripty::replies::language_list;
use scripty::replies::ms_label;
use scripty::replies::u64_to_string;
use scripty::languages::next_step;
use scripty::languages::ContainerResponse;
use scripty::languages::RunPoll;
use scripty::languages::RunStep;
use scripty::languages::DEFAULT_DEADLINE_MS;
use scripty::languages::RawRunOutput;
use scripty::validation::expected_self_test_output;
use scripty::validation::self_test_passes;

fn raw(timed_out: bool, stdout: &[u8], stderr: &[u8], elapsed_ms: u64) -> RawRunOutput {
    RawRunOutput { timed_out, stdout: stdout.to_vec(), stderr: stderr.to_vec(), elapsed_ms }
}

#[test]
fn run_round_trip_output() {
    let outcome = ContainerResponse::from_run(raw(false, b"python_test\n", b"", 42)).unwrap();
    assert!(outcome.is_output());
    match outcome {
        ContainerResponse::Output(text, elapsed) => {
            assert_eq!(text, "python_test\n");
            assert_eq!(elapsed, 42);
        },
        ContainerResponse::Timeout => panic!("Executor timed out"),
    }
}

#[test]
fn timeout_discards_all_output() {
    let outcome = ContainerResponse::from_run(raw(true, b"partial stdout", b"noise", 5000)).unwrap();
    assert!(!outcome.is_output());
    assert!(matches!(outcome, ContainerResponse::Timeout));
}

#[test]
fn stderr_wins_output_selection() {
    let outcome =
        ContainerResponse::from_run(raw(false, b"ordinary output", b"error: boom\n", 7)).unwrap();
    match outcome {
        ContainerResponse::Output(text, _) => assert_eq!(text, "error: boom\n"),
        ContainerResponse::Timeout => panic!("unexpected timeout"),
    }
}

#[test]
fn empty_stderr_keeps_stdout() {
    let outcome = ContainerResponse::from_run(raw(false, b"hi\n", b"", 3)).unwrap();
    match outcome {
        ContainerResponse::Output(text, _) => assert_eq!(text, "hi\n"),
        ContainerResponse::Timeout => panic!("unexpected timeout"),
    }
}

#[test]
fn invalid_utf8_is_an_encoding_error() {
    let err = ContainerResponse::from_run(raw(false, &[0xff, 0xfe, 0x41], b"", 1)).unwrap_err();
    assert_eq!(err, ExecError::EncodingError);

    let err = ContainerResponse::output(vec![0xc3, 0x28], 1).unwrap_err();
    assert_eq!(err, ExecError::EncodingError);
}

#[test]
fn output_decodes_utf8() {
    let outcome = ContainerResponse::output("héllo".as_bytes().to_vec(), 9).unwrap();
    match outcome {
        ContainerResponse::Output(text, elapsed) => {
            assert_eq!(text, "héllo");
            assert_eq!(elapsed, 9);
        },
        ContainerResponse::Timeout => panic!("unexpected timeout"),
    }
}

#[test]
fn identical_runs_conclude_identically() {
    let mut texts: Vec<String> = Vec::new();
    for _ in 0..3 {
        let outcome = ContainerResponse::from_run(raw(false, b"python_test\n", b"", 11)).unwrap();
        match outcome {
            ContainerResponse::Output(text, elapsed) => {
                assert_eq!(elapsed, 11);
                texts.push(text);
            },
            ContainerResponse::Timeout => panic!("unexpected timeout"),
        }
    }
    assert_eq!(texts, vec!["python_test\n", "python_test\n", "python_test\n"]);
}

#[test]
fn self_test_accepts_exact_trimmed_output() {
    let good = ContainerResponse::Output("python_test\n".to_string(), 12);
    assert!(self_test_passes("python", &good));

    let padded = ContainerResponse::Output("\n  python_test \t\n".to_string(), 12);
    assert!(self_test_passes("python", &padded));
}

#[test]
fn self_test_rejects_deviation_and_timeout() {
    let wrong = ContainerResponse::Output("python_fail\n".to_string(), 12);
    assert!(!self_test_passes("python", &wrong));

    let other_lang = ContainerResponse::Output("python_test\n".to_string(), 12);
    assert!(!self_test_passes("cpp", &other_lang));

    assert!(!self_test_passes("python", &ContainerResponse::Timeout));
}

#[test]
fn expected_self_test_text() {
    assert_eq!(expected_self_test_output("python"), "python_test");
    assert_eq!(expected_self_test_output("cpp"), "cpp_test");
}

#[test]
fn error_messages_are_fixed() {
    assert_eq!(
        ExecError::ConfigurationError.message(),
        "Configuration path is missing or unreadable"
    );
    assert_eq!(ExecError::InvalidCommand.message(), "RegEx is not match");
    assert_eq!(ExecError::UnsupportedLanguage.message(), "Language is not yet supported");
    assert_eq!(ExecError::LaunchError.message(), "Isolated process failed to start");
    assert_eq!(ExecError::IoError.message(), "Pipe read or write failed");
    assert_eq!(ExecError::EncodingError.message(), "Captured bytes are not valid UTF-8");
}

#[test]
fn reply_bodies_are_assembled_exactly() {
    assert_eq!(language_list(&vec!["python".to_string(), "rust".to_string()]), " • python\n • rust");
    assert_eq!(language_list(&vec!["cpp".to_string()]), " • cpp");
    assert_eq!(language_list(&Vec::new()), " • ");

    assert_eq!(code_block("print('hi')"), "```print('hi')```");

    assert_eq!(u64_to_string(0), "0");
    assert_eq!(u64_to_string(7), "7");
    assert_eq!(u64_to_string(1234567890), "1234567890");
    assert_eq!(ms_label(42), "42ms");
    assert_eq!(ms_label(1000), "1000ms");
}

#[test]
fn deadline_policy_decides_each_poll() {
    assert_eq!(next_step(9999, DEFAULT_DEADLINE_MS, RunPoll::Exited), RunStep::Conclude);
    assert_eq!(next_step(0, DEFAULT_DEADLINE_MS, RunPoll::StillRunning), RunStep::KeepWaiting);
    assert_eq!(next_step(4999, 5000, RunPoll::StillRunning), RunStep::KeepWaiting);
    assert_eq!(next_step(5000, 5000, RunPoll::StillRunning), RunStep::Terminate);
    assert_eq!(next_step(10000, 5000, RunPoll::StillRunning), RunStep::Terminate);
}
