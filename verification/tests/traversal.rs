use biome_traverse::conclusion::{
    check_inputs, conclude, decide_exit, CliDiagnostic, Conclusion, FileCounts,
};
use biome_traverse::diagnostic::{Diagnostic, Severity};
use biome_traverse::execution::{worker_name, CliOptions, Execution, FeatureName, TraversalMode};
use biome_traverse::finding::count_severity;
use biome_traverse::handling::{
    can_handle_directory, can_handle_file, handle_file, panic_message, query_for, FileFeatures,
    FileOutcome, Outgoing, WorkspaceQuery,
};
use biome_traverse::markup::{Content, Elapsed, Markup, MarkupElement};
use biome_traverse::message::Message;
use biome_traverse::output::CheckResult;
use biome_traverse::processor::{Event, MessageProcessor, Totals};
use biome_traverse::report::{
    error_entry, listed_entry, FormatterReportSummary, Report, ReportErrorKind, ReportKind,
};
use biome_traverse::text::decimal_text;

const DURATION: Elapsed = Elapsed { secs: 3, nanos: 5 };

fn execution(mode: TraversalMode) -> Execution {
    Execution {
        traversal_mode: mode,
        command_name: String::from("lint"),
        diagnostic_category: String::from("some/category"),
        feature_name: FeatureName::Lint,
        max_diagnostics: 20,
        report_to_terminal: true,
        fixes_files: false,
        check_apply: false,
        stdin_file: false,
    }
}

const OPTIONS: CliOptions =
    CliOptions { verbose: false, error_on_warnings: false, no_errors_on_unmatched: false };

fn totals(errors: usize, warnings: usize) -> Totals {
    Totals { errors, warnings, report: Report::new() }
}

fn text(markup: &Markup) -> String {
    let mut text = String::new();
    for node in &markup.nodes {
        match &node.content {
            Content::Text(piece) => text.push_str(piece),
            Content::Duration(elapsed) => {
                assert_eq!(*elapsed, DURATION);
                text.push_str("<duration>")
            }
        }
    }
    text
}

fn terminal(conclusion: Conclusion) -> (Vec<String>, Result<(), CliDiagnostic>) {
    match conclusion {
        Conclusion::Terminal { logs, result } => (logs.iter().map(text).collect(), result),
        Conclusion::Serialized { .. } => panic!("the run reports to the terminal"),
    }
}

#[test]
fn numbers_are_written_in_decimal() {
    assert_eq!(decimal_text(0), "0");
    assert_eq!(decimal_text(9), "9");
    assert_eq!(decimal_text(10), "10");
    assert_eq!(decimal_text(1_234_567_890), "1234567890");
    assert_eq!(decimal_text(u64::MAX), "18446744073709551615");
    assert_eq!(worker_name(12), "rome::worker_12");
}

#[test]
fn a_run_needs_an_input() {
    let mut lint = execution(TraversalMode::Lint);
    match check_inputs(&lint, 0) {
        Err(CliDiagnostic::MissingArgument { argument, subcommand }) => {
            assert_eq!((argument.as_str(), subcommand.as_str()), ("<INPUT>", "lint"));
        }
        _ => panic!("the input is missing"),
    }
    assert!(check_inputs(&lint, 1).is_ok());
    lint.stdin_file = true;
    assert!(check_inputs(&lint, 0).is_ok());
}

#[test]
fn the_outcome_depends_on_the_mode() {
    let outcome = |mode: TraversalMode, fixes_files: bool| {
        let execution = Execution { fixes_files, ..execution(mode) };
        let files = FileCounts { processed: 4, skipped: 0 };
        terminal(conclude(&execution, OPTIONS, files, DURATION, totals(2, 0))).0
    };
    let checked = String::from("Checked 4 file(s) in <duration>\nFound 2 error(s)");
    let fixed = String::from("Fixed 4 file(s) in <duration>");
    assert_eq!(outcome(TraversalMode::Check, false), vec![checked.clone()]);
    assert_eq!(outcome(TraversalMode::Check, true), vec![fixed.clone()]);
    assert_eq!(outcome(TraversalMode::Lint, false), vec![checked.clone()]);
    assert_eq!(outcome(TraversalMode::Lint, true), vec![fixed]);
    assert_eq!(outcome(TraversalMode::CI, true), vec![checked]);
    assert_eq!(
        outcome(TraversalMode::Format { write: false }, false),
        vec![String::from("Compared 4 file(s) in <duration>")]
    );
    assert_eq!(
        outcome(TraversalMode::Format { write: true }, false),
        vec![String::from("Formatted 4 file(s) in <duration>")]
    );
    assert_eq!(
        outcome(TraversalMode::Migrate { write: false }, false),
        vec![String::from("Checked your configuration file in <duration>")]
    );
    assert_eq!(
        outcome(TraversalMode::Migrate { write: true }, false),
        vec![String::from("Migrated your configuration file in <duration>")]
    );
}

#[test]
fn a_check_without_errors_does_not_speak_of_errors() {
    let markup = CheckResult { count: 10, duration: DURATION, errors: 0 }.fmt();
    assert_eq!(text(&markup), "Checked 10 file(s) in <duration>");
    assert!(markup.nodes.iter().all(|node| node.elements == vec![MarkupElement::Info]));
    let markup = CheckResult { count: 1, duration: DURATION, errors: 11 }.fmt();
    assert_eq!(text(&markup), "Checked 1 file(s) in <duration>\nFound 11 error(s)");
    assert!(markup.nodes[4].elements.is_empty());
    assert_eq!(markup.nodes[5].elements, vec![MarkupElement::Error]);
}

#[test]
fn skipped_files_are_announced() {
    let files = FileCounts { processed: 4, skipped: 3 };
    let (logs, result) = terminal(conclude(
        &execution(TraversalMode::Check),
        OPTIONS,
        files,
        DURATION,
        totals(0, 0),
    ));
    assert_eq!(logs[1], "Skipped 3 file(s)");
    assert_eq!(logs.len(), 2);
    assert!(result.is_ok());
}

#[test]
fn each_failure_has_its_diagnostic() {
    let check = execution(TraversalMode::Check);
    let apply = Execution { check_apply: true, ..execution(TraversalMode::Check) };
    let some = FileCounts { processed: 2, skipped: 1 };
    let none = FileCounts { processed: 2, skipped: 2 };
    let strict = CliOptions { error_on_warnings: true, ..OPTIONS };
    let lenient = CliOptions { no_errors_on_unmatched: true, ..OPTIONS };

    assert!(decide_exit(&check, OPTIONS, some, 0, 7).is_ok());
    assert!(decide_exit(&check, lenient, none, 0, 0).is_ok());
    assert!(matches!(
        decide_exit(&check, strict, none, 1, 1),
        Err(CliDiagnostic::NoFilesProcessed)
    ));
    assert!(matches!(
        decide_exit(&check, OPTIONS, FileCounts { processed: 1, skipped: 5 }, 0, 0),
        Err(CliDiagnostic::NoFilesProcessed)
    ));
    match decide_exit(&check, OPTIONS, some, 1, 1) {
        Err(CliDiagnostic::CheckError { category }) => assert_eq!(category, "some/category"),
        _ => panic!("the errors fail the run"),
    }
    match decide_exit(&apply, OPTIONS, some, 1, 0) {
        Err(CliDiagnostic::ApplyError { category }) => assert_eq!(category, "some/category"),
        _ => panic!("the errors fail the run"),
    }
    match decide_exit(&check, strict, some, 1, 1) {
        Err(CliDiagnostic::CheckWarnings { category }) => assert_eq!(category, "some/category"),
        _ => panic!("the warnings fail the run"),
    }
    match decide_exit(&apply, strict, some, 0, 1) {
        Err(CliDiagnostic::ApplyWarnings { category }) => assert_eq!(category, "some/category"),
        _ => panic!("the warnings fail the run"),
    }
    assert!(matches!(
        decide_exit(&check, lenient, none, 1, 0),
        Err(CliDiagnostic::CheckError { .. })
    ));
}

#[test]
fn away_from_the_terminal_the_report_is_summarized() {
    let files = FileCounts { processed: 6, skipped: 6 };
    for (mode, expected) in [
        (
            TraversalMode::Format { write: true },
            Some(FormatterReportSummary::FilesWritten(6)),
        ),
        (
            TraversalMode::Format { write: false },
            Some(FormatterReportSummary::FilesCompared(6)),
        ),
        (TraversalMode::Check, None),
    ] {
        let execution = Execution { report_to_terminal: false, ..execution(mode) };
        match conclude(&execution, OPTIONS, files, DURATION, totals(5, 5)) {
            Conclusion::Serialized { report } => {
                assert_eq!(report.formatter_summary, expected);
                assert!(report.details.is_empty());
            }
            Conclusion::Terminal { .. } => panic!("the run does not report to the terminal"),
        }
    }
}

#[test]
fn the_workspace_is_asked_by_the_kind_of_path() {
    assert!(matches!(
        query_for(true, FeatureName::Format),
        WorkspaceQuery::IsPathIgnored { feature: FeatureName::Format }
    ));
    match query_for(false, FeatureName::Format) {
        WorkspaceQuery::FileFeatures { features } => assert_eq!(
            features,
            vec![FeatureName::Lint, FeatureName::Format, FeatureName::OrganizeImports]
        ),
        _ => panic!("a file is asked for its features"),
    }
}

#[test]
fn directories_are_entered_unless_ignored() {
    assert_eq!(can_handle_directory::<u8>(Ok(true)), (false, None));
    assert_eq!(can_handle_directory::<u8>(Ok(false)), (true, None));
    assert_eq!(can_handle_directory(Err(4u8)), (true, Some(4)));
}

#[test]
fn files_are_handled_by_the_features_of_the_mode() {
    let only = |lint: bool, format: bool, organize_imports: bool| FileFeatures {
        lint,
        format,
        organize_imports,
    };
    let handles = |mode: TraversalMode, features: FileFeatures| {
        let (handled, missing) = can_handle_file::<u8>(mode, Ok(features), String::from("a.js"));
        assert!(missing.is_none());
        handled
    };
    for mode in [TraversalMode::Check, TraversalMode::CI] {
        assert!(handles(mode, only(true, false, false)));
        assert!(handles(mode, only(false, true, false)));
        assert!(handles(mode, only(false, false, true)));
        assert!(!handles(mode, only(false, false, false)));
    }
    let format = TraversalMode::Format { write: true };
    assert!(handles(format, only(false, true, false)));
    assert!(!handles(format, only(true, false, true)));
    assert!(handles(TraversalMode::Lint, only(true, false, false)));
    assert!(!handles(TraversalMode::Lint, only(false, true, true)));
    for write in [false, true] {
        assert!(handles(TraversalMode::Migrate { write }, only(false, false, false)));
        assert!(handles(TraversalMode::Migrate { write }, only(true, true, true)));
    }
}

#[test]
fn a_file_without_a_handler_is_reported() {
    let (handled, missing) =
        can_handle_file(TraversalMode::Migrate { write: true }, Err(3u8), String::from("a.xyz"));
    assert!(!handled);
    let missing = missing.unwrap();
    assert_eq!(missing.error, 3);
    assert_eq!(missing.category, "files/missingHandler");
    assert_eq!(missing.file_path, "a.xyz");
}

#[test]
fn only_failed_files_are_skipped() {
    let path = || String::from("a.js");
    assert!(matches!(
        handle_file::<u8>(FileOutcome::Success, path()),
        (false, Outgoing::Nothing)
    ));
    assert!(matches!(
        handle_file::<u8>(FileOutcome::Ignored, path()),
        (false, Outgoing::Nothing)
    ));
    assert!(matches!(
        handle_file(FileOutcome::Message(Message::ApplyError(1u8)), path()),
        (false, Outgoing::Message(Message::ApplyError(1)))
    ));
    assert!(matches!(
        handle_file(FileOutcome::Failed(Message::ApplyError(2u8)), path()),
        (true, Outgoing::Message(Message::ApplyError(2)))
    ));
    match handle_file::<u8>(FileOutcome::Panicked(Some(String::from("boom"))), path()) {
        (false, Outgoing::Panic { message, file_path }) => {
            assert_eq!(message, "processing panicked: boom");
            assert_eq!(file_path, "a.js");
        }
        _ => panic!("the panic is sent"),
    }
    assert_eq!(panic_message(None), "processing panicked");
}

#[test]
fn entries_take_the_code_they_are_given() {
    let found = Diagnostic {
        error: 1u8,
        severity: Severity::Warning,
        category: Some(String::from("no/such/category")),
        description: String::from("described"),
        resource: None,
    };
    assert_eq!(found.code(), None);
    match error_entry(&found, Some(String::from("given"))) {
        ReportKind::Error(file, ReportErrorKind::Diagnostic(entry)) => {
            assert_eq!(file, "<unknown>");
            assert_eq!(entry.code.as_deref(), Some("given"));
            assert_eq!(entry.title, "described");
        }
        _ => panic!("a diagnostic was expected"),
    }
    match listed_entry(&String::from("a.js"), &found, None) {
        ReportKind::Error(file, ReportErrorKind::Diagnostic(entry)) => {
            assert_eq!(file, "a.js");
            assert!(entry.code.is_none());
            assert_eq!(entry.title, "test here");
        }
        _ => panic!("a diagnostic was expected"),
    }
    let known = Diagnostic { category: Some(String::from("files/missingHandler")), ..found };
    assert_eq!(known.code().as_deref(), Some("files/missingHandler"));
}

#[test]
fn severities_are_counted() {
    let of = |severity: Severity| Diagnostic {
        error: 0u8,
        severity,
        category: None,
        description: String::new(),
        resource: None,
    };
    let diagnostics = vec![of(Severity::Error), of(Severity::Fatal), of(Severity::Error)];
    assert_eq!(count_severity(&diagnostics, Severity::Error), 2);
    assert_eq!(count_severity(&diagnostics, Severity::Fatal), 1);
    assert_eq!(count_severity(&diagnostics, Severity::Hint), 0);
}

#[test]
fn a_run_ends_as_its_messages_say() {
    let ends = |errors: bool, warnings: bool, options: CliOptions| {
        let execution = execution(TraversalMode::Check);
        let mut processor = MessageProcessor::new(&execution);
        if errors {
            processor.step(Event::Message(Message::ApplyError(1u8)));
        }
        if warnings {
            processor.step(Event::Message(Message::Error(Diagnostic {
                error: 2u8,
                severity: Severity::Warning,
                category: None,
                description: String::new(),
                resource: None,
            })));
        }
        processor.step(Event::ReportsClosed);
        processor.step(Event::MessagesClosed);
        let (lines, totals) = processor.finish(options.verbose);
        assert_eq!(lines.len(), usize::from(errors) + usize::from(warnings));
        let files = FileCounts { processed: 1, skipped: 0 };
        terminal(conclude(&execution, options, files, DURATION, totals)).1
    };
    let strict = CliOptions { error_on_warnings: true, ..OPTIONS };
    assert!(ends(false, false, strict).is_ok());
    assert!(ends(false, true, OPTIONS).is_ok());
    assert!(matches!(ends(true, false, OPTIONS), Err(CliDiagnostic::CheckError { .. })));
    assert!(matches!(ends(false, true, strict), Err(CliDiagnostic::CheckWarnings { .. })));
    assert!(matches!(ends(true, true, strict), Err(CliDiagnostic::CheckWarnings { .. })));
}

#[test]
fn an_error_sent_alone_fails_the_run_where_it_is_printed() {
    let ends = |max_diagnostics: u16| {
        let execution = Execution { max_diagnostics, ..execution(TraversalMode::Check) };
        let mut processor = MessageProcessor::new(&execution);
        processor.step(Event::Message(Message::Error(Diagnostic {
            error: 1u8,
            severity: Severity::Error,
            category: None,
            description: String::new(),
            resource: None,
        })));
        processor.step(Event::ReportsClosed);
        processor.step(Event::MessagesClosed);
        let (_, totals) = processor.finish(false);
        let files = FileCounts { processed: 1, skipped: 0 };
        terminal(conclude(&execution, OPTIONS, files, DURATION, totals)).1
    };
    assert!(matches!(ends(1), Err(CliDiagnostic::CheckError { .. })));
    assert!(ends(0).is_ok());
}
