use biome_traverse::diagnostic::{
    Diagnostic, DiffDiagnostic, DiffKind, Printed, Resource, Severity,
};
use biome_traverse::execution::{Execution, FeatureName, TraversalMode};
use biome_traverse::markup::{Content, Markup, MarkupElement};
use biome_traverse::message::Message;
use biome_traverse::output::ConsoleLine;
use biome_traverse::processor::{Awaited, Event, MessageProcessor, Totals};
use biome_traverse::report::{
    FormatterReportFileDetail, ReportErrorKind, ReportKind,
};

fn execution(mode: TraversalMode, terminal: bool, max: u16) -> Execution {
    Execution {
        traversal_mode: mode,
        command_name: String::from("check"),
        diagnostic_category: String::from("check"),
        feature_name: FeatureName::Lint,
        max_diagnostics: max,
        report_to_terminal: terminal,
        fixes_files: false,
        check_apply: false,
        stdin_file: false,
    }
}

fn diagnostic(error: u32, severity: Severity) -> Diagnostic<u32> {
    Diagnostic {
        error,
        severity,
        category: None,
        description: String::from("described"),
        resource: None,
    }
}

fn about(error: u32, severity: Severity, path: &str) -> Diagnostic<u32> {
    Diagnostic {
        resource: Some(Resource::File(String::from(path))),
        ..diagnostic(error, severity)
    }
}

fn listed(diagnostics: Vec<Diagnostic<u32>>, skipped_diagnostics: u64) -> Message<u32> {
    Message::Diagnostics {
        name: String::from("a.js"),
        content: String::from("let a;"),
        diagnostics,
        skipped_diagnostics,
    }
}

fn diff(diff_kind: DiffKind) -> Message<u32> {
    Message::Diff {
        file_name: String::from("b.js"),
        old: String::from("old"),
        new: String::from("new"),
        diff_kind,
    }
}

fn run(execution: &Execution, messages: Vec<Message<u32>>) -> (Vec<ConsoleLine<u32>>, Totals) {
    let mut processor = MessageProcessor::new(execution);
    for message in messages {
        assert!(processor.accepts(&message));
        processor.step(Event::Message(message));
        if processor.awaited() == Awaited::Path {
            processor.step(Event::Path(None));
        }
    }
    processor.step(Event::MessagesClosed);
    processor.step(Event::ReportsClosed);
    assert_eq!(processor.awaited(), Awaited::Nothing);
    processor.finish(false)
}

fn text(markup: &Markup) -> String {
    let mut text = String::new();
    for node in &markup.nodes {
        match &node.content {
            Content::Text(piece) => text.push_str(piece),
            Content::Duration(elapsed) => text.push_str(&format!("{}s", elapsed.secs)),
        }
    }
    text
}

fn printed_errors(lines: &[ConsoleLine<u32>]) -> Vec<u32> {
    let mut errors = Vec::new();
    for line in lines {
        match line {
            ConsoleLine::Error { diagnostic: Printed::Failure(error), .. } => errors.push(*error),
            ConsoleLine::Error { diagnostic: Printed::Diagnostic { diagnostic, .. }, .. } => {
                errors.push(diagnostic.error)
            }
            _ => {}
        }
    }
    errors
}

fn logs(lines: &[ConsoleLine<u32>]) -> Vec<String> {
    let mut logs = Vec::new();
    for line in lines {
        if let ConsoleLine::Log(markup) = line {
            logs.push(text(markup));
        }
    }
    logs
}

#[test]
fn an_empty_run_writes_nothing() {
    let (lines, totals) = run(&execution(TraversalMode::Check, true, 20), vec![]);
    assert!(lines.is_empty());
    assert_eq!((totals.errors, totals.warnings), (0, 0));
    assert!(totals.report.details.is_empty());
    assert!(totals.report.formatter_summary.is_none());
}

#[test]
fn the_first_findings_are_printed_and_the_others_counted() {
    let (lines, totals) = run(
        &execution(TraversalMode::Lint, true, 2),
        vec![
            Message::ApplyError(1),
            listed(
                vec![
                    diagnostic(2, Severity::Error),
                    diagnostic(3, Severity::Warning),
                    diagnostic(4, Severity::Hint),
                ],
                5,
            ),
            Message::Error(diagnostic(5, Severity::Warning)),
        ],
    );
    assert_eq!(printed_errors(&lines), vec![1, 2]);
    assert_eq!(
        logs(&lines),
        vec![String::from(
            "The number of diagnostics exceeds the number allowed by Biome.\n\
             Diagnostics not shown: 8."
        )]
    );
    assert_eq!((totals.errors, totals.warnings), (2, 2));
    assert!(totals.report.details.is_empty());
}

#[test]
fn a_limit_of_zero_prints_nothing() {
    let (lines, totals) = run(
        &execution(TraversalMode::Check, true, 0),
        vec![Message::ApplyError(1), diff(DiffKind::Format)],
    );
    assert!(printed_errors(&lines).is_empty());
    assert_eq!(lines.len(), 1);
    assert_eq!(totals.errors, 1);
}

#[test]
fn remaining_diagnostics_follow_what_is_printed() {
    let mut processor = MessageProcessor::new(&execution(TraversalMode::Check, true, 2));
    assert_eq!(processor.remaining_diagnostics(), 2);
    processor.receive_message(Message::ApplyError(1));
    assert_eq!(processor.remaining_diagnostics(), 1);
    processor.receive_message(Message::SkippedFixes { skipped_suggested_fixes: 3 });
    assert_eq!(processor.remaining_diagnostics(), 1);
    processor.receive_message(diff(DiffKind::OrganizeImports));
    assert_eq!(processor.remaining_diagnostics(), 0);
    processor.receive_message(Message::ApplyError(2));
    assert_eq!(processor.remaining_diagnostics(), 0);
}

#[test]
fn an_error_sent_alone_is_counted_as_an_error() {
    let (lines, totals) = run(
        &execution(TraversalMode::Check, true, 20),
        vec![Message::Error(diagnostic(9, Severity::Error))],
    );
    assert_eq!(printed_errors(&lines), vec![9]);
    assert_eq!((totals.errors, totals.warnings), (1, 0));
}

#[test]
fn an_error_sent_alone_counts_only_where_it_is_printed() {
    for mode in [TraversalMode::Check, TraversalMode::CI] {
        let (lines, totals) = run(
            &execution(mode, true, 0),
            vec![Message::Error(diagnostic(9, Severity::Error))],
        );
        assert!(printed_errors(&lines).is_empty());
        assert_eq!((totals.errors, totals.warnings), (0, 0));
        let (lines, totals) = run(
            &execution(mode, false, 20),
            vec![Message::Error(diagnostic(9, Severity::Error))],
        );
        assert!(lines.is_empty());
        assert_eq!((totals.errors, totals.warnings), (0, 0));
        assert_eq!(totals.report.details.len(), 1);
    }
    let (lines, totals) = run(
        &execution(TraversalMode::Check, true, 2),
        vec![
            Message::Error(diagnostic(1, Severity::Error)),
            Message::Error(diagnostic(2, Severity::Error)),
            Message::Error(diagnostic(3, Severity::Error)),
            Message::Error(diagnostic(4, Severity::Warning)),
            listed(vec![diagnostic(5, Severity::Error)], 0),
        ],
    );
    assert_eq!(printed_errors(&lines), vec![1, 2]);
    assert_eq!((totals.errors, totals.warnings), (3, 1));
}

#[test]
fn the_order_bears_on_errors_sent_alone_once_the_limit_is_reached() {
    let hint = || Message::Error(diagnostic(1, Severity::Hint));
    let error = || Message::Error(diagnostic(2, Severity::Error));
    let execution = execution(TraversalMode::Check, true, 1);
    let (_, totals) = run(&execution, vec![hint(), error()]);
    assert_eq!(totals.errors, 0);
    let (_, totals) = run(&execution, vec![error(), hint()]);
    assert_eq!(totals.errors, 1);
}

#[test]
fn continuous_integration_prints_every_listed_diagnostic() {
    let (lines, totals) = run(
        &execution(TraversalMode::CI, true, 1),
        vec![
            listed(
                vec![
                    diagnostic(1, Severity::Error),
                    diagnostic(2, Severity::Warning),
                    diagnostic(3, Severity::Error),
                ],
                7,
            ),
            Message::ApplyError(4),
            Message::ApplyError(5),
        ],
    );
    assert_eq!(printed_errors(&lines), vec![1, 2, 3, 4]);
    assert!(logs(&lines).is_empty());
    assert_eq!((totals.errors, totals.warnings), (4, 1));
    match &lines[0] {
        ConsoleLine::Error {
            diagnostic: Printed::Diagnostic { file_path, source_code, .. },
            verbose,
        } => {
            assert_eq!(file_path.as_deref(), Some("a.js"));
            assert_eq!(source_code.as_deref(), Some("let a;"));
            assert!(!verbose);
        }
        _ => panic!("a diagnostic was expected"),
    }
}

#[test]
fn continuous_integration_prints_listed_diagnostics_beside_a_report() {
    let (lines, totals) = run(
        &execution(TraversalMode::CI, false, 1),
        vec![listed(vec![diagnostic(1, Severity::Error)], 0)],
    );
    assert_eq!(printed_errors(&lines), vec![1]);
    assert!(totals.report.details.is_empty());
}

#[test]
fn differences_have_a_form_for_each_kind_and_mode() {
    for (mode, kind, expected, errors) in [
        (TraversalMode::CI, DiffKind::Format, DiffDiagnostic::CIFormat, 1usize),
        (TraversalMode::CI, DiffKind::OrganizeImports, DiffDiagnostic::CIOrganizeImports, 1),
        (TraversalMode::Check, DiffKind::Format, DiffDiagnostic::Format, 0),
        (
            TraversalMode::Format { write: false },
            DiffKind::OrganizeImports,
            DiffDiagnostic::OrganizeImports,
            0,
        ),
    ] {
        let (lines, totals) = run(&execution(mode, true, 5), vec![diff(kind)]);
        assert_eq!(totals.errors, errors);
        match &lines[0] {
            ConsoleLine::Error {
                diagnostic: Printed::Diff { form, file_name, old, new },
                ..
            } => {
                assert_eq!(*form, expected);
                assert_eq!((file_name.as_str(), old.as_str(), new.as_str()), ("b.js", "old", "new"));
            }
            _ => panic!("a difference was expected"),
        }
    }
}

#[test]
fn the_report_takes_every_finding() {
    let known = Diagnostic {
        category: Some(String::from("lint/correctness/noUnusedVariables")),
        ..about(1, Severity::Warning, "c.js")
    };
    let unknown = Diagnostic {
        category: Some(String::from("no/such/category")),
        ..diagnostic(2, Severity::Fatal)
    };
    let in_list = Diagnostic {
        category: Some(String::from("format")),
        ..diagnostic(3, Severity::Information)
    };
    let (lines, totals) = run(
        &execution(TraversalMode::Check, false, 1),
        vec![
            Message::Error(known),
            Message::Error(unknown),
            Message::ApplyError(8),
            listed(vec![in_list], 0),
            diff(DiffKind::Format),
        ],
    );
    assert!(printed_errors(&lines).is_empty());
    assert_eq!(logs(&lines).len(), 1);
    let details = &totals.report.details;
    assert_eq!(details.len(), 4);
    let mut seen = Vec::new();
    for detail in details {
        match detail {
            ReportKind::Error(file, ReportErrorKind::Diagnostic(found)) => seen.push((
                file.clone(),
                found.code.clone(),
                found.title.clone(),
                found.severity,
            )),
            ReportKind::Error(file, ReportErrorKind::Diff(found)) => {
                assert_eq!(file, "b.js");
                assert_eq!((found.before.as_str(), found.after.as_str()), ("old", "new"));
                assert_eq!(found.severity, Severity::Error);
            }
            _ => panic!("no formatter entry was sent"),
        }
    }
    assert_eq!(
        seen,
        vec![
            (
                String::from("c.js"),
                Some(String::from("lint/correctness/noUnusedVariables")),
                String::from("described"),
                Severity::Warning,
            ),
            (String::from("<unknown>"), None, String::from("described"), Severity::Fatal),
            (
                String::from("a.js"),
                Some(String::from("format")),
                String::from("test here"),
                Severity::Information,
            ),
        ]
    );
}

#[test]
fn a_diagnostic_about_arguments_or_memory_has_no_file() {
    for resource in [Resource::Argv, Resource::Memory] {
        let found = Diagnostic { resource: Some(resource), ..diagnostic(1, Severity::Error) };
        assert!(found.file().is_none());
        let (_, totals) =
            run(&execution(TraversalMode::Lint, false, 1), vec![Message::Error(found)]);
        match &totals.report.details[0] {
            ReportKind::Error(file, _) => assert_eq!(file, "<unknown>"),
            _ => panic!("an error entry was expected"),
        }
    }
}

#[test]
fn skipped_fixes_are_announced_in_a_check_only() {
    let messages = || {
        vec![
            Message::SkippedFixes { skipped_suggested_fixes: 3 },
            Message::SkippedFixes { skipped_suggested_fixes: 9 },
        ]
    };
    let (lines, _) = run(&execution(TraversalMode::Check, true, 5), messages());
    assert_eq!(
        logs(&lines),
        vec![String::from(
            "Skipped 12 suggested fixes.\nIf you wish to apply the suggested (unsafe) fixes, \
             use the command biome check --apply-unsafe\n"
        )]
    );
    match &lines[0] {
        ConsoleLine::Log(markup) => {
            assert_eq!(markup.nodes[0].elements, vec![MarkupElement::Warn]);
            assert_eq!(
                markup.nodes[4].elements,
                vec![MarkupElement::Info, MarkupElement::Emphasis]
            );
        }
        _ => panic!("a notice was expected"),
    }
    let (lines, _) = run(&execution(TraversalMode::Lint, true, 5), messages());
    assert!(lines.is_empty());
}

#[test]
fn a_diagnostic_waits_for_the_path_of_its_file() {
    let mut processor = MessageProcessor::new(&execution(TraversalMode::Check, true, 5));
    processor.step(Event::Message(Message::Error(about(1, Severity::Warning, "c.js"))));
    assert_eq!(processor.awaited(), Awaited::Path);
    processor.step(Event::Path(Some(String::from("a.js"))));
    processor.step(Event::Path(Some(String::from("a.js"))));
    assert_eq!(processor.awaited(), Awaited::Path);
    processor.step(Event::Path(Some(String::from("c.js"))));
    assert_eq!(processor.awaited(), Awaited::Input);
    // Both paths are known now.
    processor.step(Event::Message(Message::Error(about(2, Severity::Error, "a.js"))));
    assert_eq!(processor.awaited(), Awaited::Input);
    processor.step(Event::Message(Message::Error(about(3, Severity::Error, "c.js"))));
    assert_eq!(processor.awaited(), Awaited::Input);
    processor.step(Event::Message(Message::Error(about(4, Severity::Error, "d.js"))));
    processor.step(Event::Path(None));
    processor.step(Event::ReportsClosed);
    assert_eq!(processor.awaited(), Awaited::Input);
    processor.step(Event::MessagesClosed);
    let (lines, totals) = processor.finish(true);
    assert_eq!((totals.errors, totals.warnings), (3, 1));
    let mut paths = Vec::new();
    for line in &lines {
        match line {
            ConsoleLine::Error {
                diagnostic: Printed::Diagnostic { file_path, source_code, .. },
                verbose,
            } => {
                assert!(*verbose);
                assert!(source_code.is_none());
                paths.push(file_path.clone());
            }
            _ => panic!("a diagnostic was expected"),
        }
    }
    assert_eq!(
        paths,
        vec![
            Some(String::from("c.js")),
            Some(String::from("a.js")),
            Some(String::from("c.js")),
            None
        ]
    );
}

#[test]
fn the_lookup_of_a_path_does_not_change_the_report() {
    let mut names = Vec::new();
    for found in [true, false] {
        let mut processor = MessageProcessor::new(&execution(TraversalMode::Check, false, 5));
        processor.step(Event::Message(Message::Error(about(1, Severity::Error, "c.js"))));
        if found {
            processor.step(Event::Path(Some(String::from("c.js"))));
        } else {
            processor.step(Event::Path(None));
        }
        processor.step(Event::MessagesClosed);
        processor.step(Event::ReportsClosed);
        let (_, totals) = processor.finish(false);
        match &totals.report.details[0] {
            ReportKind::Error(file, _) => names.push(file.clone()),
            _ => panic!("an error entry was expected"),
        }
    }
    assert_eq!(names, vec![String::from("c.js"), String::from("c.js")]);
}

#[test]
fn report_entries_keep_their_order() {
    let mut processor =
        MessageProcessor::<u32>::new(&execution(TraversalMode::Format { write: true }, false, 5));
    for name in ["x.js", "y.js"] {
        processor.step(Event::Report(ReportKind::Formatter(
            String::from(name),
            FormatterReportFileDetail { formatted_content: None },
        )));
    }
    processor.step(Event::MessagesClosed);
    processor.step(Event::MessagesClosed);
    assert_eq!(processor.awaited(), Awaited::Input);
    processor.step(Event::ReportsClosed);
    let (_, totals) = processor.finish(false);
    let mut names = Vec::new();
    for detail in &totals.report.details {
        match detail {
            ReportKind::Formatter(file, _) => names.push(file.clone()),
            _ => panic!("a formatter entry was expected"),
        }
    }
    assert_eq!(names, vec![String::from("x.js"), String::from("y.js")]);
}

#[test]
fn the_report_follows_the_events() {
    let names = |terminal: bool| {
        let mut processor =
            MessageProcessor::new(&execution(TraversalMode::Check, terminal, 0));
        let sent = |name: &str| {
            Event::Report(ReportKind::Formatter(
                String::from(name),
                FormatterReportFileDetail { formatted_content: None },
            ))
        };
        processor.step(sent("x.js"));
        processor.step(Event::Message(Message::ApplyError(1)));
        processor.step(Event::Message(diff(DiffKind::Format)));
        processor.step(sent("y.js"));
        processor.step(Event::Message(Message::Error(about(2, Severity::Error, "c.js"))));
        if processor.awaited() == Awaited::Path {
            processor.step(Event::Path(Some(String::from("c.js"))));
        }
        processor.step(sent("z.js"));
        processor.step(Event::MessagesClosed);
        processor.step(Event::ReportsClosed);
        let (_, totals) = processor.finish(false);
        let mut names = Vec::new();
        for detail in totals.report.details {
            match detail {
                ReportKind::Formatter(file, _) => names.push(file),
                ReportKind::Error(file, _) => names.push(file),
            }
        }
        names
    };
    assert_eq!(names(false), vec!["x.js", "b.js", "y.js", "c.js", "z.js"]);
    assert_eq!(names(true), vec!["x.js", "y.js", "z.js"]);
}

#[test]
fn continuous_integration_keeps_the_order_of_listed_diagnostics() {
    let (lines, totals) = run(
        &execution(TraversalMode::CI, true, 2),
        vec![
            listed(vec![diagnostic(1, Severity::Warning), diagnostic(2, Severity::Error)], 0),
            Message::Error(diagnostic(3, Severity::Error)),
            listed(vec![diagnostic(4, Severity::Warning)], 0),
            Message::ApplyError(5),
            listed(vec![diagnostic(6, Severity::Hint)], 0),
        ],
    );
    assert_eq!(printed_errors(&lines), vec![1, 2, 3, 4, 5, 6]);
    let mut with_source_code = Vec::new();
    for line in &lines {
        if let ConsoleLine::Error {
            diagnostic: Printed::Diagnostic { diagnostic, source_code: Some(_), .. },
            ..
        } = line
        {
            with_source_code.push(diagnostic.error);
        }
    }
    assert_eq!(with_source_code, vec![1, 2, 4, 6]);
    assert_eq!((totals.errors, totals.warnings), (3, 2));
}

#[test]
fn the_order_of_messages_does_not_change_the_counts() {
    let messages = |reversed: bool| {
        let mut messages = vec![
            Message::ApplyError(1),
            listed(vec![diagnostic(2, Severity::Error), diagnostic(3, Severity::Warning)], 1),
            Message::Error(diagnostic(4, Severity::Warning)),
            diff(DiffKind::Format),
        ];
        if reversed {
            messages.reverse();
        }
        messages
    };
    let execution = execution(TraversalMode::Check, true, 2);
    let (lines, totals) = run(&execution, messages(false));
    let (other_lines, other_totals) = run(&execution, messages(true));
    assert_eq!((totals.errors, totals.warnings), (2, 2));
    assert_eq!((other_totals.errors, other_totals.warnings), (2, 2));
    assert_eq!(logs(&lines), logs(&other_lines));
    assert_eq!(lines.len(), other_lines.len());
}

#[test]
fn counters_that_would_overflow_are_refused() {
    let mut processor =
        MessageProcessor::<u32>::new(&execution(TraversalMode::Check, true, 0));
    processor.receive_message(Message::SkippedFixes { skipped_suggested_fixes: u64::MAX });
    assert!(!processor.accepts(&Message::SkippedFixes { skipped_suggested_fixes: 1 }));
    assert!(processor.accepts(&Message::SkippedFixes { skipped_suggested_fixes: 0 }));
    assert!(processor.accepts(&listed(vec![], u64::MAX)));
    processor.receive_message(listed(vec![], u64::MAX));
    assert!(!processor.accepts(&Message::ApplyError(1)));
    assert!(!processor.accepts(&Message::Error(diagnostic(1, Severity::Hint))));
    assert!(!processor.accepts(&listed(vec![diagnostic(1, Severity::Hint)], 0)));
    assert!(!processor.accepts(&diff(DiffKind::Format)));
    assert!(processor.accepts(&listed(vec![], 0)));
    assert!(!processor.accepts(&listed(vec![], 1)));
}
