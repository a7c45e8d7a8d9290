//! How a run starts and how it ends.

use vstd::prelude::*;
use crate::execution::{CliOptions, Execution, TraversalMode};
use crate::markup::{Elapsed, Markup, MarkupNodeView};
use crate::output::CheckResult;
use crate::processor::Totals;
use crate::report::{FormatterReportSummary, Report, ReportView};

verus! {

/// Why a run failed.
#[derive(Debug)]
pub enum CliDiagnostic {
    /// The command line names no input.
    MissingArgument { argument: String, subcommand: String },
    /// No file was processed.
    NoFilesProcessed,
    /// A run that applied fixes found warnings, and warnings fail it.
    ApplyWarnings { category: String },
    /// A run found warnings, and warnings fail it.
    CheckWarnings { category: String },
    /// A run that applied fixes found errors.
    ApplyError { category: String },
    /// A run found errors.
    CheckError { category: String },
}

/// The mathematical value of a [`CliDiagnostic`].
pub enum CliDiagnosticView {
    MissingArgument { argument: Seq<char>, subcommand: Seq<char> },
    NoFilesProcessed,
    ApplyWarnings { category: Seq<char> },
    CheckWarnings { category: Seq<char> },
    ApplyError { category: Seq<char> },
    CheckError { category: Seq<char> },
}

impl View for CliDiagnostic {
    type V = CliDiagnosticView;

    open spec fn view(&self) -> CliDiagnosticView {
        match self {
            CliDiagnostic::MissingArgument { argument, subcommand } => {
                CliDiagnosticView::MissingArgument { argument: argument@, subcommand: subcommand@ }
            },
            CliDiagnostic::NoFilesProcessed => CliDiagnosticView::NoFilesProcessed,
            CliDiagnostic::ApplyWarnings { category } => CliDiagnosticView::ApplyWarnings {
                category: category@,
            },
            CliDiagnostic::CheckWarnings { category } => CliDiagnosticView::CheckWarnings {
                category: category@,
            },
            CliDiagnostic::ApplyError { category } => CliDiagnosticView::ApplyError {
                category: category@,
            },
            CliDiagnostic::CheckError { category } => CliDiagnosticView::CheckError {
                category: category@,
            },
        }
    }
}

/// The mathematical value of the way a run ends.
pub open spec fn ending(result: Result<(), CliDiagnostic>) -> Result<(), CliDiagnosticView> {
    match result {
        Ok(()) => Ok(()),
        Err(diagnostic) => Err(diagnostic@),
    }
}

/// Whether a run with the given number of inputs may start: it needs one, unless
/// it takes its file from the standard input.
pub fn check_inputs(execution: &Execution, inputs: usize) -> (result: Result<(), CliDiagnostic>)
    ensures
        ending(result) == if inputs == 0 && !execution.stdin_file {
            Err(
                CliDiagnosticView::MissingArgument {
                    argument: "<INPUT>"@,
                    subcommand: execution.command_name@,
                },
            )
        } else {
            Ok(())
        },
{
    if inputs == 0 && !execution.stdin_file {
        return Err(
            CliDiagnostic::MissingArgument {
                argument: "<INPUT>".to_string(),
                subcommand: execution.command_name.clone(),
            },
        );
    }
    Ok(())
}

/// How many files the workers of a run went through.
#[derive(Clone, Copy, Debug)]
pub struct FileCounts {
    /// How many files were processed.
    pub processed: usize,
    /// How many files could not be processed.
    pub skipped: usize,
}

impl FileCounts {
    /// Every file that was counted as processed had to be skipped.
    pub open spec fn none_processed(self) -> bool {
        self.processed <= self.skipped
    }
}

/// Whether warnings fail the run.
pub open spec fn exits_on_warnings(options: CliOptions, warnings: nat) -> bool {
    warnings > 0 && options.error_on_warnings
}

/// How a run that reports to the terminal ends. That no file was processed
/// comes before everything else; warnings, where they fail the run, come before
/// errors.
pub open spec fn exit_status(
    execution: Execution,
    options: CliOptions,
    files: FileCounts,
    errors: nat,
    warnings: nat,
) -> Result<(), CliDiagnosticView> {
    let category = execution.diagnostic_category@;
    if files.none_processed() && !options.no_errors_on_unmatched {
        Err(CliDiagnosticView::NoFilesProcessed)
    } else if exits_on_warnings(options, warnings) {
        if execution.check_apply {
            Err(CliDiagnosticView::ApplyWarnings { category })
        } else {
            Err(CliDiagnosticView::CheckWarnings { category })
        }
    } else if errors > 0 {
        if execution.check_apply {
            Err(CliDiagnosticView::ApplyError { category })
        } else {
            Err(CliDiagnosticView::CheckError { category })
        }
    } else {
        Ok(())
    }
}

/// Decides how a run that reports to the terminal ends.
pub fn decide_exit(
    execution: &Execution,
    options: CliOptions,
    files: FileCounts,
    errors: usize,
    warnings: usize,
) -> (result: Result<(), CliDiagnostic>)
    ensures
        ending(result) == exit_status(*execution, options, files, errors as nat, warnings as nat),
{
    let should_exit_on_warnings = warnings > 0 && options.error_on_warnings;
    if files.processed.saturating_sub(files.skipped) == 0 && !options.no_errors_on_unmatched {
        Err(CliDiagnostic::NoFilesProcessed)
    } else if errors > 0 || should_exit_on_warnings {
        let category = execution.diagnostic_category.clone();
        if should_exit_on_warnings {
            if execution.check_apply {
                Err(CliDiagnostic::ApplyWarnings { category })
            } else {
                Err(CliDiagnostic::CheckWarnings { category })
            }
        } else if execution.check_apply {
            Err(CliDiagnostic::ApplyError { category })
        } else {
            Err(CliDiagnostic::CheckError { category })
        }
    } else {
        Ok(())
    }
}

/// What is left to do once every file was processed.
#[derive(Debug)]
pub enum Conclusion {
    /// Write the pieces of markup on the console, and end as `result` says.
    Terminal { logs: Vec<Markup>, result: Result<(), CliDiagnostic> },
    /// Write the report on the console. The run then succeeds, unless the report
    /// cannot be written down.
    Serialized { report: Report },
}

/// The mathematical value of a [`Conclusion`].
#[verifier::ext_equal]
pub enum ConclusionView {
    Terminal { logs: Seq<Seq<MarkupNodeView>>, result: Result<(), CliDiagnosticView> },
    Serialized { report: ReportView },
}

impl View for Conclusion {
    type V = ConclusionView;

    open spec fn view(&self) -> ConclusionView {
        match self {
            Conclusion::Terminal { logs, result } => ConclusionView::Terminal {
                logs: logs@.map_values(|markup: Markup| markup@),
                result: ending(*result),
            },
            Conclusion::Serialized { report } => ConclusionView::Serialized { report: report@ },
        }
    }
}

/// The report with the summary that a run of the formatter adds to it.
pub open spec fn summarized(
    report: ReportView,
    mode: TraversalMode,
    processed: usize,
) -> ReportView {
    match mode {
        TraversalMode::Format { write } => ReportView {
            formatter_summary: Some(
                if write {
                    FormatterReportSummary::FilesWritten(processed)
                } else {
                    FormatterReportSummary::FilesCompared(processed)
                },
            ),
            ..report
        },
        _ => report,
    }
}

/// What is left to do once every file was processed: on the terminal, the
/// outcome is printed, then a notice on the skipped files where there are any,
/// and the counts decide how the run ends; otherwise the report is printed.
pub open spec fn concluded(
    execution: Execution,
    options: CliOptions,
    files: FileCounts,
    duration: Elapsed,
    errors: usize,
    warnings: usize,
    report: ReportView,
) -> ConclusionView {
    if execution.report_to_terminal {
        let outcome = crate::output::outcome_line(
            execution.traversal_mode,
            execution.fixes_files,
            CheckResult { count: files.processed, duration, errors },
        );
        ConclusionView::Terminal {
            logs: if files.skipped > 0 {
                seq![outcome, crate::output::skipped_files_notice(files.skipped as nat)]
            } else {
                seq![outcome]
            },
            result: exit_status(execution, options, files, errors as nat, warnings as nat),
        }
    } else {
        ConclusionView::Serialized {
            report: summarized(report, execution.traversal_mode, files.processed),
        }
    }
}

/// Decides what is left to do once every file was processed.
pub fn conclude(
    execution: &Execution,
    options: CliOptions,
    files: FileCounts,
    duration: Elapsed,
    totals: Totals,
) -> (conclusion: Conclusion)
    ensures
        conclusion@ == concluded(
            *execution,
            options,
            files,
            duration,
            totals.errors,
            totals.warnings,
            totals.report@,
        ),
{
    let Totals { errors, warnings, report } = totals;
    if execution.report_to_terminal {
        let result = CheckResult { count: files.processed, duration, errors };
        let outcome = crate::output::outcome_markup(
            execution.traversal_mode,
            execution.fixes_files,
            result,
        );
        let mut logs: Vec<Markup> = Vec::new();
        logs.push(outcome);
        if files.skipped > 0 {
            logs.push(crate::output::skipped_files_markup(files.skipped));
        }
        let result = decide_exit(execution, options, files, errors, warnings);
        let conclusion = Conclusion::Terminal { logs, result };
        assert(conclusion@ =~= concluded(
            *execution,
            options,
            files,
            duration,
            totals.errors,
            totals.warnings,
            totals.report@,
        ));
        conclusion
    } else {
        let mut report = report;
        if let TraversalMode::Format { write } = execution.traversal_mode {
            let summary = if write {
                FormatterReportSummary::FilesWritten(files.processed)
            } else {
                FormatterReportSummary::FilesCompared(files.processed)
            };
            report.set_formatter_summary(summary);
        }
        Conclusion::Serialized { report }
    }
}

} // verus!
