//! What the decisions around the console come to, told from what goes in and
//! what comes out.

use vstd::prelude::*;
use crate::conclusion::{
    CliDiagnostic, CliDiagnosticView, Conclusion, ConclusionView, FileCounts,
};
use crate::diagnostic::{
    Diagnostic, DiffDiagnostic, DiffKind, Printed, PrintedView, Resource, ResourceView, Severity,
};
use crate::execution::{CliOptions, Execution, FeatureName, TraversalMode};
use crate::handling::{
    FileFeatures, FileOutcome, MissingHandler, Outgoing, WorkspaceQuery, WorkspaceQueryView,
};
use crate::markup::{
    Content, ContentView, Elapsed, Markup, MarkupElement, MarkupNode, MarkupNodeView,
};
use crate::message::{Message, MessageView};
use crate::output::{CheckResult, ConsoleLine, ConsoleLineView};
use crate::processor::Totals;
use crate::report::{
    FormatterReportFileDetail, FormatterReportSummary, Report, ReportDiagnostic, ReportDiff,
    ReportErrorKind, ReportKind, ReportKindView,
};

verus! {

/// How a run on the terminal ends, whatever its mode: it succeeds exactly if a
/// file was processed, or none need be, and it found neither an error nor a
/// warning that fails it. That no file was processed comes first, and warnings
/// that fail the run come before errors. A run that applies the fixes of a check
/// fails in a way of its own, and the failure bears the category of the run.
pub open spec fn ends_rightly(
    result: Result<(), CliDiagnosticView>,
    execution: Execution,
    options: CliOptions,
    files: FileCounts,
    errors: usize,
    warnings: usize,
) -> bool {
    let unmatched = files.processed <= files.skipped && !options.no_errors_on_unmatched;
    let warned = warnings > 0 && options.error_on_warnings;
    let category = execution.diagnostic_category@;
    &&& result is Ok <==> !unmatched && !warned && errors == 0
    &&& result is Err && result->Err_0 is NoFilesProcessed <==> unmatched
    &&& !unmatched && warned && execution.check_apply ==> result->Err_0
        == (CliDiagnosticView::ApplyWarnings { category })
    &&& !unmatched && warned && !execution.check_apply ==> result->Err_0
        == (CliDiagnosticView::CheckWarnings { category })
    &&& !unmatched && !warned && errors > 0 && execution.check_apply ==> result->Err_0
        == (CliDiagnosticView::ApplyError { category })
    &&& !unmatched && !warned && errors > 0 && !execution.check_apply ==> result->Err_0
        == (CliDiagnosticView::CheckError { category })
}

/// The value of a result, as it stands.
pub open spec fn result_view(result: Result<(), CliDiagnostic>) -> Result<(), CliDiagnosticView> {
    match result {
        Ok(()) => Ok(()),
        Err(CliDiagnostic::MissingArgument { argument, subcommand }) => Err(
            CliDiagnosticView::MissingArgument { argument: argument@, subcommand: subcommand@ },
        ),
        Err(CliDiagnostic::NoFilesProcessed) => Err(CliDiagnosticView::NoFilesProcessed),
        Err(CliDiagnostic::ApplyWarnings { category }) => Err(
            CliDiagnosticView::ApplyWarnings { category: category@ },
        ),
        Err(CliDiagnostic::CheckWarnings { category }) => Err(
            CliDiagnosticView::CheckWarnings { category: category@ },
        ),
        Err(CliDiagnostic::ApplyError { category }) => Err(
            CliDiagnosticView::ApplyError { category: category@ },
        ),
        Err(CliDiagnostic::CheckError { category }) => Err(
            CliDiagnosticView::CheckError { category: category@ },
        ),
    }
}

/// A run may start exactly if it has an input, or takes its file from the
/// standard input; otherwise the command is told which argument it lacks.
pub proof fn law_inputs(execution: Execution, inputs: usize, result: Result<(), CliDiagnostic>)
    requires
        call_ensures(crate::conclusion::check_inputs, (&execution, inputs), result),
    ensures
        result is Ok <==> inputs > 0 || execution.stdin_file,
        result matches Err(diagnostic) ==> {
            &&& diagnostic matches CliDiagnostic::MissingArgument { argument, subcommand }
            &&& argument@ == "<INPUT>"@
            &&& subcommand@ == execution.command_name@
        },
{
}

/// The decision on how a run ends is the right one.
pub proof fn law_exit(
    execution: Execution,
    options: CliOptions,
    files: FileCounts,
    errors: usize,
    warnings: usize,
    result: Result<(), CliDiagnostic>,
)
    requires
        call_ensures(
            crate::conclusion::decide_exit,
            (&execution, options, files, errors, warnings),
            result,
        ),
    ensures
        ends_rightly(result_view(result), execution, options, files, errors, warnings),
{
}

/// A run on the terminal concludes, in every mode, with the end that its counts
/// call for. It says first what it did, and after that how many files it
/// skipped, exactly if it skipped any.
pub proof fn law_conclusion_on_the_terminal(
    execution: Execution,
    options: CliOptions,
    files: FileCounts,
    duration: Elapsed,
    totals: Totals,
    conclusion: Conclusion,
)
    requires
        call_ensures(
            crate::conclusion::conclude,
            (&execution, options, files, duration, totals),
            conclusion,
        ),
        execution.report_to_terminal,
    ensures
        conclusion matches Conclusion::Terminal { logs, result } && {
            &&& ends_rightly(
                result_view(result),
                execution,
                options,
                files,
                totals.errors,
                totals.warnings,
            )
            &&& logs@.len() == if files.skipped > 0 {
                2int
            } else {
                1int
            }
            &&& says_outcome(
                logs@[0]@,
                execution.traversal_mode,
                execution.fixes_files,
                files.processed as nat,
                duration,
                totals.errors as nat,
            )
            &&& files.skipped > 0 ==> says_files_skipped(logs@[1]@, files.skipped as nat)
        },
{
    if let Conclusion::Terminal { logs, result } = conclusion {
        let written = logs@.map_values(|markup: Markup| markup@);
        assert(conclusion@ == (ConclusionView::Terminal {
            logs: written,
            result: crate::conclusion::ending(result),
        }));
        assert(written.len() == logs@.len());
        assert(written[0] == logs@[0]@);
        if files.skipped > 0 {
            assert(written[1] == logs@[1]@);
        }
        crate::behaviour::law_decimal(files.processed as nat);
        crate::behaviour::law_decimal(files.skipped as nat);
        crate::behaviour::law_decimal(totals.errors as nat);
    }
}

/// How two runs on the terminal conclude does not differ by their modes, by how
/// long they took, or by what they reported, but only by what was found and what
/// was asked for.
pub proof fn law_conclusions_agree(
    one: Execution,
    other: Execution,
    options: CliOptions,
    files: FileCounts,
    one_duration: Elapsed,
    other_duration: Elapsed,
    one_totals: Totals,
    other_totals: Totals,
    one_conclusion: Conclusion,
    other_conclusion: Conclusion,
)
    requires
        call_ensures(
            crate::conclusion::conclude,
            (&one, options, files, one_duration, one_totals),
            one_conclusion,
        ),
        call_ensures(
            crate::conclusion::conclude,
            (&other, options, files, other_duration, other_totals),
            other_conclusion,
        ),
        one.report_to_terminal,
        other.report_to_terminal,
        one.check_apply == other.check_apply,
        one.diagnostic_category@ == other.diagnostic_category@,
        one_totals.errors == other_totals.errors,
        one_totals.warnings == other_totals.warnings,
    ensures
        one_conclusion is Terminal,
        other_conclusion is Terminal,
        result_view(one_conclusion->result) == result_view(other_conclusion->result),
{
    law_conclusion_on_the_terminal(
        one,
        options,
        files,
        one_duration,
        one_totals,
        one_conclusion,
    );
    law_conclusion_on_the_terminal(
        other,
        options,
        files,
        other_duration,
        other_totals,
        other_conclusion,
    );
}

/// Away from the terminal a run concludes with the report that it collected: its
/// entries are all there, in their order. Only a run of the formatter adds a
/// summary, of the files that it wrote or compared.
pub proof fn law_conclusion_away_from_the_terminal(
    execution: Execution,
    options: CliOptions,
    files: FileCounts,
    duration: Elapsed,
    totals: Totals,
    conclusion: Conclusion,
)
    requires
        call_ensures(
            crate::conclusion::conclude,
            (&execution, options, files, duration, totals),
            conclusion,
        ),
        !execution.report_to_terminal,
    ensures
        conclusion matches Conclusion::Serialized { report } && {
            &&& report.details@.len() == totals.report.details@.len()
            &&& forall|i: int|
                0 <= i < report.details@.len() ==> (#[trigger] report.details@[i])@
                    == totals.report.details@[i]@
            &&& report.formatter_summary == match execution.traversal_mode {
                TraversalMode::Format { write } => Some(
                    if write {
                        FormatterReportSummary::FilesWritten(files.processed)
                    } else {
                        FormatterReportSummary::FilesCompared(files.processed)
                    },
                ),
                _ => totals.report.formatter_summary,
            }
        },
{
    if let Conclusion::Serialized { report } = conclusion {
        assert(conclusion@ == (ConclusionView::Serialized { report: report@ }));
        let mine = report.details@.map_values(|entry: ReportKind| entry@);
        let theirs = totals.report.details@.map_values(|entry: ReportKind| entry@);
        assert(mine == theirs);
        assert forall|i: int| 0 <= i < report.details@.len() implies (
        #[trigger] report.details@[i])@ == totals.report.details@[i]@ by {
            assert(mine[i] == theirs[i]);
        }
        assert(mine.len() == theirs.len());
    }
}

/// A text in one style.
pub open spec fn says(node: MarkupNodeView, element: MarkupElement, text: Seq<char>) -> bool {
    node.elements == seq![element] && node.content == ContentView::Text(text)
}

/// A number in one style.
pub open spec fn says_number(node: MarkupNodeView, element: MarkupElement, count: nat) -> bool {
    node.elements == seq![element] && crate::behaviour::shows_number(node.content, count)
}

/// A duration in the style of an information.
pub open spec fn says_duration(node: MarkupNodeView, duration: Elapsed) -> bool {
    node.elements == seq![MarkupElement::Info] && node.content == ContentView::Duration(duration)
}

/// How many files could not be processed.
pub open spec fn says_files_skipped(nodes: Seq<MarkupNodeView>, count: nat) -> bool {
    &&& nodes.len() == 3
    &&& says(nodes[0], MarkupElement::Warn, "Skipped "@)
    &&& says_number(nodes[1], MarkupElement::Warn, count)
    &&& says(nodes[2], MarkupElement::Warn, " file(s)"@)
}

/// What a run did to how many files, and how long it took, at the start of what
/// is said.
pub open spec fn says_files(
    nodes: Seq<MarkupNodeView>,
    verb: Seq<char>,
    count: nat,
    duration: Elapsed,
) -> bool {
    &&& nodes.len() >= 4
    &&& says(nodes[0], MarkupElement::Info, verb)
    &&& says_number(nodes[1], MarkupElement::Info, count)
    &&& says(nodes[2], MarkupElement::Info, " file(s) in "@)
    &&& says_duration(nodes[3], duration)
}

/// What a run did to the configuration file, and how long it took.
pub open spec fn says_configuration(
    nodes: Seq<MarkupNodeView>,
    verb: Seq<char>,
    duration: Elapsed,
) -> bool {
    &&& nodes.len() == 2
    &&& says(nodes[0], MarkupElement::Info, verb)
    &&& says_duration(nodes[1], duration)
}

/// How many files a run checked, and, exactly if it found any, how many errors.
pub open spec fn says_checked(
    nodes: Seq<MarkupNodeView>,
    count: nat,
    duration: Elapsed,
    errors: nat,
) -> bool {
    &&& says_files(nodes, "Checked "@, count, duration)
    &&& if errors > 0 {
        &&& nodes.len() == 8
        &&& nodes[4].elements.len() == 0 && nodes[4].content == ContentView::Text("\n"@)
        &&& says(nodes[5], MarkupElement::Error, "Found "@)
        &&& says_number(nodes[6], MarkupElement::Error, errors)
        &&& says(nodes[7], MarkupElement::Error, " error(s)"@)
    } else {
        nodes.len() == 4
    }
}

/// What a run says it did: which verb stands for its mode, how many files it went
/// through, how long it took and, where it only checks, how many errors it found.
pub open spec fn says_outcome(
    nodes: Seq<MarkupNodeView>,
    mode: TraversalMode,
    fixes_files: bool,
    count: nat,
    duration: Elapsed,
    errors: nat,
) -> bool {
    &&& (mode is Check || mode is Lint) && fixes_files ==> nodes.len() == 4 && says_files(
        nodes,
        "Fixed "@,
        count,
        duration,
    )
    &&& (mode is Check || mode is Lint) && !fixes_files || mode is CI ==> says_checked(
        nodes,
        count,
        duration,
        errors,
    )
    &&& mode == (TraversalMode::Format { write: true }) ==> nodes.len() == 4 && says_files(
        nodes,
        "Formatted "@,
        count,
        duration,
    )
    &&& mode == (TraversalMode::Format { write: false }) ==> nodes.len() == 4 && says_files(
        nodes,
        "Compared "@,
        count,
        duration,
    )
    &&& mode == (TraversalMode::Migrate { write: true }) ==> says_configuration(
        nodes,
        "Migrated your configuration file in "@,
        duration,
    )
    &&& mode == (TraversalMode::Migrate { write: false }) ==> says_configuration(
        nodes,
        "Checked your configuration file in "@,
        duration,
    )
}

/// What is written of the outcome of a run, and of the files, fixes and
/// diagnostics that it left out, is what there is to say.
pub proof fn law_outcome(
    mode: TraversalMode,
    fixes_files: bool,
    result: CheckResult,
    skipped: usize,
    left_out: u64,
    markup: Markup,
)
    ensures
        call_ensures(crate::output::outcome_markup, (mode, fixes_files, result), markup)
            ==> says_outcome(
            markup@,
            mode,
            fixes_files,
            result.count as nat,
            result.duration,
            result.errors as nat,
        ),
        call_ensures(CheckResult::fmt, (&result,), markup) ==> says_checked(
            markup@,
            result.count as nat,
            result.duration,
            result.errors as nat,
        ),
        call_ensures(crate::output::skipped_files_markup, (skipped,), markup)
            ==> says_files_skipped(markup@, skipped as nat),
        call_ensures(crate::output::skipped_fixes_markup, (left_out,), markup)
            ==> crate::behaviour::says_fixes_skipped(markup@, left_out as nat),
        call_ensures(crate::output::not_shown_markup, (left_out,), markup)
            ==> crate::behaviour::says_not_shown(markup@, left_out as nat),
{
    crate::behaviour::law_decimal(result.count as nat);
    crate::behaviour::law_decimal(result.errors as nat);
    crate::behaviour::law_decimal(skipped as nat);
    crate::behaviour::law_decimal(left_out as nat);
}

/// What a piece of markup says grows by one node at a time, at its end.
pub proof fn law_markup(
    empty: Markup,
    node: MarkupNode,
    element: MarkupElement,
    text: &str,
    count: u64,
    duration: Elapsed,
)
    ensures
        call_ensures(Markup::empty, (), empty) ==> empty.nodes@.len() == 0,
        forall|markup: &mut Markup|
            #![trigger call_ensures(Markup::push, (markup, node), ())]
            call_ensures(Markup::push, (markup, node), ()) ==> final(markup)@ == (*markup)@.push(
                node@,
            ),
        forall|markup: &mut Markup|
            #![trigger call_ensures(Markup::push_text, (markup, element, text), ())]
            call_ensures(Markup::push_text, (markup, element, text), ()) ==> {
                &&& final(markup)@.len() == (*markup)@.len() + 1
                &&& final(markup)@.drop_last() == (*markup)@
                &&& says(final(markup)@.last(), element, text@)
            },
        forall|markup: &mut Markup|
            #![trigger call_ensures(Markup::push_count, (markup, element, count), ())]
            call_ensures(Markup::push_count, (markup, element, count), ()) ==> {
                &&& final(markup)@.len() == (*markup)@.len() + 1
                &&& final(markup)@.drop_last() == (*markup)@
                &&& says_number(final(markup)@.last(), element, count as nat)
            },
        forall|markup: &mut Markup|
            #![trigger call_ensures(Markup::push_duration, (markup, element, duration), ())]
            call_ensures(Markup::push_duration, (markup, element, duration), ()) ==> {
                &&& final(markup)@.len() == (*markup)@.len() + 1
                &&& final(markup)@.drop_last() == (*markup)@
                &&& final(markup)@.last().elements == seq![element]
                &&& final(markup)@.last().content == ContentView::Duration(duration)
            },
{
    crate::behaviour::law_decimal(count as nat);
    if call_ensures(Markup::empty, (), empty) {
        assert(empty.nodes@.map_values(|node: MarkupNode| node@).len() == empty.nodes@.len());
    }
    assert forall|markup: &mut Markup|
        #![trigger call_ensures(Markup::push_text, (markup, element, text), ())]
        call_ensures(Markup::push_text, (markup, element, text), ()) implies
        final(markup)@.drop_last() == (*markup)@ by {
        assert(final(markup)@.drop_last() =~= (*markup)@);
    }
    assert forall|markup: &mut Markup|
        #![trigger call_ensures(Markup::push_count, (markup, element, count), ())]
        call_ensures(Markup::push_count, (markup, element, count), ()) implies
        final(markup)@.drop_last() == (*markup)@ by {
        assert(final(markup)@.drop_last() =~= (*markup)@);
    }
    assert forall|markup: &mut Markup|
        #![trigger call_ensures(Markup::push_duration, (markup, element, duration), ())]
        call_ensures(Markup::push_duration, (markup, element, duration), ()) implies
        final(markup)@.drop_last() == (*markup)@ by {
        assert(final(markup)@.drop_last() =~= (*markup)@);
    }
}

/// Which files a traversal handles. A format handles a file exactly if the
/// workspace can format it, whether or not it writes; a lint exactly if it can
/// lint it; a check, also in continuous integration, exactly if it can do any of
/// the three things; a migration always. Nothing is then left to report. Where
/// the workspace has no answer, the file is not handled, in any mode, and its
/// error is reported under the path of the file.
pub proof fn law_files<W>(
    mode: TraversalMode,
    features: Result<FileFeatures, W>,
    path: String,
    decision: (bool, Option<MissingHandler<W>>),
)
    requires
        call_ensures(crate::handling::can_handle_file::<W>, (mode, features, path), decision),
    ensures
        features matches Ok(supported) ==> {
            &&& decision.1 is None
            &&& mode is Format ==> decision.0 == supported.format
            &&& mode is Lint ==> decision.0 == supported.lint
            &&& mode is Check || mode is CI ==> decision.0 == (supported.lint || supported.format
                || supported.organize_imports)
            &&& mode is Migrate ==> decision.0
        },
        features matches Err(error) ==> {
            &&& !decision.0
            &&& decision.1 matches Some(missing)
            &&& missing.error == error
            &&& missing.category@ == "files/missingHandler"@
            &&& missing.file_path@ == path@
        },
{
}

/// Two formats, one that writes and one that compares, handle the same files.
pub proof fn law_formats_handle_the_same_files<W>(
    features: Result<FileFeatures, W>,
    path: String,
    written: (bool, Option<MissingHandler<W>>),
    compared: (bool, Option<MissingHandler<W>>),
)
    requires
        call_ensures(
            crate::handling::can_handle_file::<W>,
            (TraversalMode::Format { write: true }, features, path),
            written,
        ),
        call_ensures(
            crate::handling::can_handle_file::<W>,
            (TraversalMode::Format { write: false }, features, path),
            compared,
        ),
    ensures
        written.0 == compared.0,
{
}

/// What the workspace is asked: of a directory, whether it is ignored for the
/// feature of the run; of a file, which of the three features it supports. A
/// directory is entered unless it is ignored, and also where the workspace
/// fails, whose error is then handed back. A feature is supported exactly if the
/// workspace says so of that feature.
pub proof fn law_queries<W>(
    is_dir: bool,
    feature: FeatureName,
    query: WorkspaceQuery,
    ignored: Result<bool, W>,
    decision: (bool, Option<W>),
    features: FileFeatures,
    supported: bool,
    error: W,
    path: String,
    missing: MissingHandler<W>,
)
    ensures
        call_ensures(crate::handling::query_for, (is_dir, feature), query) ==> {
            &&& is_dir ==> query == (WorkspaceQuery::IsPathIgnored { feature })
            &&& !is_dir ==> query is FileFeatures && query->features@ == seq![
                FeatureName::Lint,
                FeatureName::Format,
                FeatureName::OrganizeImports,
            ]
        },
        call_ensures(crate::handling::can_handle_directory::<W>, (ignored,), decision) ==> {
            &&& decision.0 <==> ignored != Ok::<bool, W>(true)
            &&& ignored is Ok ==> decision.1 is None
            &&& ignored matches Err(error) ==> decision.1 == Some(error)
        },
        call_ensures(FileFeatures::supports_for, (&features, &feature), supported) ==> {
            &&& feature is Lint ==> supported == features.lint
            &&& feature is Format ==> supported == features.format
            &&& feature is OrganizeImports ==> supported == features.organize_imports
        },
        call_ensures(crate::handling::miss_handler_err::<W>, (error, path), missing) ==> {
            &&& missing.error == error
            &&& missing.category@ == "files/missingHandler"@
            &&& missing.file_path@ == path@
        },
{
    if call_ensures(crate::handling::query_for, (is_dir, feature), query) {
        assert(query matches WorkspaceQuery::FileFeatures { features } ==> query@
            == (WorkspaceQueryView::FileFeatures { features: features@ }));
    }
}

/// What becomes of a file: it counts as skipped exactly if it could not be
/// processed. What there is to say about it is sent as it is, and nothing is sent
/// where there is nothing to say. A panic is sent with the path of the file, and
/// with the text of the panic where it has one.
pub proof fn law_handled_files<E>(
    outcome: FileOutcome<E>,
    path: String,
    handled: (bool, Outgoing<E>),
)
    requires
        call_ensures(crate::handling::handle_file::<E>, (outcome, path), handled),
    ensures
        handled.0 <==> outcome is Failed,
        outcome is Success || outcome is Ignored ==> handled.1 is Nothing,
        outcome matches FileOutcome::Message(message) ==> {
            &&& handled.1 matches Outgoing::Message(sent)
            &&& sent@ == message@
        },
        outcome matches FileOutcome::Failed(message) ==> {
            &&& handled.1 matches Outgoing::Message(sent)
            &&& sent@ == message@
        },
        outcome matches FileOutcome::Panicked(text) ==> {
            &&& handled.1 matches Outgoing::Panic { message, file_path }
            &&& file_path@ == path@
            &&& says_panic(message@, text)
        },
{
}

/// The message of a panic ends in its text, where it has one.
pub open spec fn says_panic(message: Seq<char>, text: Option<String>) -> bool {
    match text {
        Some(text) => message == "processing panicked: "@ + text@,
        None => message == "processing panicked"@,
    }
}

/// The message of a panic is written as it should be.
pub proof fn law_panics(text: Option<String>, message: String)
    requires
        call_ensures(crate::handling::panic_message, (text,), message),
    ensures
        says_panic(message@, text),
{
}

/// Entries of the report are filed under the file they are about, with the code
/// that they are given, and keep what is said of the file.
pub proof fn law_entries<E>(
    diagnostic: Diagnostic<E>,
    code: Option<String>,
    name: String,
    old_content: String,
    new: String,
    entry: ReportKind,
)
    ensures
        call_ensures(crate::report::error_entry::<E>, (&diagnostic, code), entry) ==> entry@
            == (ReportKindView::Diagnostic {
            file: match diagnostic.resource {
                Some(Resource::File(path)) => path@,
                _ => "<unknown>"@,
            },
            code: text_of(code),
            title: diagnostic.description@,
            severity: diagnostic.severity,
        }),
        call_ensures(crate::report::listed_entry::<E>, (&name, &diagnostic, code), entry)
            ==> entry@ == (ReportKindView::Diagnostic {
            file: name@,
            code: text_of(code),
            title: "test here"@,
            severity: diagnostic.severity,
        }),
        call_ensures(crate::report::diff_entry, (name, old_content, new), entry) ==> entry@
            == (ReportKindView::Diff {
            file: name@,
            before: old_content@,
            after: new@,
            severity: Severity::Error,
        }),
{
}

/// The code of a diagnostic is what the registry reads in the name of its
/// category, which is then that name; a diagnostic without a category has none.
/// The file of a diagnostic is the one it is about, and nothing else is a file.
pub proof fn law_diagnostics<E>(
    diagnostic: Diagnostic<E>,
    code: Option<String>,
    file: Option<&String>,
)
    ensures
        call_ensures(Diagnostic::<E>::code, (&diagnostic,), code) ==> {
            &&& text_of(code) == match diagnostic.category {
                Some(name) => crate::report::parsed_category(name@),
                None => None,
            }
            &&& code matches Some(found) ==> text_of(diagnostic.category) == Some(found@)
        },
        call_ensures(Diagnostic::<E>::file, (&diagnostic,), file) ==> match diagnostic.resource {
            Some(Resource::File(path)) => file matches Some(found) && found@ == path@,
            _ => file is None,
        },
{
}

/// The form in which a difference is printed tells its kind, and whether the run
/// is one of continuous integration.
pub proof fn law_forms(ci: bool, kind: DiffKind, form: DiffDiagnostic)
    requires
        call_ensures(DiffDiagnostic::select, (ci, kind), form),
    ensures
        ci <==> form is CIFormat || form is CIOrganizeImports,
        kind is Format <==> form is CIFormat || form is Format,
{
}

/// A traversal runs in continuous integration, or runs the checks, exactly in the
/// mode of that name.
pub proof fn law_modes(mode: TraversalMode, yes: bool)
    ensures
        call_ensures(TraversalMode::is_ci, (&mode,), yes) ==> (yes <==> mode is CI),
        call_ensures(TraversalMode::is_check, (&mode,), yes) ==> (yes <==> mode is Check),
{
}

/// Diagnostics of a severity are counted one by one: an empty list has none, and
/// one more diagnostic raises the count by one exactly if it has the severity.
pub proof fn law_severities_are_counted_one_by_one<E>(
    diagnostics: Vec<Diagnostic<E>>,
    more: Vec<Diagnostic<E>>,
    next: Diagnostic<E>,
    severity: Severity,
    counted: usize,
    counted_more: usize,
)
    requires
        call_ensures(crate::finding::count_severity::<E>, (&diagnostics, severity), counted),
        call_ensures(crate::finding::count_severity::<E>, (&more, severity), counted_more),
        more@ == diagnostics@.push(next),
    ensures
        counted_more == counted + if next.severity == severity {
            1int
        } else {
            0int
        },
        diagnostics@.len() == 0 ==> counted == 0,
{
    let views = crate::message::views(diagnostics@);
    assert(crate::message::views(more@) =~= views.push(next@));
    crate::finding::lemma_count_push(views, next@, severity);
    if diagnostics@.len() == 0 {
        reveal(Seq::filter);
    }
}

/// A new report is empty; an entry is added at its end, and the summary of the
/// formatter is set, with nothing else changed.
pub proof fn law_reports(report: Report, entry: ReportKind, summary: FormatterReportSummary)
    ensures
        call_ensures(Report::new, (), report) ==> report.details@.len() == 0
            && report.formatter_summary is None,
        forall|report: &mut Report|
            #![trigger call_ensures(Report::push_detail_report, (report, entry), ())]
            call_ensures(Report::push_detail_report, (report, entry), ()) ==> {
                &&& final(report)@.details == (*report)@.details.push(entry@)
                &&& final(report)@.formatter_summary == (*report)@.formatter_summary
            },
        forall|report: &mut Report|
            #![trigger call_ensures(Report::set_formatter_summary, (report, summary), ())]
            call_ensures(Report::set_formatter_summary, (report, summary), ()) ==> {
                &&& final(report)@.details == (*report)@.details
                &&& final(report)@.formatter_summary == Some(summary)
            },
{
    if call_ensures(Report::new, (), report) {
        assert(report.details@.map_values(|entry: ReportKind| entry@).len()
            == report.details@.len());
    }
}

/// The characters of a text that may be missing.
pub open spec fn text_of(text: Option<String>) -> Option<Seq<char>> {
    match text {
        Some(text) => Some(text@),
        None => None,
    }
}

/// The value of a diagnostic holds everything that is in it.
pub proof fn law_diagnostic_values<E>(diagnostic: Diagnostic<E>)
    ensures
        diagnostic@.error == diagnostic.error,
        diagnostic@.severity == diagnostic.severity,
        diagnostic@.category == text_of(diagnostic.category),
        diagnostic@.description == diagnostic.description@,
        diagnostic@.resource == match diagnostic.resource {
            Some(Resource::File(path)) => Some(ResourceView::File(path@)),
            Some(Resource::Argv) => Some(ResourceView::Argv),
            Some(Resource::Memory) => Some(ResourceView::Memory),
            None => None,
        },
{
}

/// The value of a message holds everything that is in it.
pub proof fn law_message_values<E>(message: Message<E>)
    ensures
        message matches Message::SkippedFixes { skipped_suggested_fixes } ==> message@
            == (MessageView::<E>::SkippedFixes {
            skipped_suggested_fixes: skipped_suggested_fixes as nat,
        }),
        message matches Message::ApplyError(error) ==> message@ == MessageView::ApplyError(error),
        message matches Message::Error(diagnostic) ==> message@ == MessageView::Error(diagnostic@),
        message matches Message::Diagnostics { name, content, diagnostics, skipped_diagnostics }
            ==> {
            &&& message@ is Diagnostics
            &&& message@->name == name@
            &&& message@->content == content@
            &&& message@->diagnostics.len() == diagnostics@.len()
            &&& forall|i: int|
                0 <= i < diagnostics@.len() ==> #[trigger] message@->diagnostics[i]
                    == diagnostics@[i]@
            &&& message@->skipped_diagnostics == skipped_diagnostics
        },
        message matches Message::Diff { file_name, old: old_content, new, diff_kind } ==> message@
            == (MessageView::<E>::Diff {
            file_name: file_name@,
            old: old_content@,
            new: new@,
            diff_kind,
        }),
{
}

/// The value of what is printed holds everything that is in it.
pub proof fn law_printed_values<E>(printed: Printed<E>, line: ConsoleLine<E>)
    ensures
        printed matches Printed::Failure(error) ==> printed@ == PrintedView::Failure(error),
        printed matches Printed::Diagnostic { diagnostic, file_path, source_code } ==> printed@
            == (PrintedView::Diagnostic {
            diagnostic: diagnostic@,
            file_path: text_of(file_path),
            source_code: text_of(source_code),
        }),
        printed matches Printed::Diff { form, file_name, old: old_content, new } ==> printed@
            == (PrintedView::<E>::Diff {
            form,
            file_name: file_name@,
            old: old_content@,
            new: new@,
        }),
        line matches ConsoleLine::Error { diagnostic, verbose } ==> line@
            == (ConsoleLineView::Error { diagnostic: diagnostic@, verbose }),
        line matches ConsoleLine::Log(markup) ==> line@ == ConsoleLineView::<E>::Log(markup@),
{
}

/// The value of a piece of markup holds everything that is in it.
pub proof fn law_markup_values(markup: Markup, node: MarkupNode)
    ensures
        markup@.len() == markup.nodes@.len(),
        forall|i: int| 0 <= i < markup@.len() ==> #[trigger] markup@[i] == markup.nodes@[i]@,
        node@.elements == node.elements@,
        node.content matches Content::Text(text) ==> node@.content == ContentView::Text(text@),
        node.content matches Content::Duration(elapsed) ==> node@.content
            == ContentView::Duration(elapsed),
{
}

/// The value of a report, and of an entry in it, holds everything that is in it.
pub proof fn law_report_values(report: Report, entry: ReportKind)
    ensures
        report@.details.len() == report.details@.len(),
        forall|i: int|
            0 <= i < report.details@.len() ==> #[trigger] report@.details[i]
                == report.details@[i]@,
        report@.formatter_summary == report.formatter_summary,
        entry matches ReportKind::Formatter(
            file,
            FormatterReportFileDetail { formatted_content },
        ) ==> entry@ == (ReportKindView::Formatter {
            file: file@,
            formatted_content: text_of(formatted_content),
        }),
        entry matches ReportKind::Error(
            file,
            ReportErrorKind::Diagnostic(ReportDiagnostic { code, title, severity }),
        ) ==> entry@ == (ReportKindView::Diagnostic {
            file: file@,
            code: text_of(code),
            title: title@,
            severity,
        }),
        entry matches ReportKind::Error(
            file,
            ReportErrorKind::Diff(ReportDiff { before, after, severity }),
        ) ==> entry@ == (ReportKindView::Diff {
            file: file@,
            before: before@,
            after: after@,
            severity,
        }),
{
}

} // verus!
