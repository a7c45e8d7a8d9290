//! What each operation of the console comes to, told from what goes in and what
//! comes out.

use vstd::prelude::*;
use crate::diagnostic::{
    DiagnosticView, DiffDiagnostic, DiffKind, PrintedView, ResourceView, Severity,
};
use crate::execution::Execution;
use crate::markup::{ContentView, MarkupElement, MarkupNodeView};
use crate::message::{Message, MessageView};
use crate::output::{ConsoleLine, ConsoleLineView};
use crate::processor::{Awaited, Event, EventView, MessageProcessor, ProcessorView, Totals};
use crate::report::{ReportKind, ReportKindView};

verus! {

/// What no message and no path changes.
pub open spec fn same_run<E>(before: ProcessorView<E>, after: ProcessorView<E>) -> bool {
    &&& after.mode == before.mode
    &&& after.report_to_terminal == before.report_to_terminal
    &&& after.max_diagnostics == before.max_diagnostics
    &&& after.messages_open == before.messages_open
    &&& after.reports_open == before.reports_open
}

/// One finding takes a place for printing, if one is left, or is counted as not
/// printed.
pub open spec fn one_finding<E>(before: ProcessorView<E>, after: ProcessorView<E>) -> bool {
    if before.printed < before.max_diagnostics {
        after.printed == before.printed + 1 && after.not_printed == before.not_printed
    } else {
        after.printed == before.printed && after.not_printed == before.not_printed + 1
    }
}

/// On the terminal, one more item is printed where a place is left for it;
/// elsewhere none is.
pub open spec fn one_printed<E>(
    before: ProcessorView<E>,
    after: ProcessorView<E>,
    item: PrintedView<E>,
) -> bool {
    after.to_print == if before.report_to_terminal && before.printed < before.max_diagnostics {
        before.to_print.push(item)
    } else {
        before.to_print
    }
}

/// Away from the terminal, one more entry is in the report, at its end; on the
/// terminal none is.
pub open spec fn one_entered<E>(
    before: ProcessorView<E>,
    after: ProcessorView<E>,
    entry: ReportKindView,
) -> bool {
    &&& after.report.details == if before.report_to_terminal {
        before.report.details
    } else {
        before.report.details.push(entry)
    }
    &&& after.report.formatter_summary == before.report.formatter_summary
}

/// The code of a diagnostic in the report is what the registry reads in the name
/// of its category; without a category there is none.
pub open spec fn code_of<E>(diagnostic: DiagnosticView<E>) -> Option<Seq<char>> {
    match diagnostic.category {
        Some(name) => crate::report::parsed_category(name),
        None => None,
    }
}

/// What a diagnostic that was sent on its own comes to, with the path that is
/// printed with it. It counts as an error exactly if it is one and is printed,
/// and as a warning exactly if it is one. It is printed without source code. Its
/// entry in the report is under the file that it is about, whatever is printed.
pub open spec fn alone<E>(
    before: ProcessorView<E>,
    after: ProcessorView<E>,
    diagnostic: DiagnosticView<E>,
    file_path: Option<Seq<char>>,
) -> bool {
    &&& same_run(before, after)
    &&& one_finding(before, after)
    &&& one_printed(
        before,
        after,
        PrintedView::Diagnostic { diagnostic, file_path, source_code: None },
    )
    &&& one_entered(
        before,
        after,
        ReportKindView::Diagnostic {
            file: match diagnostic.resource {
                Some(ResourceView::File(path)) => path,
                _ => "<unknown>"@,
            },
            code: code_of(diagnostic),
            title: diagnostic.description,
            severity: diagnostic.severity,
        },
    )
    &&& after.errors == before.errors + if diagnostic.severity == Severity::Error
        && before.report_to_terminal && before.printed < before.max_diagnostics {
        1int
    } else {
        0int
    }
    &&& after.warnings == before.warnings + if diagnostic.severity == Severity::Warning {
        1int
    } else {
        0int
    }
    &&& after.skipped_fixes == before.skipped_fixes
}

/// The diagnostics of a file raise the counts one by one, in every mode and
/// whether or not they are printed: an empty list raises none, and one more
/// diagnostic raises the errors by one exactly if it is an error, and the
/// warnings by one exactly if it is a warning.
pub proof fn law_listed_diagnostics_are_counted_one_by_one<E>(
    state: ProcessorView<E>,
    name: Seq<char>,
    content: Seq<char>,
    diagnostics: Seq<DiagnosticView<E>>,
    next: DiagnosticView<E>,
    skipped_diagnostics: nat,
)
    requires
        state.printed <= state.max_diagnostics,
    ensures
        ({
            let without = state.advanced(
                EventView::Message(
                    MessageView::Diagnostics { name, content, diagnostics, skipped_diagnostics },
                ),
            );
            let with_next = state.advanced(
                EventView::Message(
                    MessageView::Diagnostics {
                        name,
                        content,
                        diagnostics: diagnostics.push(next),
                        skipped_diagnostics,
                    },
                ),
            );
            &&& with_next.errors == without.errors + if next.severity == Severity::Error {
                1int
            } else {
                0int
            }
            &&& with_next.warnings == without.warnings + if next.severity == Severity::Warning {
                1int
            } else {
                0int
            }
            &&& diagnostics.len() == 0 ==> without.errors == state.errors && without.warnings
                == state.warnings
        }),
{
    let counted = state.counted(
        MessageView::Diagnostics { name, content, diagnostics, skipped_diagnostics },
    );
    let counted_next = state.counted(
        MessageView::Diagnostics {
            name,
            content,
            diagnostics: diagnostics.push(next),
            skipped_diagnostics,
        },
    );
    crate::finding::lemma_count_push(diagnostics, next, Severity::Error);
    crate::finding::lemma_count_push(diagnostics, next, Severity::Warning);
    crate::processor::lemma_listed_shown(counted, name, content, diagnostics);
    crate::processor::lemma_listed_shown(counted_next, name, content, diagnostics.push(next));
    crate::processor::lemma_nothing_offered(counted);
    crate::processor::lemma_nothing_offered(counted_next);
    if diagnostics.len() == 0 {
        reveal(Seq::filter);
    }
}

/// Every diagnostic of a file that is printed carries the name and the content
/// of that file, in the order of the list. In continuous integration all of them
/// are printed; elsewhere the first ones, as far as places are left, and only on
/// the terminal. What was to be printed before stays as it was.
pub proof fn law_listed_diagnostics_are_printed_with_their_file<E>(
    state: ProcessorView<E>,
    name: Seq<char>,
    content: Seq<char>,
    diagnostics: Seq<DiagnosticView<E>>,
    skipped_diagnostics: nat,
)
    requires
        state.printed <= state.max_diagnostics,
    ensures
        ({
            let after = state.advanced(
                EventView::Message(
                    MessageView::Diagnostics { name, content, diagnostics, skipped_diagnostics },
                ),
            );
            let all = diagnostics.len() as int;
            let room = state.max_diagnostics - state.printed;
            let placed = if all <= room {
                all
            } else {
                room
            };
            let old_len = state.to_print.len() as int;
            &&& same_run(state, after)
            &&& after.paths == state.paths
            &&& after.pending == state.pending
            &&& after.skipped_fixes == state.skipped_fixes
            &&& after.to_print.len() == old_len + if state.mode is CI {
                all
            } else if state.report_to_terminal {
                placed
            } else {
                0
            }
            &&& forall|i: int| 0 <= i < old_len ==> after.to_print[i] == state.to_print[i]
            &&& forall|i: int|
                old_len <= i < after.to_print.len() ==> #[trigger] after.to_print[i]
                    == (PrintedView::Diagnostic {
                    diagnostic: diagnostics[i - old_len],
                    file_path: Some(name),
                    source_code: Some(content),
                })
            &&& after.printed == state.printed + if state.mode is CI {
                0
            } else {
                placed
            }
            &&& after.not_printed == state.not_printed + skipped_diagnostics + if state.mode is CI {
                0
            } else {
                all - placed
            }
        }),
{
    let message = MessageView::Diagnostics { name, content, diagnostics, skipped_diagnostics };
    let counted = state.counted(message);
    crate::processor::lemma_nothing_offered(counted);
    assert(state.to_print + Seq::<PrintedView<E>>::empty() =~= state.to_print);
}

/// Away from the terminal and outside continuous integration, every diagnostic of
/// a file is in the report under the name of the file, in the order of the list,
/// whatever the limit. Otherwise the report stays as it was.
pub proof fn law_listed_diagnostics_are_reported<E>(
    state: ProcessorView<E>,
    name: Seq<char>,
    content: Seq<char>,
    diagnostics: Seq<DiagnosticView<E>>,
    skipped_diagnostics: nat,
)
    requires
        state.printed <= state.max_diagnostics,
    ensures
        ({
            let after = state.advanced(
                EventView::Message(
                    MessageView::Diagnostics { name, content, diagnostics, skipped_diagnostics },
                ),
            );
            let old_len = state.report.details.len() as int;
            &&& after.report.formatter_summary == state.report.formatter_summary
            &&& after.report.details.len() == old_len + if state.report_to_terminal
                || state.mode is CI {
                0
            } else {
                diagnostics.len() as int
            }
            &&& forall|i: int|
                0 <= i < old_len ==> after.report.details[i] == state.report.details[i]
            &&& forall|i: int|
                old_len <= i < after.report.details.len() ==> #[trigger] after.report.details[i]
                    == (ReportKindView::Diagnostic {
                    file: name,
                    code: code_of(diagnostics[i - old_len]),
                    title: "test here"@,
                    severity: diagnostics[i - old_len].severity,
                })
        }),
{
    let message = MessageView::Diagnostics { name, content, diagnostics, skipped_diagnostics };
    crate::processor::lemma_nothing_offered(state.counted(message));
    lemma_listed_entries(name, content, diagnostics);
}

proof fn lemma_listed_entries<E>(
    name: Seq<char>,
    content: Seq<char>,
    diagnostics: Seq<DiagnosticView<E>>,
)
    ensures
        ({
            let entries = crate::finding::all_entries(
                crate::finding::listed(name, content, diagnostics),
            );
            &&& entries.len() == diagnostics.len()
            &&& forall|i: int|
                0 <= i < entries.len() ==> #[trigger] entries[i] == (ReportKindView::Diagnostic {
                    file: name,
                    code: code_of(diagnostics[i]),
                    title: "test here"@,
                    severity: diagnostics[i].severity,
                })
        }),
    decreases diagnostics.len(),
{
    if diagnostics.len() > 0 {
        lemma_listed_entries(name, content, diagnostics.drop_last());
        assert(crate::finding::listed(name, content, diagnostics).drop_last()
            =~= crate::finding::listed(name, content, diagnostics.drop_last()));
    }
}

/// An error met while applying fixes is one error, wherever the run reports to
/// and whether or not it is printed, and has no entry in the report.
pub proof fn law_failures<E>(state: ProcessorView<E>, error: E)
    requires
        state.printed <= state.max_diagnostics,
    ensures
        ({
            let after = state.advanced(EventView::Message(MessageView::ApplyError(error)));
            &&& same_run(state, after)
            &&& one_finding(state, after)
            &&& one_printed(state, after, PrintedView::Failure(error))
            &&& after.errors == state.errors + 1
            &&& after.warnings == state.warnings
            &&& after.skipped_fixes == state.skipped_fixes
            &&& after.report == state.report
            &&& after.paths == state.paths
            &&& after.pending == state.pending
        }),
{
    let message = MessageView::<E>::ApplyError(error);
    let finding = crate::finding::Finding::Failure(error);
    lemma_one(state, message, true, finding);
    assert(state.report.details + Seq::<ReportKindView>::empty() =~= state.report.details);
}

/// A difference is an error in continuous integration and nowhere else. It is
/// printed in the form of its kind and of the mode, and has an entry in the
/// report with both contents.
pub proof fn law_differences<E>(
    state: ProcessorView<E>,
    file_name: Seq<char>,
    old_content: Seq<char>,
    new: Seq<char>,
    diff_kind: DiffKind,
)
    requires
        state.printed <= state.max_diagnostics,
    ensures
        ({
            let after = state.advanced(
                EventView::Message(
                    MessageView::Diff { file_name, old: old_content, new, diff_kind },
                ),
            );
            let form = if state.mode is CI {
                if diff_kind is Format {
                    DiffDiagnostic::CIFormat
                } else {
                    DiffDiagnostic::CIOrganizeImports
                }
            } else if diff_kind is Format {
                DiffDiagnostic::Format
            } else {
                DiffDiagnostic::OrganizeImports
            };
            &&& same_run(state, after)
            &&& one_finding(state, after)
            &&& one_printed(
                state,
                after,
                PrintedView::Diff { form, file_name, old: old_content, new },
            )
            &&& one_entered(
                state,
                after,
                ReportKindView::Diff {
                    file: file_name,
                    before: old_content,
                    after: new,
                    severity: Severity::Error,
                },
            )
            &&& after.errors == state.errors + if state.mode is CI {
                1int
            } else {
                0int
            }
            &&& after.warnings == state.warnings
            &&& after.skipped_fixes == state.skipped_fixes
            &&& after.paths == state.paths
            &&& after.pending == state.pending
        }),
{
    let message = MessageView::<E>::Diff { file_name, old: old_content, new, diff_kind };
    let finding = crate::finding::Finding::Diff { file_name, old: old_content, new, diff_kind };
    lemma_one(state, message, true, finding);
    assert(state.report.details + finding.entries() =~= state.report.details.push(
        finding.entries()[0],
    ));
}

/// Fixes that were not applied are added up, and change nothing else.
pub proof fn law_skipped_fixes<E>(state: ProcessorView<E>, skipped_suggested_fixes: nat)
    requires
        state.printed <= state.max_diagnostics,
    ensures
        state.advanced(
            EventView::Message(MessageView::SkippedFixes { skipped_suggested_fixes }),
        ) == (ProcessorView {
            skipped_fixes: state.skipped_fixes + skipped_suggested_fixes,
            ..state
        }),
{
    let message = MessageView::<E>::SkippedFixes { skipped_suggested_fixes };
    crate::processor::lemma_nothing_offered(state.counted(message));
    assert(state.counted(message) =~= (ProcessorView {
        skipped_fixes: state.skipped_fixes + skipped_suggested_fixes,
        ..state
    }));
}

/// A diagnostic that was sent on its own is settled at once, with the path of the
/// file it is about, unless that path is not known: it then waits, and nothing
/// else changes.
pub proof fn law_diagnostics_on_their_own<E>(
    state: ProcessorView<E>,
    diagnostic: DiagnosticView<E>,
)
    requires
        state.printed <= state.max_diagnostics,
    ensures
        ({
            let after = state.advanced(EventView::Message(MessageView::Error(diagnostic)));
            match diagnostic.resource {
                Some(ResourceView::File(path)) => if state.paths.contains(path) {
                    &&& alone(state, after, diagnostic, Some(path))
                    &&& after.paths == state.paths
                    &&& after.pending == state.pending
                } else {
                    after == (ProcessorView { pending: Some(diagnostic), ..state })
                },
                _ => {
                    &&& alone(state, after, diagnostic, None)
                    &&& after.paths == state.paths
                    &&& after.pending == state.pending
                },
            }
        }),
{
    lemma_alone(state, diagnostic, true);
}

/// A path that comes is known from there on. The one that is waited for settles
/// the diagnostic that waits, with that path; any other changes nothing else.
/// Where the channel closes, the diagnostic is settled without a path.
pub proof fn law_paths<E>(state: ProcessorView<E>, path: Seq<char>)
    requires
        state.printed <= state.max_diagnostics,
        state.pending is Some,
    ensures
        ({
            let diagnostic = state.pending->0;
            let after = state.advanced(EventView::Path(Some(path)));
            let closed = state.advanced(EventView::Path(None));
            &&& after.paths == state.paths.insert(path)
            &&& if diagnostic.resource == Some(ResourceView::File(path)) {
                alone(state, after, diagnostic, Some(path)) && after.pending is None
            } else {
                after == (ProcessorView { paths: state.paths.insert(path), ..state })
            }
            &&& alone(state, closed, diagnostic, None)
            &&& closed.paths == state.paths
            &&& closed.pending is None
        }),
{
    let found = ProcessorView { pending: None, paths: state.paths.insert(path), ..state };
    let closed = ProcessorView { pending: None, ..state };
    lemma_alone(found, state.pending->0, true);
    lemma_alone(closed, state.pending->0, false);
}

/// An entry for the report is added at its end, and a channel that closes is
/// taken note of; nothing else changes.
pub proof fn law_reports_and_channels<E>(state: ProcessorView<E>, entry: ReportKindView)
    ensures
        ({
            let after = state.advanced(EventView::Report(entry));
            &&& after == (ProcessorView { report: after.report, ..state })
            &&& after.report.details == state.report.details.push(entry)
            &&& after.report.formatter_summary == state.report.formatter_summary
        }),
        state.advanced(EventView::MessagesClosed) == (ProcessorView {
            messages_open: false,
            ..state
        }),
        state.advanced(EventView::ReportsClosed) == (ProcessorView {
            reports_open: false,
            ..state
        }),
{
}

/// What a message with one finding comes to.
proof fn lemma_one<E>(
    state: ProcessorView<E>,
    message: MessageView<E>,
    named: bool,
    finding: crate::finding::Finding<E>,
)
    requires
        state.printed <= state.max_diagnostics,
        message.findings(state.mode.ci(), named) == seq![finding],
        message.unlimited(state.mode.ci()) == Seq::<PrintedView<E>>::empty(),
    ensures
        ({
            let after = state.settled(message, named);
            let lone = finding.lone_error() && state.report_to_terminal && state.printed
                < state.max_diagnostics;
            &&& after.to_print == if state.report_to_terminal && state.printed
                < state.max_diagnostics {
                state.to_print.push(finding.printed(state.mode.ci()))
            } else {
                state.to_print
            }
            &&& after.report.details == if state.report_to_terminal {
                state.report.details
            } else {
                state.report.details + finding.entries()
            }
            &&& after.errors == state.errors + message.errors(state.mode.ci()) + if lone {
                1int
            } else {
                0int
            }
        }),
{
    let counted = state.counted(message);
    crate::processor::lemma_single(counted, finding);
    let printed = finding.printed(state.mode.ci());
    assert(counted.to_print =~= state.to_print);
    assert(state.to_print + seq![printed] =~= state.to_print.push(printed));
    assert(state.to_print + Seq::<PrintedView<E>>::empty() =~= state.to_print);
}

proof fn lemma_alone<E>(state: ProcessorView<E>, diagnostic: DiagnosticView<E>, named: bool)
    requires
        state.printed <= state.max_diagnostics,
    ensures
        ({
            let after = state.settled(MessageView::Error(diagnostic), named);
            &&& alone(
                state,
                after,
                diagnostic,
                match diagnostic.resource {
                    Some(ResourceView::File(path)) => if named {
                        Some(path)
                    } else {
                        None
                    },
                    _ => None,
                },
            )
            &&& after.paths == state.paths
            &&& after.pending == state.pending
        }),
{
    let message = MessageView::Error(diagnostic);
    let finding = message.findings(state.mode.ci(), named)[0];
    lemma_one(state, message, named, finding);
    assert(state.report.details + finding.entries() =~= state.report.details.push(
        finding.entries()[0],
    ));
}

/// A run starts with nothing counted, printed, reported, known or waiting, and
/// with both channels open.
pub proof fn law_new<E>(execution: Execution, processor: MessageProcessor<E>)
    requires
        call_ensures(MessageProcessor::<E>::new, (&execution,), processor),
    ensures
        processor@.mode == execution.traversal_mode,
        processor@.report_to_terminal == execution.report_to_terminal,
        processor@.max_diagnostics == execution.max_diagnostics,
        processor@.printed == 0,
        processor@.not_printed == 0,
        processor@.errors == 0,
        processor@.warnings == 0,
        processor@.skipped_fixes == 0,
        processor@.to_print.len() == 0,
        processor@.report.details.len() == 0,
        processor@.report.formatter_summary is None,
        processor@.pending is None,
        processor@.messages_open,
        processor@.reports_open,
        forall|path: Seq<char>| !processor@.paths.contains(path),
        processor.wf(),
{
}

/// The console waits for a path while a diagnostic does, otherwise for input
/// while a channel is open, and otherwise for nothing.
pub proof fn law_awaited<E>(processor: MessageProcessor<E>, awaited: Awaited)
    requires
        call_ensures(MessageProcessor::<E>::awaited, (&processor,), awaited),
    ensures
        awaited == Awaited::Path <==> processor@.pending is Some,
        awaited == Awaited::Input <==> processor@.pending is None && (processor@.messages_open
            || processor@.reports_open),
{
}

/// What may still be printed is what may be printed at all but for what was.
pub proof fn law_remaining<E>(processor: MessageProcessor<E>, remaining: u16)
    requires
        processor.wf(),
        call_ensures(MessageProcessor::<E>::remaining_diagnostics, (&processor,), remaining),
    ensures
        remaining + processor@.printed == processor@.max_diagnostics,
{
}

/// Every event that the console listens to can be taken, if the counters can hold
/// what a message adds, and it leaves the console ready for the next.
pub proof fn law_step<E>(event: Event<E>)
    ensures
        forall|processor: &mut MessageProcessor<E>|
            #![trigger call_ensures(MessageProcessor::<E>::step, (processor, event), ())]
            call_ensures(MessageProcessor::<E>::step, (processor, event), ()) ==> {
                &&& final(processor)@ == (*processor)@.advanced(event@)
                &&& final(processor).wf()
            },
        forall|processor: &mut MessageProcessor<E>|
            #![trigger call_requires(MessageProcessor::<E>::step, (processor, event))]
            (*processor).wf() && ((*processor)@.pending is Some <==> event is Path) && (
            (*processor)@.pending is None ==> (*processor)@.messages_open
                || (*processor)@.reports_open) && (event matches Event::Message(message)
                ==> (*processor)@.fits(message@)) ==> call_requires(
                MessageProcessor::<E>::step,
                (processor, event),
            ),
{
}

/// A console in a state of a run can always say what it waits for, how much may
/// still be printed and whether it accepts a message; and it can be ended once
/// it waits for nothing.
pub proof fn law_always_ready<E>(
    processor: MessageProcessor<E>,
    message: Message<E>,
    verbose: bool,
)
    requires
        processor.wf(),
    ensures
        call_requires(MessageProcessor::<E>::awaited, (&processor,)),
        call_requires(MessageProcessor::<E>::remaining_diagnostics, (&processor,)),
        call_requires(MessageProcessor::<E>::accepts, (&processor, &message)),
        processor@.pending is None && !processor@.messages_open && !processor@.reports_open
            ==> call_requires(MessageProcessor::<E>::finish, (processor, verbose)),
{
}

/// The value of an event holds everything that is in it.
pub proof fn law_event_values<E>(event: Event<E>)
    ensures
        event matches Event::Message(message) ==> event@ == EventView::Message(message@),
        event is MessagesClosed ==> event@ == EventView::<E>::MessagesClosed,
        event matches Event::Report(entry) ==> event@ == EventView::<E>::Report(entry@),
        event is ReportsClosed ==> event@ == EventView::<E>::ReportsClosed,
        event matches Event::Path(Some(path)) ==> event@ == EventView::<E>::Path(Some(path@)),
        event matches Event::Path(None) ==> event@ == EventView::<E>::Path(None),
{
}

/// The operations that take one kind of event each do what the event does.
pub proof fn law_receive<E>(message: Message<E>, path: Option<String>, entry: ReportKind)
    ensures
        forall|processor: &mut MessageProcessor<E>|
            #![trigger call_ensures(MessageProcessor::<E>::receive_message, (processor, message), ())]
            call_ensures(MessageProcessor::<E>::receive_message, (processor, message), ())
                ==> final(processor)@ == (*processor)@.advanced(EventView::Message(message@)),
        forall|processor: &mut MessageProcessor<E>|
            #![trigger call_ensures(MessageProcessor::<E>::receive_path, (processor, path), ())]
            call_ensures(MessageProcessor::<E>::receive_path, (processor, path), ())
                ==> final(processor)@ == (*processor)@.advanced(
                EventView::Path(
                    match path {
                        Some(path) => Some(path@),
                        None => None,
                    },
                ),
            ),
        forall|processor: &mut MessageProcessor<E>|
            #![trigger call_ensures(MessageProcessor::<E>::receive_report, (processor, entry), ())]
            call_ensures(MessageProcessor::<E>::receive_report, (processor, entry), ())
                ==> final(processor)@ == (*processor)@.advanced(EventView::Report(entry@)),
        forall|processor: &mut MessageProcessor<E>|
            #![trigger call_ensures(MessageProcessor::<E>::close_messages, (processor,), ())]
            call_ensures(MessageProcessor::<E>::close_messages, (processor,), ())
                ==> final(processor)@ == (*processor)@.advanced(EventView::MessagesClosed),
        forall|processor: &mut MessageProcessor<E>|
            #![trigger call_ensures(MessageProcessor::<E>::close_reports, (processor,), ())]
            call_ensures(MessageProcessor::<E>::close_reports, (processor,), ())
                ==> final(processor)@ == (*processor)@.advanced(EventView::ReportsClosed),
{
}

/// A message is accepted exactly if the counters can hold what it adds. Where it
/// need not wait, that is what they are after it; where it must, what a
/// diagnostic on its own adds.
pub proof fn law_accepts<E>(processor: MessageProcessor<E>, message: Message<E>, accepted: bool)
    requires
        processor.wf(),
        call_ensures(MessageProcessor::<E>::accepts, (&processor, &message), accepted),
    ensures
        message !is Error ==> {
            let after = processor@.advanced(EventView::Message(message@));
            accepted <==> after.errors <= usize::MAX && after.warnings <= usize::MAX
                && after.not_printed <= u64::MAX && after.skipped_fixes <= u64::MAX
        },
        message matches Message::Error(diagnostic) ==> {
            let state = processor@;
            let has_place = state.printed < state.max_diagnostics;
            &&& accepted <==> {
                &&& state.errors + (if diagnostic.severity == Severity::Error
                    && state.report_to_terminal && has_place {
                    1int
                } else {
                    0int
                }) <= usize::MAX
                &&& state.warnings + (if diagnostic.severity == Severity::Warning {
                    1int
                } else {
                    0int
                }) <= usize::MAX
                &&& state.not_printed + (if has_place {
                    0int
                } else {
                    1int
                }) <= u64::MAX
                &&& state.skipped_fixes <= u64::MAX
            }
        },
{
    if let Message::Error(diagnostic) = message {
        lemma_alone(processor@, diagnostic@, true);
    }
}

/// The notice on fixes that were not applied, with their number.
pub open spec fn says_fixes_skipped(nodes: Seq<MarkupNodeView>, count: nat) -> bool {
    let warn = seq![MarkupElement::Warn];
    let info = seq![MarkupElement::Info];
    &&& nodes.len() == 5
    &&& nodes[0].elements == warn && nodes[0].content == ContentView::Text("Skipped "@)
    &&& nodes[1].elements == warn && shows_number(nodes[1].content, count)
    &&& nodes[2].elements == warn && nodes[2].content == ContentView::Text(" suggested fixes.\n"@)
    &&& nodes[3].elements == info && nodes[3].content == ContentView::Text(
        "If you wish to apply the suggested (unsafe) fixes, use the command "@,
    )
    &&& nodes[4].elements == seq![MarkupElement::Info, MarkupElement::Emphasis]
    &&& nodes[4].content == ContentView::Text("biome check --apply-unsafe\n"@)
}

/// The notice on diagnostics that are not shown, with their number.
pub open spec fn says_not_shown(nodes: Seq<MarkupNodeView>, count: nat) -> bool {
    let info = seq![MarkupElement::Info];
    &&& nodes.len() == 4
    &&& nodes[0].elements == seq![MarkupElement::Warn]
    &&& nodes[0].content == ContentView::Text(
        "The number of diagnostics exceeds the number allowed by Biome.\n"@,
    )
    &&& nodes[1].elements == info && nodes[1].content == ContentView::Text(
        "Diagnostics not shown: "@,
    )
    &&& nodes[2].elements == seq![MarkupElement::Emphasis] && shows_number(nodes[2].content, count)
    &&& nodes[3].elements == info && nodes[3].content == ContentView::Text("."@)
}

/// The number that a text of decimal digits stands for.
pub open spec fn value(text: Seq<char>) -> nat
    decreases text.len(),
{
    if text.len() == 0 {
        0
    } else {
        (value(text.drop_last()) * 10 + (text.last() as int - '0' as int)) as nat
    }
}

/// The text is a number as it is written in decimal: digits, at least one, and
/// no zero in front of others.
pub open spec fn numeral(text: Seq<char>) -> bool {
    &&& text.len() > 0
    &&& forall|i: int| 0 <= i < text.len() ==> '0' <= #[trigger] text[i] <= '9'
    &&& text.len() > 1 ==> text[0] != '0'
}

/// The content is a text that writes the number.
pub open spec fn shows_number(content: ContentView, count: nat) -> bool {
    content matches ContentView::Text(text) && numeral(text) && value(text) == count
}

/// The decimal form of a number is a numeral that stands for the number.
pub proof fn law_decimal(n: nat)
    ensures
        numeral(crate::text::decimal(n)),
        value(crate::text::decimal(n)) == n,
        n > 0 ==> crate::text::decimal(n)[0] != '0',
    decreases n,
{
    let text = crate::text::decimal(n);
    if n < 10 {
        assert(text.drop_last() =~= Seq::empty());
        reveal_with_fuel(value, 2);
    } else {
        law_decimal(n / 10);
        assert(text.drop_last() =~= crate::text::decimal(n / 10));
    }
}

/// A number that is written down can be read again, and the name of a worker
/// thread ends in its number.
pub proof fn law_numbers_are_written(n: u64, text: String, index: usize, name: String)
    ensures
        call_ensures(crate::text::decimal_text, (n,), text) ==> numeral(text@) && value(text@)
            == n,
        call_ensures(crate::execution::worker_name, (index,), name) ==> {
            let prefix = "rome::worker_"@;
            &&& prefix.is_prefix_of(name@)
            &&& numeral(name@.skip(prefix.len() as int))
            &&& value(name@.skip(prefix.len() as int)) == index
        },
{
    law_decimal(n as nat);
    law_decimal(index as nat);
    let prefix = "rome::worker_"@;
    if call_ensures(crate::execution::worker_name, (index,), name) {
        assert(name@.skip(prefix.len() as int) =~= crate::text::decimal(index as nat));
        assert(name@.subrange(0, prefix.len() as int) =~= prefix);
    }
}

/// At the end of a run, everything that is to be printed is, in its order and
/// with the verbosity that was asked for. After it come, in a check, the notice
/// on fixes that were not applied, if there are any, and, except in continuous
/// integration, the notice on diagnostics that are not shown, if there are any.
/// The counts and the report are handed on as they are.
pub proof fn law_finish<E>(
    processor: MessageProcessor<E>,
    verbose: bool,
    lines: Vec<ConsoleLine<E>>,
    totals: Totals,
)
    requires
        call_ensures(MessageProcessor::<E>::finish, (processor, verbose), (lines, totals)),
    ensures
        ({
            let state = processor@;
            let printed = state.to_print.len() as int;
            let fixes = if state.mode is Check && state.skipped_fixes > 0 {
                1int
            } else {
                0int
            };
            let not_shown = if !(state.mode is CI) && state.not_printed > 0 {
                1int
            } else {
                0int
            };
            &&& lines@.len() == printed + fixes + not_shown
            &&& forall|i: int|
                0 <= i < printed ==> (#[trigger] lines@[i])@ == (ConsoleLineView::Error {
                    diagnostic: state.to_print[i],
                    verbose,
                })
            &&& fixes == 1 ==> (lines@[printed]@ matches ConsoleLineView::Log(nodes)
                && says_fixes_skipped(nodes, state.skipped_fixes))
            &&& not_shown == 1 ==> (lines@[printed + fixes]@ matches ConsoleLineView::Log(nodes)
                && says_not_shown(nodes, state.not_printed))
            &&& totals.errors == state.errors
            &&& totals.warnings == state.warnings
            &&& totals.report@ == state.report
        }),
{
    let state = processor@;
    let written = lines@.map_values(|line: ConsoleLine<E>| line@);
    law_decimal(state.skipped_fixes);
    law_decimal(state.not_printed);
    assert(written.len() == lines@.len());
    assert(forall|i: int| 0 <= i < lines@.len() ==> written[i] == (#[trigger] lines@[i])@);
}

} // verus!
