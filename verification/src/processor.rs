//! The state of the console while a traversal runs: it takes the messages of
//! the workers one by one, and says at the end what is to be written.

use vstd::hash_set::StringHashSet;
use vstd::prelude::*;
use crate::diagnostic::{
    Diagnostic, DiagnosticView, DiffDiagnostic, DiffKind, Printed, PrintedView, Severity,
};
use crate::execution::{Execution, TraversalMode};
use crate::finding::Finding;
use crate::message::{Message, MessageView};
use crate::output::{ConsoleLine, ConsoleLineView};
use crate::report::{Report, ReportKind, ReportKindView, ReportView};

verus! {

/// What the console waits for.
#[derive(Clone, Copy, Debug, PartialEq, Eq, Structural)]
pub enum Awaited {
    /// A message or a report entry, or that one of their channels closes.
    Input,
    /// A file path, or that the channel of the paths closes.
    Path,
    /// Nothing: both channels closed.
    Nothing,
}

/// What can happen to the console.
#[derive(Debug)]
pub enum Event<E> {
    /// A message came.
    Message(Message<E>),
    /// The channel of the messages closed.
    MessagesClosed,
    /// An entry for the report came.
    Report(ReportKind),
    /// The channel of the report entries closed.
    ReportsClosed,
    /// A file path came, or, with `None`, the channel of the paths closed.
    Path(Option<String>),
}

/// The mathematical value of an [`Event`].
pub enum EventView<E> {
    Message(MessageView<E>),
    MessagesClosed,
    Report(ReportKindView),
    ReportsClosed,
    Path(Option<Seq<char>>),
}

impl<E> View for Event<E> {
    type V = EventView<E>;

    open spec fn view(&self) -> EventView<E> {
        match self {
            Event::Message(message) => EventView::Message(message@),
            Event::MessagesClosed => EventView::MessagesClosed,
            Event::Report(entry) => EventView::Report(entry@),
            Event::ReportsClosed => EventView::ReportsClosed,
            Event::Path(path) => EventView::Path(crate::text::optional(*path)),
        }
    }
}

/// The mathematical value of a [`MessageProcessor`].
#[verifier::ext_equal]
pub struct ProcessorView<E> {
    /// The modality of the traversal.
    pub mode: TraversalMode,
    /// Whether findings go to the terminal; if not, they go to the report.
    pub report_to_terminal: bool,
    /// How many findings may be printed.
    pub max_diagnostics: nat,
    /// The file paths that are known.
    pub paths: Set<Seq<char>>,
    /// How many findings were given one of the places for printing.
    pub printed: nat,
    /// How many findings were not given one, or were left out by a worker.
    pub not_printed: nat,
    /// How many suggested fixes were not applied.
    pub skipped_fixes: nat,
    /// Whether messages may still come.
    pub messages_open: bool,
    /// Whether report entries may still come.
    pub reports_open: bool,
    /// What will be printed.
    pub to_print: Seq<PrintedView<E>>,
    /// How many errors were found.
    pub errors: nat,
    /// How many warnings were found.
    pub warnings: nat,
    /// What the report holds.
    pub report: ReportView,
    /// The diagnostic whose file path is being looked up.
    pub pending: Option<DiagnosticView<E>>,
}

impl<E> ProcessorView<E> {
    /// The state in which a run starts.
    pub open spec fn start(
        mode: TraversalMode,
        report_to_terminal: bool,
        max_diagnostics: nat,
    ) -> ProcessorView<E> {
        ProcessorView {
            mode,
            report_to_terminal,
            max_diagnostics,
            paths: Set::empty(),
            printed: 0,
            not_printed: 0,
            skipped_fixes: 0,
            messages_open: true,
            reports_open: true,
            to_print: Seq::empty(),
            errors: 0,
            warnings: 0,
            report: ReportView { details: Seq::empty(), formatter_summary: None },
            pending: None,
        }
    }

    /// How many more findings may be printed.
    pub open spec fn room(self) -> nat
        recommends
            self.printed <= self.max_diagnostics,
    {
        (self.max_diagnostics - self.printed) as nat
    }

    /// How many of `n` further findings are given a place for printing.
    pub open spec fn places(self, n: nat) -> nat {
        if n <= self.room() {
            n
        } else {
            self.room()
        }
    }

    /// Which of further findings are printed: on the terminal, those that are
    /// given a place.
    pub open spec fn shown(self, findings: Seq<Finding<E>>) -> Seq<Finding<E>> {
        if self.report_to_terminal {
            findings.take(self.places(findings.len()) as int)
        } else {
            Seq::empty()
        }
    }

    /// The state after further findings. The first of them take the places that
    /// are left, the others are only counted. On the terminal, those with a
    /// place are printed, and an error that was sent on its own is counted as an
    /// error once it is. In the report, all of them are entered.
    pub open spec fn offered(self, findings: Seq<Finding<E>>) -> ProcessorView<E> {
        let places = self.places(findings.len());
        ProcessorView {
            printed: self.printed + places,
            not_printed: (self.not_printed + findings.len() - places) as nat,
            errors: self.errors + crate::finding::lone_errors(self.shown(findings)),
            to_print: self.to_print + crate::finding::all_printed(
                self.shown(findings),
                self.mode.ci(),
            ),
            report: if self.report_to_terminal {
                self.report
            } else {
                ReportView {
                    details: self.report.details + crate::finding::all_entries(findings),
                    ..self.report
                }
            },
            ..self
        }
    }

    /// The state once the counts of a message are added.
    pub open spec fn counted(self, message: MessageView<E>) -> ProcessorView<E> {
        ProcessorView {
            errors: self.errors + message.errors(self.mode.ci()),
            warnings: self.warnings + message.warnings(),
            not_printed: self.not_printed + message.withheld(),
            skipped_fixes: self.skipped_fixes + message.skipped_fixes(),
            to_print: self.to_print + message.unlimited(self.mode.ci()),
            ..self
        }
    }

    /// The state after a message for which no file path has to be waited for.
    /// `named` says whether the path of the file that a diagnostic is about was
    /// found.
    pub open spec fn settled(self, message: MessageView<E>, named: bool) -> ProcessorView<E> {
        self.counted(message).offered(message.findings(self.mode.ci(), named))
    }

    /// Whether a message has to wait for the path of the file it is about.
    pub open spec fn must_wait(self, message: MessageView<E>) -> bool {
        match message {
            MessageView::Error(diagnostic) => match diagnostic.file() {
                Some(path) => !self.paths.contains(path),
                None => false,
            },
            _ => false,
        }
    }

    /// The state after a message.
    pub open spec fn received(self, message: MessageView<E>) -> ProcessorView<E> {
        if self.must_wait(message) {
            ProcessorView { pending: Some(message->Error_0), ..self }
        } else {
            self.settled(message, true)
        }
    }

    /// The state after a file path, or, with `None`, after the channel of the
    /// paths closed. The path that is waited for, or the end of the channel,
    /// settles the diagnostic that waits.
    pub open spec fn path_received(self, path: Option<Seq<char>>) -> ProcessorView<E>
        recommends
            self.pending is Some,
    {
        let message = MessageView::Error(self.pending->0);
        match path {
            Some(path) => {
                let known = ProcessorView { paths: self.paths.insert(path), ..self };
                if self.pending->0.file() == Some(path) {
                    (ProcessorView { pending: None, ..known }).settled(message, true)
                } else {
                    known
                }
            },
            None => (ProcessorView { pending: None, ..self }).settled(message, false),
        }
    }

    /// The counts are within what the counters can hold.
    pub open spec fn representable(self) -> bool {
        &&& self.errors <= usize::MAX
        &&& self.warnings <= usize::MAX
        &&& self.not_printed <= u64::MAX
        &&& self.skipped_fixes <= u64::MAX
    }

    /// The counts stay within what the counters can hold when the message is
    /// taken.
    pub open spec fn fits(self, message: MessageView<E>) -> bool {
        self.settled(message, true).representable()
    }

    /// What every state of a run satisfies: no more findings are printed than
    /// may be, and a diagnostic waits only for a path that is not known.
    pub open spec fn valid(self) -> bool {
        &&& self.printed <= self.max_diagnostics
        &&& match self.pending {
            Some(diagnostic) => {
                &&& self.must_wait(MessageView::Error(diagnostic))
                &&& self.fits(MessageView::Error(diagnostic))
            },
            None => true,
        }
    }

    /// What the console waits for in this state.
    pub open spec fn awaited(self) -> Awaited {
        if self.pending is Some {
            Awaited::Path
        } else if self.messages_open || self.reports_open {
            Awaited::Input
        } else {
            Awaited::Nothing
        }
    }

    /// Whether an event can happen in this state: the console only listens to
    /// what it waits for.
    pub open spec fn listens_to(self, event: EventView<E>) -> bool {
        match self.awaited() {
            Awaited::Path => event is Path,
            Awaited::Input => event !is Path,
            Awaited::Nothing => false,
        }
    }

    /// The state after an event.
    pub open spec fn advanced(self, event: EventView<E>) -> ProcessorView<E> {
        match event {
            EventView::Message(message) => self.received(message),
            EventView::MessagesClosed => ProcessorView { messages_open: false, ..self },
            EventView::Report(entry) => ProcessorView {
                report: ReportView { details: self.report.details.push(entry), ..self.report },
                ..self
            },
            EventView::ReportsClosed => ProcessorView { reports_open: false, ..self },
            EventView::Path(path) => self.path_received(path),
        }
    }

    /// What is written on the console at the end: the diagnostics, then, in a
    /// check, the notice on fixes that were not applied, then, except in
    /// continuous integration, the notice on diagnostics that are not shown.
    pub open spec fn output(self, verbose: bool) -> Seq<ConsoleLineView<E>> {
        let diagnostics = self.to_print.map_values(
            |diagnostic: PrintedView<E>| ConsoleLineView::Error { diagnostic, verbose },
        );
        let fixes = if self.mode.check() && self.skipped_fixes > 0 {
            seq![ConsoleLineView::<E>::Log(crate::output::skipped_fixes_notice(self.skipped_fixes))]
        } else {
            Seq::empty()
        };
        let not_shown = if !self.mode.ci() && self.not_printed > 0 {
            seq![ConsoleLineView::<E>::Log(crate::output::not_shown_notice(self.not_printed))]
        } else {
            Seq::empty()
        };
        diagnostics + fixes + not_shown
    }
}

/// The entries of a longer list of findings.
pub proof fn lemma_entries_add<E>(first: Seq<Finding<E>>, second: Seq<Finding<E>>)
    ensures
        crate::finding::all_entries(first + second) == crate::finding::all_entries(first)
            + crate::finding::all_entries(second),
    decreases second.len(),
{
    if second.len() > 0 {
        lemma_entries_add(first, second.drop_last());
        assert((first + second).drop_last() =~= first + second.drop_last());
        assert(crate::finding::all_entries(first + second) =~= crate::finding::all_entries(first)
            + crate::finding::all_entries(second));
    } else {
        assert(first + second =~= first);
        assert(crate::finding::all_entries(first + second) =~= crate::finding::all_entries(first)
            + crate::finding::all_entries(second));
    }
}

/// Findings have the same effect all at once as in two parts, one after the
/// other: the limit is one limit on the whole run.
pub proof fn law_offered_in_parts<E>(
    state: ProcessorView<E>,
    first: Seq<Finding<E>>,
    second: Seq<Finding<E>>,
)
    requires
        state.printed <= state.max_diagnostics,
    ensures
        state.offered(first).offered(second) == state.offered(first + second),
{
    lemma_entries_add(first, second);
    let middle = state.offered(first);
    let ci = state.mode.ci();
    let all = state.places((first + second).len()) as int;
    let a = state.places(first.len()) as int;
    let b = middle.places(second.len()) as int;
    let shown = state.shown(first + second);
    assert(shown =~= state.shown(first) + middle.shown(second)) by {
        assert((first + second).take(all) =~= first.take(a) + second.take(b));
    }
    crate::finding::lemma_lone_errors_add(state.shown(first), middle.shown(second));
    assert(crate::finding::all_printed(shown, ci) =~= crate::finding::all_printed(
        state.shown(first),
        ci,
    ) + crate::finding::all_printed(middle.shown(second), ci));
    assert(middle.offered(second) =~= state.offered(first + second));
}

/// The console of a run.
pub struct MessageProcessor<E> {
    mode: TraversalMode,
    report_to_terminal: bool,
    max_diagnostics: u16,
    paths: StringHashSet,
    printed_diagnostics: u16,
    not_printed_diagnostics: u64,
    total_skipped_suggested_fixes: u64,
    is_msg_open: bool,
    is_report_open: bool,
    diagnostics_to_print: Vec<Printed<E>>,
    errors: usize,
    warnings: usize,
    report: Report,
    pending: Option<Diagnostic<E>>,
}

impl<E> View for MessageProcessor<E> {
    type V = ProcessorView<E>;

    closed spec fn view(&self) -> ProcessorView<E> {
        ProcessorView {
            mode: self.mode,
            report_to_terminal: self.report_to_terminal,
            max_diagnostics: self.max_diagnostics as nat,
            paths: self.paths@,
            printed: self.printed_diagnostics as nat,
            not_printed: self.not_printed_diagnostics as nat,
            skipped_fixes: self.total_skipped_suggested_fixes as nat,
            messages_open: self.is_msg_open,
            reports_open: self.is_report_open,
            to_print: self.diagnostics_to_print@.map_values(|printed: Printed<E>| printed@),
            errors: self.errors as nat,
            warnings: self.warnings as nat,
            report: self.report@,
            pending: match self.pending {
                Some(diagnostic) => Some(diagnostic@),
                None => None,
            },
        }
    }
}

impl<E> MessageProcessor<E> {
    /// The state is one that a run can be in.
    pub open spec fn wf(self) -> bool {
        self@.valid()
    }

    /// The console of a run that has just started.
    pub fn new(execution: &Execution) -> (processor: MessageProcessor<E>)
        ensures
            processor.wf(),
            processor@ == ProcessorView::<E>::start(
                execution.traversal_mode,
                execution.report_to_terminal,
                execution.max_diagnostics as nat,
            ),
    {
        let processor = MessageProcessor {
            mode: execution.traversal_mode,
            report_to_terminal: execution.report_to_terminal,
            max_diagnostics: execution.max_diagnostics,
            paths: StringHashSet::new(),
            printed_diagnostics: 0,
            not_printed_diagnostics: 0,
            total_skipped_suggested_fixes: 0,
            is_msg_open: true,
            is_report_open: true,
            diagnostics_to_print: Vec::new(),
            errors: 0,
            warnings: 0,
            report: Report::new(),
            pending: None,
        };
        assert(processor@ =~= ProcessorView::<E>::start(
            execution.traversal_mode,
            execution.report_to_terminal,
            execution.max_diagnostics as nat,
        ));
        processor
    }

    /// What the console waits for.
    pub fn awaited(&self) -> (awaited: Awaited)
        ensures
            awaited == self@.awaited(),
    {
        if self.pending.is_some() {
            Awaited::Path
        } else if self.is_msg_open || self.is_report_open {
            Awaited::Input
        } else {
            Awaited::Nothing
        }
    }

    /// The number of diagnostics that may still be printed.
    pub fn remaining_diagnostics(&self) -> (remaining: u16)
        requires
            self.wf(),
        ensures
            remaining == self@.room(),
    {
        self.max_diagnostics.saturating_sub(self.printed_diagnostics)
    }

    /// Gives the next finding a place for printing, if one is left.
    fn take_place(&mut self) -> (should_print: bool)
        requires
            old(self).printed_diagnostics <= old(self).max_diagnostics,
            old(self)@.not_printed + 1 - old(self)@.places(1) <= u64::MAX,
        ensures
            should_print == (old(self)@.places(1) == 1),
            final(self)@ == (ProcessorView {
                printed: old(self)@.printed + old(self)@.places(1),
                not_printed: (old(self)@.not_printed + 1 - old(self)@.places(1)) as nat,
                ..old(self)@
            }),
    {
        let should_print = self.printed_diagnostics < self.max_diagnostics;
        if should_print {
            self.printed_diagnostics = self.printed_diagnostics + 1;
        } else {
            self.not_printed_diagnostics = self.not_printed_diagnostics + 1;
        }
        should_print
    }

    /// Adds a diagnostic to those that will be printed.
    fn print(&mut self, printed: Printed<E>)
        ensures
            final(self)@ == (ProcessorView {
                to_print: old(self)@.to_print.push(printed@),
                ..old(self)@
            }),
    {
        self.diagnostics_to_print.push(printed);
        assert(self@.to_print =~= old(self)@.to_print.push(printed@));
    }

    /// Adds an entry to the report.
    fn enter(&mut self, entry: ReportKind)
        ensures
            final(self)@ == (ProcessorView {
                report: ReportView {
                    details: old(self)@.report.details.push(entry@),
                    ..old(self)@.report
                },
                ..old(self)@
            }),
    {
        self.report.push_detail_report(entry);
    }

    /// Settles a diagnostic that was sent on its own, with the path that was
    /// looked up for it.
    fn settle_error(&mut self, diagnostic: Diagnostic<E>, file_path: Option<String>)
        requires
            old(self).printed_diagnostics <= old(self).max_diagnostics,
            old(self)@.fits(MessageView::Error(diagnostic@)),
            file_path is Some ==> crate::text::optional(file_path) == diagnostic@.file(),
        ensures
            final(self)@ == old(self)@.settled(
                MessageView::Error(diagnostic@),
                file_path is Some || diagnostic@.file() is None,
            ),
    {
        let ghost message = MessageView::Error(diagnostic@);
        let ghost named = file_path is Some || diagnostic@.file() is None;
        let ghost finding = Finding::Error {
            diagnostic: diagnostic@,
            file_path: crate::text::optional(file_path),
        };
        let ghost ci = self.mode.ci();
        assert(message.findings(ci, named) =~= seq![finding]);
        if diagnostic.severity == Severity::Warning {
            self.warnings = self.warnings + 1;
        }
        assert(self@ =~= old(self)@.counted(message));
        let should_print = self.take_place();
        proof {
            let named_finding = Finding::Error {
                diagnostic: diagnostic@,
                file_path: diagnostic@.file(),
            };
            assert(message.findings(ci, true) =~= seq![named_finding]);
            lemma_single(old(self)@.counted(message), named_finding);
            lemma_single(old(self)@.counted(message), finding);
        }
        if self.report_to_terminal {
            if should_print {
                if diagnostic.severity == Severity::Error {
                    self.errors = self.errors + 1;
                }
                self.print(Printed::Diagnostic { diagnostic, file_path, source_code: None });
            }
        } else {
            let code = diagnostic.code();
            let entry = crate::report::error_entry(&diagnostic, code);
            self.enter(entry);
        }
        assert(self@ =~= old(self)@.settled(message, named));
    }

    /// Settles an error met while applying fixes.
    fn settle_apply_error(&mut self, error: E)
        requires
            old(self).printed_diagnostics <= old(self).max_diagnostics,
            old(self)@.fits(MessageView::ApplyError(error)),
        ensures
            final(self)@ == old(self)@.settled(MessageView::ApplyError(error), true),
    {
        let ghost message = MessageView::ApplyError(error);
        let ghost finding = Finding::Failure(error);
        assert(message.findings(self.mode.ci(), true) =~= seq![finding]);
        self.errors = self.errors + 1;
        assert(self@ =~= old(self)@.counted(message));
        let should_print = self.take_place();
        proof {
            lemma_single(old(self)@.counted(message), finding);
        }
        if self.report_to_terminal && should_print {
            self.print(Printed::Failure(error));
        }
        assert(self@ =~= old(self)@.settled(message, true));
    }

    /// Settles the diagnostics of one file in continuous integration, where all
    /// of them are printed.
    fn settle_diagnostics_ci(
        &mut self,
        name: String,
        content: String,
        diagnostics: Vec<Diagnostic<E>>,
        skipped_diagnostics: u64,
    )
        requires
            old(self)@.mode.ci(),
            old(self).printed_diagnostics <= old(self).max_diagnostics,
            old(self)@.fits(
                MessageView::Diagnostics {
                    name: name@,
                    content: content@,
                    diagnostics: crate::message::views(diagnostics@),
                    skipped_diagnostics: skipped_diagnostics as nat,
                },
            ),
        ensures
            final(self)@ == old(self)@.settled(
                MessageView::Diagnostics {
                    name: name@,
                    content: content@,
                    diagnostics: crate::message::views(diagnostics@),
                    skipped_diagnostics: skipped_diagnostics as nat,
                },
                true,
            ),
    {
        let ghost all = crate::message::views(diagnostics@);
        let ghost message = MessageView::Diagnostics {
            name: name@,
            content: content@,
            diagnostics: all,
            skipped_diagnostics: skipped_diagnostics as nat,
        };
        let ghost before = self@;
        self.not_printed_diagnostics = self.not_printed_diagnostics + skipped_diagnostics;
        proof {
            assert(all.take(0) =~= Seq::empty());
            reveal(Seq::filter);
            assert(self@.to_print =~= before.to_print + crate::finding::all_printed(
                crate::finding::listed(name@, content@, all.take(0)),
                true,
            ));
        }
        for diagnostic in it: diagnostics.into_iter()
            invariant
                all == crate::message::views(it.seq()),
                before.errors + crate::finding::count(all, Severity::Error) <= usize::MAX,
                before.warnings + crate::finding::count(all, Severity::Warning) <= usize::MAX,
                self@ == (ProcessorView {
                    errors: before.errors + crate::finding::count(
                        all.take(it.index() as int),
                        Severity::Error,
                    ),
                    warnings: before.warnings + crate::finding::count(
                        all.take(it.index() as int),
                        Severity::Warning,
                    ),
                    not_printed: before.not_printed + skipped_diagnostics as nat,
                    to_print: before.to_print + crate::finding::all_printed(
                        crate::finding::listed(name@, content@, all.take(it.index() as int)),
                        true,
                    ),
                    ..before
                }),
        {
            let ghost i = it.index() as int;
            proof {
                assert(all[i] == diagnostic@);
                assert(all.take(i + 1) =~= all.take(i).push(all[i]));
                crate::finding::lemma_count_push(all.take(i), all[i], Severity::Error);
                crate::finding::lemma_count_take(all, i + 1, Severity::Error);
                crate::finding::lemma_count_push(all.take(i), all[i], Severity::Warning);
                crate::finding::lemma_count_take(all, i + 1, Severity::Warning);
            }
            let severity = diagnostic.severity;
            if severity == Severity::Error {
                self.errors = self.errors + 1;
            }
            if severity == Severity::Warning {
                self.warnings = self.warnings + 1;
            }
            self.print(
                Printed::Diagnostic {
                    diagnostic,
                    file_path: Some(name.clone()),
                    source_code: Some(content.clone()),
                },
            );
            assert(self@.to_print =~= before.to_print + crate::finding::all_printed(
                crate::finding::listed(name@, content@, all.take(i + 1)),
                true,
            ));
        }
        proof {
            assert(all.take(all.len() as int) =~= all);
            assert(message.findings(true, true) =~= Seq::empty());
            assert(message.findings(true, true).take(0) =~= Seq::empty());
            assert(before.settled(message, true).to_print =~= before.to_print + message.unlimited(
                true,
            ));
            assert(self@ =~= before.settled(message, true));
        }
    }

    /// Settles the diagnostics of one file, outside continuous integration.
    fn settle_diagnostics(
        &mut self,
        name: String,
        content: String,
        diagnostics: Vec<Diagnostic<E>>,
        skipped_diagnostics: u64,
    )
        requires
            !old(self)@.mode.ci(),
            old(self).printed_diagnostics <= old(self).max_diagnostics,
            old(self)@.fits(
                MessageView::Diagnostics {
                    name: name@,
                    content: content@,
                    diagnostics: crate::message::views(diagnostics@),
                    skipped_diagnostics: skipped_diagnostics as nat,
                },
            ),
        ensures
            final(self)@ == old(self)@.settled(
                MessageView::Diagnostics {
                    name: name@,
                    content: content@,
                    diagnostics: crate::message::views(diagnostics@),
                    skipped_diagnostics: skipped_diagnostics as nat,
                },
                true,
            ),
    {
        let ghost all = crate::message::views(diagnostics@);
        let ghost findings = crate::finding::listed(name@, content@, all);
        let ghost message = MessageView::Diagnostics {
            name: name@,
            content: content@,
            diagnostics: all,
            skipped_diagnostics: skipped_diagnostics as nat,
        };
        let ghost before = self@;
        let ghost base = ProcessorView {
            not_printed: before.not_printed + skipped_diagnostics as nat,
            ..before
        };
        proof {
            let counted = before.counted(message);
            assert(counted.places(findings.len()) == base.places(findings.len()));
        }
        self.not_printed_diagnostics = self.not_printed_diagnostics + skipped_diagnostics;
        proof {
            assert(all.take(0) =~= Seq::empty());
            assert(findings.take(0) =~= Seq::empty());
            reveal(Seq::filter);
            assert(self@ =~= base);
            lemma_nothing_offered(base);
        }
        for diagnostic in it: diagnostics.into_iter()
            invariant
                all == crate::message::views(it.seq()),
                findings == crate::finding::listed(name@, content@, all),
                !base.mode.ci(),
                base.printed <= base.max_diagnostics,
                base.errors + crate::finding::count(all, Severity::Error) <= usize::MAX,
                base.warnings + crate::finding::count(all, Severity::Warning) <= usize::MAX,
                base.not_printed + findings.len() - base.places(findings.len()) <= u64::MAX,
                self@ == (ProcessorView {
                    errors: base.errors + crate::finding::count(
                        all.take(it.index() as int),
                        Severity::Error,
                    ),
                    warnings: base.warnings + crate::finding::count(
                        all.take(it.index() as int),
                        Severity::Warning,
                    ),
                    ..base.offered(findings.take(it.index() as int))
                }),
        {
            let ghost i = it.index() as int;
            let ghost finding = findings[i];
            proof {
                assert(all[i] == diagnostic@);
                assert(all.take(i + 1) =~= all.take(i).push(all[i]));
                crate::finding::lemma_count_push(all.take(i), all[i], Severity::Error);
                crate::finding::lemma_count_take(all, i + 1, Severity::Error);
                crate::finding::lemma_count_push(all.take(i), all[i], Severity::Warning);
                crate::finding::lemma_count_take(all, i + 1, Severity::Warning);
                assert(findings.take(i + 1) =~= findings.take(i) + seq![finding]);
                law_offered_in_parts(base, findings.take(i), seq![finding]);
                lemma_single(base, finding);
            }
            let severity = diagnostic.severity;
            if severity == Severity::Error {
                self.errors = self.errors + 1;
            }
            if severity == Severity::Warning {
                self.warnings = self.warnings + 1;
            }
            let should_print = self.take_place();
            if self.report_to_terminal {
                if should_print {
                    self.print(
                        Printed::Diagnostic {
                            diagnostic,
                            file_path: Some(name.clone()),
                            source_code: Some(content.clone()),
                        },
                    );
                }
            } else {
                let code = diagnostic.code();
                let entry = crate::report::listed_entry(&name, &diagnostic, code);
                self.enter(entry);
            }
            assert(self@ =~= (ProcessorView {
                errors: base.errors + crate::finding::count(all.take(i + 1), Severity::Error),
                warnings: base.warnings + crate::finding::count(all.take(i + 1), Severity::Warning),
                ..base.offered(findings.take(i + 1))
            }));
        }
        proof {
            assert(all.take(all.len() as int) =~= all);
            assert(findings.take(findings.len() as int) =~= findings);
            assert(message.findings(false, true) == findings);
            lemma_listed_shown(before.counted(message), name@, content@, all);
            assert(before.to_print + message.unlimited(false) =~= before.to_print);
            assert(self@ =~= before.settled(message, true));
        }
    }

    /// Settles a difference.
    fn settle_diff(
        &mut self,
        file_name: String,
        old_content: String,
        new: String,
        diff_kind: DiffKind,
    )
        requires
            old(self).printed_diagnostics <= old(self).max_diagnostics,
            old(self)@.fits(
                MessageView::Diff {
                    file_name: file_name@,
                    old: old_content@,
                    new: new@,
                    diff_kind,
                },
            ),
        ensures
            final(self)@ == old(self)@.settled(
                MessageView::Diff {
                    file_name: file_name@,
                    old: old_content@,
                    new: new@,
                    diff_kind,
                },
                true,
            ),
    {
        let ghost message = MessageView::Diff {
            file_name: file_name@,
            old: old_content@,
            new: new@,
            diff_kind,
        };
        let ghost finding = Finding::Diff {
            file_name: file_name@,
            old: old_content@,
            new: new@,
            diff_kind,
        };
        assert(message.findings(self.mode.ci(), true) =~= seq![finding]);
        if self.mode.is_ci() {
            self.errors = self.errors + 1;
        }
        assert(self@ =~= old(self)@.counted(message));
        let should_print = self.take_place();
        proof {
            lemma_single(old(self)@.counted(message), finding);
        }
        if self.report_to_terminal {
            if should_print {
                let form = DiffDiagnostic::select(self.mode.is_ci(), diff_kind);
                self.print(Printed::Diff { form, file_name, old: old_content, new });
            }
        } else {
            let entry = crate::report::diff_entry(file_name, old_content, new);
            self.enter(entry);
        }
        assert(self@ =~= old(self)@.settled(message, true));
    }

    /// Takes a message.
    pub fn receive_message(&mut self, message: Message<E>)
        requires
            old(self).wf(),
            old(self)@.pending is None,
            old(self)@.fits(message@),
        ensures
            final(self).wf(),
            final(self)@ == old(self)@.received(message@),
    {
        match message {
            Message::SkippedFixes { skipped_suggested_fixes } => {
                self.total_skipped_suggested_fixes = self.total_skipped_suggested_fixes
                    + skipped_suggested_fixes;
                proof {
                    lemma_nothing_offered(old(self)@.counted(message@));
                    assert(self@ =~= old(self)@.counted(message@));
                }
            },
            Message::ApplyError(error) => {
                self.settle_apply_error(error);
            },
            Message::Error(diagnostic) => {
                let file_path = match diagnostic.file() {
                    Some(path) => if self.paths.contains(path.as_str()) {
                        Some(path.clone())
                    } else {
                        self.pending = Some(diagnostic);
                        assert(self@ =~= old(self)@.received(message@));
                        return ;
                    },
                    None => None,
                };
                self.settle_error(diagnostic, file_path);
            },
            Message::Diagnostics { name, content, diagnostics, skipped_diagnostics } => {
                if self.mode.is_ci() {
                    self.settle_diagnostics_ci(name, content, diagnostics, skipped_diagnostics);
                } else {
                    self.settle_diagnostics(name, content, diagnostics, skipped_diagnostics);
                }
            },
            Message::Diff { file_name, old: old_content, new, diff_kind } => {
                self.settle_diff(file_name, old_content, new, diff_kind);
            },
        }
    }

    /// Whether the counters can hold the counts after the message.
    pub fn accepts(&self, message: &Message<E>) -> (accepted: bool)
        requires
            self.wf(),
        ensures
            accepted == self@.fits(message@),
    {
        proof {
            let counted = self@.counted(message@);
            let findings = message@.findings(self@.mode.ci(), true);
            lemma_nothing_offered(counted);
            match message@ {
                MessageView::Diagnostics { name, content, diagnostics, .. } => {
                    lemma_listed_shown(counted, name, content, diagnostics);
                },
                MessageView::SkippedFixes { .. } => {},
                _ => {
                    assert(findings =~= seq![findings[0]]);
                    lemma_single(counted, findings[0]);
                },
            }
        }
        let has_place = self.printed_diagnostics < self.max_diagnostics
            || self.not_printed_diagnostics < u64::MAX;
        match message {
            Message::SkippedFixes { skipped_suggested_fixes } => {
                *skipped_suggested_fixes <= u64::MAX - self.total_skipped_suggested_fixes
            },
            Message::ApplyError(_) => has_place && self.errors < usize::MAX,
            Message::Error(diagnostic) => {
                let shown = self.report_to_terminal
                    && self.printed_diagnostics < self.max_diagnostics;
                has_place && (!shown || diagnostic.severity != Severity::Error || self.errors
                    < usize::MAX)
                    && (diagnostic.severity != Severity::Warning || self.warnings < usize::MAX)
            },
            Message::Diagnostics { diagnostics, skipped_diagnostics, .. } => {
                let errors: usize = crate::finding::count_severity(diagnostics, Severity::Error);
                if errors > usize::MAX - self.errors {
                    return false;
                }
                let warnings: usize = crate::finding::count_severity(
                    diagnostics,
                    Severity::Warning,
                );
                if warnings > usize::MAX - self.warnings {
                    return false;
                }
                let left: u64 = u64::MAX - self.not_printed_diagnostics;
                if *skipped_diagnostics > left {
                    return false;
                }
                if self.mode.is_ci() {
                    return true;
                }
                let places: usize = (self.max_diagnostics - self.printed_diagnostics) as usize;
                let beyond: usize = diagnostics.len().saturating_sub(places);
                beyond as u64 <= left - *skipped_diagnostics
            },
            Message::Diff { .. } => {
                has_place && (!self.mode.is_ci() || self.errors < usize::MAX)
            },
        }
    }

    /// Takes a file path, or, with `None`, takes note that the channel of the
    /// paths closed.
    pub fn receive_path(&mut self, path: Option<String>)
        requires
            old(self).wf(),
            old(self)@.pending is Some,
        ensures
            final(self).wf(),
            final(self)@ == old(self)@.path_received(crate::text::optional(path)),
    {
        let ghost before = self@;
        match path {
            Some(path) => {
                self.paths.insert(path.clone());
                assert(self@ =~= (ProcessorView { paths: before.paths.insert(path@), ..before }));
                let ghost noted = self@;
                match self.pending.take() {
                    Some(diagnostic) => {
                        let found = match diagnostic.file() {
                            Some(file) => *file == path,
                            None => false,
                        };
                        if found {
                            assert(self@ =~= (ProcessorView { pending: None, ..noted }));
                            self.settle_error(diagnostic, Some(path));
                        } else {
                            self.pending = Some(diagnostic);
                            assert(self@ =~= noted);
                        }
                    },
                    None => {},
                }
            },
            None => {
                match self.pending.take() {
                    Some(diagnostic) => {
                        assert(self@ =~= (ProcessorView { pending: None, ..before }));
                        self.settle_error(diagnostic, None);
                    },
                    None => {},
                }
            },
        }
    }

    /// Takes an entry for the report.
    pub fn receive_report(&mut self, entry: ReportKind)
        requires
            old(self).wf(),
        ensures
            final(self).wf(),
            final(self)@ == (ProcessorView {
                report: ReportView {
                    details: old(self)@.report.details.push(entry@),
                    ..old(self)@.report
                },
                ..old(self)@
            }),
    {
        self.enter(entry);
    }

    /// Takes note that the channel of the messages closed.
    pub fn close_messages(&mut self)
        requires
            old(self).wf(),
        ensures
            final(self).wf(),
            final(self)@ == (ProcessorView { messages_open: false, ..old(self)@ }),
    {
        self.is_msg_open = false;
    }

    /// Takes note that the channel of the report entries closed.
    pub fn close_reports(&mut self)
        requires
            old(self).wf(),
        ensures
            final(self).wf(),
            final(self)@ == (ProcessorView { reports_open: false, ..old(self)@ }),
    {
        self.is_report_open = false;
    }

    /// Takes an event.
    pub fn step(&mut self, event: Event<E>)
        requires
            old(self).wf(),
            old(self)@.listens_to(event@),
            event@ matches EventView::Message(message) ==> old(self)@.fits(message),
        ensures
            final(self).wf(),
            final(self)@ == old(self)@.advanced(event@),
    {
        match event {
            Event::Message(message) => self.receive_message(message),
            Event::MessagesClosed => self.close_messages(),
            Event::Report(entry) => self.receive_report(entry),
            Event::ReportsClosed => self.close_reports(),
            Event::Path(path) => self.receive_path(path),
        }
    }

    /// Ends the run: what is to be written on the console, and what was counted
    /// and reported.
    pub fn finish(self, verbose: bool) -> (finished: (Vec<ConsoleLine<E>>, Totals))
        requires
            self.wf(),
            self@.awaited() == Awaited::Nothing,
        ensures
            finished.0@.map_values(|line: ConsoleLine<E>| line@) == self@.output(verbose),
            finished.1.errors == self@.errors,
            finished.1.warnings == self@.warnings,
            finished.1.report@ == self@.report,
    {
        let ghost state = self@;
        let MessageProcessor {
            mode,
            not_printed_diagnostics,
            total_skipped_suggested_fixes,
            diagnostics_to_print,
            errors,
            warnings,
            report,
            ..
        } = self;
        let mut lines: Vec<ConsoleLine<E>> = Vec::new();
        let ghost shown = state.to_print.map_values(
            |diagnostic: PrintedView<E>| ConsoleLineView::Error { diagnostic, verbose },
        );
        for diagnostic in it: diagnostics_to_print.into_iter()
            invariant
                it.seq().map_values(|printed: Printed<E>| printed@) == state.to_print,
                shown == state.to_print.map_values(
                    |diagnostic: PrintedView<E>| ConsoleLineView::Error { diagnostic, verbose },
                ),
                lines@.map_values(|line: ConsoleLine<E>| line@) == shown.take(it.index() as int),
        {
            let ghost i = it.index() as int;
            let ghost written = lines@;
            let line = ConsoleLine::Error { diagnostic, verbose };
            lines.push(line);
            proof {
                assert(state.to_print[i] == diagnostic@);
                assert(shown[i] == line@);
                assert(lines@.map_values(|line: ConsoleLine<E>| line@) =~= written.map_values(
                    |line: ConsoleLine<E>| line@,
                ).push(line@));
                assert(shown.take(i + 1) =~= shown.take(i).push(shown[i]));
            }
        }
        assert(shown.take(shown.len() as int) =~= shown);
        let ghost diagnostic_lines = lines@;
        if mode.is_check() && total_skipped_suggested_fixes > 0 {
            lines.push(
                ConsoleLine::Log(crate::output::skipped_fixes_markup(total_skipped_suggested_fixes)),
            );
        }
        if !mode.is_ci() && not_printed_diagnostics > 0 {
            lines.push(ConsoleLine::Log(crate::output::not_shown_markup(not_printed_diagnostics)));
        }
        proof {
            let written = diagnostic_lines.map_values(|line: ConsoleLine<E>| line@);
            assert(written == shown);
            assert(lines@.map_values(|line: ConsoleLine<E>| line@) =~= state.output(verbose));
        }
        (lines, Totals { errors, warnings, report })
    }
}

/// What was counted and reported over a whole run.
#[derive(Debug)]
pub struct Totals {
    pub errors: usize,
    pub warnings: usize,
    pub report: Report,
}

/// The diagnostics of one file are counted with their message, not once they
/// are printed.
pub proof fn lemma_listed_shown<E>(
    state: ProcessorView<E>,
    name: Seq<char>,
    content: Seq<char>,
    diagnostics: Seq<DiagnosticView<E>>,
)
    requires
        state.printed <= state.max_diagnostics,
    ensures
        crate::finding::lone_errors(
            state.shown(crate::finding::listed(name, content, diagnostics)),
        ) == 0,
{
    crate::finding::lemma_lone_errors_none(
        state.shown(crate::finding::listed(name, content, diagnostics)),
    );
}

/// No findings change nothing.
pub proof fn lemma_nothing_offered<E>(state: ProcessorView<E>)
    requires
        state.printed <= state.max_diagnostics,
    ensures
        state.offered(Seq::empty()) == state,
{
    let none = Seq::<Finding<E>>::empty();
    assert(none.take(0) =~= none);
    crate::finding::lemma_lone_errors_none(none);
    assert(crate::finding::all_printed(none, state.mode.ci()) =~= Seq::empty());
    assert(state.offered(none) =~= state);
}

/// The effect of one finding.
pub proof fn lemma_single<E>(state: ProcessorView<E>, finding: Finding<E>)
    ensures
        crate::finding::all_entries(seq![finding]) == finding.entries(),
        crate::finding::all_printed(state.shown(seq![finding]), state.mode.ci())
            == if state.report_to_terminal && state.places(1) == 1 {
            seq![finding.printed(state.mode.ci())]
        } else {
            Seq::empty()
        },
        crate::finding::lone_errors(state.shown(seq![finding])) == if state.report_to_terminal
            && state.places(1) == 1 && finding.lone_error() {
            1nat
        } else {
            0nat
        },
{
    let none = Seq::<Finding<E>>::empty();
    crate::finding::lemma_lone_errors_push(none, finding);
    assert(none.push(finding) =~= seq![finding]);
    assert(seq![finding].take(1) =~= seq![finding]);
    assert(seq![finding].take(0) =~= none);
    reveal_with_fuel(crate::finding::all_entries, 2);
    assert(crate::finding::all_entries(seq![finding]) =~= finding.entries());
    assert(crate::finding::all_printed(seq![finding], state.mode.ci()) =~= seq![
        finding.printed(state.mode.ci()),
    ]);
    assert(crate::finding::all_printed(none, state.mode.ci()) =~= Seq::empty());
}

} // verus!
