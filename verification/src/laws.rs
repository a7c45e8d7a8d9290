//! What holds of every run, whatever the messages and their order.

use vstd::prelude::*;
use crate::conclusion::{CliDiagnosticView, FileCounts};
use crate::diagnostic::{DiagnosticView, PrintedView, Severity};
use crate::execution::{CliOptions, Execution, TraversalMode};
use crate::finding::Finding;
use crate::handling::FileFeatures;
use crate::message::MessageView;
use crate::output::ConsoleLineView;
use crate::processor::{Awaited, EventView, ProcessorView};
use crate::report::{ReportKindView, ReportView};

verus! {

/// A message, and whether the path of the file it is about was found.
pub struct Settled<E> {
    pub message: MessageView<E>,
    pub named: bool,
}

/// The state after messages, in their order.
pub open spec fn run<E>(state: ProcessorView<E>, settled: Seq<Settled<E>>) -> ProcessorView<E>
    decreases settled.len(),
{
    if settled.len() == 0 {
        state
    } else {
        run(state, settled.drop_last()).settled(settled.last().message, settled.last().named)
    }
}

/// The sum of what each message adds.
pub open spec fn total<E>(settled: Seq<Settled<E>>, amount: spec_fn(Settled<E>) -> nat) -> nat {
    settled.fold_right(|item: Settled<E>, sum: nat| sum + amount(item), 0)
}

/// How many errors the messages add, whether or not they are printed.
pub open spec fn total_errors<E>(settled: Seq<Settled<E>>, ci: bool) -> nat {
    total(settled, |item: Settled<E>| item.message.errors(ci))
}

/// How many warnings the messages add.
pub open spec fn total_warnings<E>(settled: Seq<Settled<E>>) -> nat {
    total(settled, |item: Settled<E>| item.message.warnings())
}

/// How many diagnostics the workers left out.
pub open spec fn total_withheld<E>(settled: Seq<Settled<E>>) -> nat {
    total(settled, |item: Settled<E>| item.message.withheld())
}

/// How many suggested fixes were not applied.
pub open spec fn total_skipped_fixes<E>(settled: Seq<Settled<E>>) -> nat {
    total(settled, |item: Settled<E>| item.message.skipped_fixes())
}

/// How many findings of the messages count against the limit.
pub open spec fn total_findings<E>(settled: Seq<Settled<E>>, ci: bool) -> nat {
    total(settled, |item: Settled<E>| item.message.findings(ci, item.named).len())
}

/// The findings of the messages that count against the limit, in their order.
pub open spec fn all_findings<E>(settled: Seq<Settled<E>>, ci: bool) -> Seq<Finding<E>>
    decreases settled.len(),
{
    if settled.len() == 0 {
        Seq::empty()
    } else {
        all_findings(settled.drop_last(), ci) + settled.last().message.findings(
            ci,
            settled.last().named,
        )
    }
}

/// How many of the findings are errors that were sent on their own.
pub open spec fn total_lone_errors<E>(settled: Seq<Settled<E>>, ci: bool) -> nat {
    total(
        settled,
        |item: Settled<E>| crate::finding::lone_errors(item.message.findings(ci, item.named)),
    )
}

/// A sum over a longer list.
proof fn lemma_total_step<E>(settled: Seq<Settled<E>>, amount: spec_fn(Settled<E>) -> nat)
    requires
        settled.len() > 0,
    ensures
        total(settled, amount) == total(settled.drop_last(), amount) + amount(settled.last()),
{
    let f = |item: Settled<E>, sum: nat| sum + amount(item);
    lemma_fold_shift(settled.drop_last(), amount, amount(settled.last()));
    reveal_with_fuel(Seq::fold_right, 2);
    assert(f(settled.last(), 0) == amount(settled.last()));
    assert(settled.fold_right(f, 0) == settled.drop_last().fold_right(f, f(settled.last(), 0)));
}

proof fn lemma_fold_shift<E>(
    settled: Seq<Settled<E>>,
    amount: spec_fn(Settled<E>) -> nat,
    start: nat,
)
    ensures
        settled.fold_right(|item: Settled<E>, sum: nat| sum + amount(item), start) == total(
            settled,
            amount,
        ) + start,
    decreases settled.len(),
{
    let f = |item: Settled<E>, sum: nat| sum + amount(item);
    if settled.len() > 0 {
        let last = settled.last();
        lemma_fold_shift(settled.drop_last(), amount, start + amount(last));
        lemma_fold_shift(settled.drop_last(), amount, amount(last));
        assert(f(last, start) == start + amount(last));
        assert(f(last, 0) == amount(last));
        assert(settled.fold_right(f, start) == settled.drop_last().fold_right(f, f(last, start)));
        assert(settled.fold_right(f, 0) == settled.drop_last().fold_right(f, f(last, 0)));
    }
}

/// The findings are as many as their count says.
pub proof fn lemma_all_findings_len<E>(settled: Seq<Settled<E>>, ci: bool)
    ensures
        all_findings(settled, ci).len() == total_findings(settled, ci),
    decreases settled.len(),
{
    if settled.len() > 0 {
        lemma_all_findings_len(settled.drop_last(), ci);
        lemma_total_step(
            settled,
            |item: Settled<E>| item.message.findings(ci, item.named).len(),
        );
    }
}

/// The errors that were sent on their own are as many as their count says.
proof fn lemma_all_lone_errors<E>(settled: Seq<Settled<E>>, ci: bool)
    ensures
        crate::finding::lone_errors(all_findings(settled, ci)) == total_lone_errors(settled, ci),
    decreases settled.len(),
{
    if settled.len() > 0 {
        let before = settled.drop_last();
        lemma_all_lone_errors(before, ci);
        lemma_total_step(
            settled,
            |item: Settled<E>| crate::finding::lone_errors(item.message.findings(ci, item.named)),
        );
        crate::finding::lemma_lone_errors_add(
            all_findings(before, ci),
            settled.last().message.findings(ci, settled.last().named),
        );
    } else {
        crate::finding::lemma_lone_errors_none(all_findings(settled, ci));
    }
}

/// What is printed of the findings of a run is what is printed of the earlier
/// ones, then of the last ones.
proof fn lemma_shown_step<E>(
    state: ProcessorView<E>,
    middle: ProcessorView<E>,
    earlier: Seq<Finding<E>>,
    new: Seq<Finding<E>>,
)
    requires
        state.printed <= state.max_diagnostics,
        middle.report_to_terminal == state.report_to_terminal,
        middle.max_diagnostics == state.max_diagnostics,
        middle.printed == state.printed + state.places(earlier.len()),
    ensures
        state.shown(earlier + new) == state.shown(earlier) + middle.shown(new),
{
    let all = state.places((earlier + new).len()) as int;
    let a = state.places(earlier.len()) as int;
    let b = middle.places(new.len()) as int;
    assert((earlier + new).take(all) =~= earlier.take(a) + new.take(b));
    assert(state.shown(earlier + new) =~= state.shown(earlier) + middle.shown(new));
}

/// Over a whole run the counts are sums over the messages, the limit works as if
/// all the findings had come at once, and an error that was sent on its own is
/// counted exactly if it is among the findings that are printed.
pub proof fn law_counts<E>(state: ProcessorView<E>, settled: Seq<Settled<E>>)
    requires
        state.printed <= state.max_diagnostics,
    ensures
        ({
            let ci = state.mode.ci();
            let after = run(state, settled);
            let findings = total_findings(settled, ci);
            &&& after.errors == state.errors + total_errors(settled, ci)
                + crate::finding::lone_errors(state.shown(all_findings(settled, ci)))
            &&& after.warnings == state.warnings + total_warnings(settled)
            &&& after.skipped_fixes == state.skipped_fixes + total_skipped_fixes(settled)
            &&& after.printed == state.printed + state.places(findings)
            &&& after.not_printed == state.not_printed + total_withheld(settled) + findings
                - state.places(findings)
            &&& after.mode == state.mode
            &&& after.report_to_terminal == state.report_to_terminal
            &&& after.max_diagnostics == state.max_diagnostics
            &&& after.paths == state.paths
            &&& after.messages_open == state.messages_open
            &&& after.reports_open == state.reports_open
            &&& after.pending == state.pending
        }),
    decreases settled.len(),
{
    let ci = state.mode.ci();
    if settled.len() > 0 {
        let before = settled.drop_last();
        let new = settled.last().message.findings(ci, settled.last().named);
        let middle = run(state, before);
        law_counts(state, before);
        lemma_all_findings_len(before, ci);
        lemma_shown_step(state, middle, all_findings(before, ci), new);
        crate::finding::lemma_lone_errors_add(
            state.shown(all_findings(before, ci)),
            middle.shown(new),
        );
        assert(middle.counted(settled.last().message).shown(new) == middle.shown(new));
        lemma_total_step(settled, |item: Settled<E>| item.message.errors(ci));
        lemma_total_step(settled, |item: Settled<E>| item.message.warnings());
        lemma_total_step(settled, |item: Settled<E>| item.message.skipped_fixes());
        lemma_total_step(settled, |item: Settled<E>| item.message.withheld());
        lemma_total_step(
            settled,
            |item: Settled<E>| item.message.findings(ci, item.named).len(),
        );
    } else {
        crate::finding::lemma_lone_errors_none(state.shown(all_findings(settled, ci)));
    }
}

/// A run prints as many of its findings as it may, counts all the others, and
/// loses none.
pub proof fn law_limit<E>(
    mode: TraversalMode,
    report_to_terminal: bool,
    max_diagnostics: nat,
    settled: Seq<Settled<E>>,
)
    ensures
        ({
            let after = run(
                ProcessorView::<E>::start(mode, report_to_terminal, max_diagnostics),
                settled,
            );
            let findings = total_findings(settled, mode.ci());
            &&& after.printed == if findings <= max_diagnostics {
                findings
            } else {
                max_diagnostics
            }
            &&& after.printed + after.not_printed == findings + total_withheld(settled)
            &&& after.room() == max_diagnostics - after.printed
        }),
{
    law_counts(ProcessorView::<E>::start(mode, report_to_terminal, max_diagnostics), settled);
}

/// On the terminal, outside continuous integration, a run prints exactly its
/// first findings, in the order in which they came, and never more than it may.
pub proof fn law_first_findings_are_printed<E>(
    state: ProcessorView<E>,
    settled: Seq<Settled<E>>,
)
    requires
        state.printed <= state.max_diagnostics,
        state.report_to_terminal,
        !state.mode.ci(),
    ensures
        ({
            let findings = all_findings(settled, false);
            let places = state.places(findings.len());
            &&& run(state, settled).to_print == state.to_print + crate::finding::all_printed(
                findings.take(places as int),
                false,
            )
            &&& run(state, settled).to_print.len() <= state.to_print.len() + state.room()
            &&& run(state, settled).report == state.report
        }),
    decreases settled.len(),
{
    lemma_all_findings_len(settled, false);
    let findings = all_findings(settled, false);
    let places = state.places(findings.len()) as int;
    if settled.len() > 0 {
        let before = settled.drop_last();
        let last = settled.last();
        law_first_findings_are_printed(state, before);
        law_counts(state, before);
        lemma_all_findings_len(before, false);
        let earlier = all_findings(before, false);
        let new = last.message.findings(false, last.named);
        let middle = run(state, before);
        let a = state.places(earlier.len()) as int;
        let b = middle.places(new.len()) as int;
        assert(last.message.unlimited(false) =~= Seq::empty());
        assert(middle.counted(last.message).to_print =~= middle.to_print);
        assert(crate::finding::all_printed(findings.take(places), false)
            =~= crate::finding::all_printed(earlier.take(a), false) + crate::finding::all_printed(
            new.take(b),
            false,
        ));
        assert(run(state, settled).to_print =~= state.to_print + crate::finding::all_printed(
            findings.take(places),
            false,
        ));
    } else {
        assert(run(state, settled).to_print =~= state.to_print + crate::finding::all_printed(
            findings.take(places),
            false,
        ));
    }
}

/// Away from the terminal, the report holds an entry for every finding that has
/// one, in the order in which they came: the limit does not bear on it.
pub proof fn law_report_is_not_limited<E>(state: ProcessorView<E>, settled: Seq<Settled<E>>)
    requires
        state.printed <= state.max_diagnostics,
        !state.report_to_terminal,
    ensures
        run(state, settled).report == (ReportView {
            details: state.report.details + crate::finding::all_entries(
                all_findings(settled, state.mode.ci()),
            ),
            ..state.report
        }),
        !state.mode.ci() ==> run(state, settled).to_print == state.to_print,
    decreases settled.len(),
{
    let ci = state.mode.ci();
    if settled.len() > 0 {
        let before = settled.drop_last();
        let last = settled.last();
        law_report_is_not_limited(state, before);
        law_counts(state, before);
        crate::processor::lemma_entries_add(
            all_findings(before, ci),
            last.message.findings(ci, last.named),
        );
        if !ci {
            assert(last.message.unlimited(ci) =~= Seq::empty());
            assert(run(state, settled).to_print =~= state.to_print);
        }
    }
    assert(run(state, settled).report.details =~= state.report.details
        + crate::finding::all_entries(all_findings(settled, ci)));
}

/// What is printed of the messages whatever the limit, in their order: in
/// continuous integration, each diagnostic of a file with the name and the
/// content of the file.
pub open spec fn all_unlimited<E>(settled: Seq<Settled<E>>, ci: bool) -> Seq<PrintedView<E>>
    decreases settled.len(),
{
    if settled.len() == 0 {
        Seq::empty()
    } else {
        all_unlimited(settled.drop_last(), ci) + settled.last().message.unlimited(ci)
    }
}

/// What is printed together with the content of its file.
pub open spec fn with_source_code<E>(printed: Seq<PrintedView<E>>) -> Seq<PrintedView<E>> {
    printed.filter(
        |item: PrintedView<E>| item matches PrintedView::Diagnostic { source_code: Some(_), .. },
    )
}

/// Where everything has the content of its file, all of it is kept; where
/// nothing has, nothing is.
proof fn lemma_with_source_code<E>(printed: Seq<PrintedView<E>>)
    ensures
        (forall|i: int|
            0 <= i < printed.len() ==> #[trigger] printed[i] matches PrintedView::Diagnostic {
                source_code: Some(_),
                ..
            }) ==> with_source_code(printed) == printed,
        (forall|i: int|
            0 <= i < printed.len() ==> !(#[trigger] printed[i] matches PrintedView::Diagnostic {
                source_code: Some(_),
                ..
            })) ==> with_source_code(printed) == Seq::<PrintedView<E>>::empty(),
    decreases printed.len(),
{
    reveal(Seq::filter);
    if printed.len() > 0 {
        let before = printed.drop_last();
        lemma_with_source_code(before);
        assert(forall|i: int| 0 <= i < before.len() ==> #[trigger] before[i] == printed[i]);
        assert(printed[printed.len() - 1] == printed.last());
        assert(printed =~= before.push(printed.last()));
    }
}

/// In continuous integration what is printed with the content of its file is
/// every diagnostic that came with the others of its file, once each and in the
/// order in which they came, whatever the limit and wherever the run reports to;
/// and the run never says that diagnostics are not shown.
pub proof fn law_ci_prints_every_listed_diagnostic<E>(
    state: ProcessorView<E>,
    settled: Seq<Settled<E>>,
    verbose: bool,
)
    requires
        state.printed <= state.max_diagnostics,
        state.mode.ci(),
    ensures
        with_source_code(run(state, settled).to_print) == with_source_code(state.to_print)
            + all_unlimited(settled, true),
        run(state, settled).output(verbose).len() == run(state, settled).to_print.len(),
    decreases settled.len(),
{
    law_counts(state, settled);
    let after = run(state, settled);
    if settled.len() > 0 {
        let before = settled.drop_last();
        let last = settled.last();
        law_ci_prints_every_listed_diagnostic(state, before, verbose);
        law_counts(state, before);
        let middle = run(state, before);
        let unlimited = last.message.unlimited(true);
        let rest = after.to_print.skip((middle.to_print.len() + unlimited.len()) as int);
        assert(after.to_print =~= (middle.to_print + unlimited) + rest);
        lemma_with_source_code(unlimited);
        lemma_with_source_code(rest);
        let has_source_code = |item: PrintedView<E>|
            item matches PrintedView::Diagnostic { source_code: Some(_), .. };
        Seq::filter_distributes_over_add(middle.to_print + unlimited, rest, has_source_code);
        Seq::filter_distributes_over_add(middle.to_print, unlimited, has_source_code);
    }
    assert(with_source_code(after.to_print) =~= with_source_code(state.to_print) + all_unlimited(
        settled,
        true,
    ));
}

/// The order in which messages come does not change how many warnings a run
/// counts, nor how many findings it prints and leaves out. It changes how many
/// errors it counts only by the errors that were sent on their own, which are
/// counted where they are printed: not at all if they all are printed or none
/// is, if there are none, or if there is nothing else to print. The run then
/// also ends in the same way.
pub proof fn law_order_does_not_matter<E>(
    state: ProcessorView<E>,
    one: Seq<Settled<E>>,
    other: Seq<Settled<E>>,
    execution: Execution,
    options: CliOptions,
    files: FileCounts,
)
    requires
        state.printed <= state.max_diagnostics,
        one.to_multiset() == other.to_multiset(),
    ensures
        run(state, one).warnings == run(state, other).warnings,
        run(state, one).skipped_fixes == run(state, other).skipped_fixes,
        run(state, one).printed == run(state, other).printed,
        run(state, one).not_printed == run(state, other).not_printed,
        run(state, one).errors - run(state, other).errors == crate::finding::lone_errors(
            state.shown(all_findings(one, state.mode.ci())),
        ) - crate::finding::lone_errors(state.shown(all_findings(other, state.mode.ci()))),
        ({
            let findings = total_findings(one, state.mode.ci());
            let lone = total_lone_errors(one, state.mode.ci());
            ||| !state.report_to_terminal
            ||| state.room() == 0
            ||| findings <= state.room()
            ||| lone == 0
            ||| lone == findings
        }) ==> run(state, one).errors == run(state, other).errors,
        (run(state, one).errors == 0) == (run(state, other).errors == 0)
            ==> crate::conclusion::exit_status(
            execution,
            options,
            files,
            run(state, one).errors,
            run(state, one).warnings,
        ) == crate::conclusion::exit_status(
            execution,
            options,
            files,
            run(state, other).errors,
            run(state, other).warnings,
        ),
{
    let ci = state.mode.ci();
    law_counts(state, one);
    law_counts(state, other);
    lemma_total_permutation(one, other, |item: Settled<E>| item.message.errors(ci));
    lemma_total_permutation(one, other, |item: Settled<E>| item.message.warnings());
    lemma_total_permutation(one, other, |item: Settled<E>| item.message.skipped_fixes());
    lemma_total_permutation(one, other, |item: Settled<E>| item.message.withheld());
    lemma_total_permutation(
        one,
        other,
        |item: Settled<E>| item.message.findings(ci, item.named).len(),
    );
    lemma_total_permutation(
        one,
        other,
        |item: Settled<E>| crate::finding::lone_errors(item.message.findings(ci, item.named)),
    );
    lemma_lone_errors_shown(state, one);
    lemma_lone_errors_shown(state, other);
}

/// How many of the errors that were sent on their own are printed, where the
/// order of the findings does not bear on it.
proof fn lemma_lone_errors_shown<E>(state: ProcessorView<E>, settled: Seq<Settled<E>>)
    requires
        state.printed <= state.max_diagnostics,
    ensures
        ({
            let ci = state.mode.ci();
            let findings = total_findings(settled, ci);
            let lone = total_lone_errors(settled, ci);
            let shown = crate::finding::lone_errors(state.shown(all_findings(settled, ci)));
            &&& !state.report_to_terminal || state.room() == 0 || lone == 0 ==> shown == 0
            &&& state.report_to_terminal && findings <= state.room() ==> shown == lone
            &&& state.report_to_terminal && lone == findings ==> shown == state.places(findings)
        }),
{
    let ci = state.mode.ci();
    let findings = all_findings(settled, ci);
    let places = state.places(findings.len()) as int;
    let first = findings.take(places);
    let rest = findings.skip(places);
    lemma_all_findings_len(settled, ci);
    lemma_all_lone_errors(settled, ci);
    assert(findings =~= first + rest);
    crate::finding::lemma_lone_errors_add(first, rest);
    crate::finding::lemma_lone_errors_none(first);
    crate::finding::lemma_lone_errors_none(rest);
    crate::finding::lemma_lone_errors_none(Seq::<Finding<E>>::empty());
    if findings.len() <= state.room() {
        assert(first =~= findings);
    }
}

proof fn lemma_total_permutation<E>(
    one: Seq<Settled<E>>,
    other: Seq<Settled<E>>,
    amount: spec_fn(Settled<E>) -> nat,
)
    requires
        one.to_multiset() == other.to_multiset(),
    ensures
        total(one, amount) == total(other, amount),
{
    let f = |item: Settled<E>, sum: nat| sum + amount(item);
    assert(vstd::seq_lib::commutative_foldr(f));
    vstd::seq_lib::lemma_fold_right_permutation(one, other, f, 0nat);
}

/// A sum is zero exactly if everything in it is.
proof fn lemma_total_zero<E>(settled: Seq<Settled<E>>, amount: spec_fn(Settled<E>) -> nat)
    ensures
        total(settled, amount) == 0 <==> forall|i: int|
            0 <= i < settled.len() ==> amount(#[trigger] settled[i]) == 0,
    decreases settled.len(),
{
    if settled.len() > 0 {
        let before = settled.drop_last();
        lemma_total_zero(before, amount);
        lemma_total_step(settled, amount);
        if total(settled, amount) == 0 {
            assert forall|i: int| 0 <= i < settled.len() implies amount(#[trigger] settled[i])
                == 0 by {
                if i < before.len() {
                    assert(before[i] == settled[i]);
                }
            }
        }
        if forall|i: int| 0 <= i < settled.len() ==> amount(#[trigger] settled[i]) == 0 {
            assert forall|i: int| 0 <= i < before.len() implies amount(#[trigger] before[i])
                == 0 by {
                assert(before[i] == settled[i]);
            }
            assert(amount(settled[settled.len() - 1]) == 0);
        }
    }
}

/// A diagnostic that is an error is among what is printed.
pub open spec fn shows_error<E>(printed: Seq<PrintedView<E>>) -> bool {
    exists|i: int|
        0 <= i < printed.len() && (#[trigger] printed[i] matches PrintedView::Diagnostic {
            diagnostic,
            ..
        } && diagnostic.severity == Severity::Error)
}

proof fn lemma_shows_error_add<E>(first: Seq<PrintedView<E>>, second: Seq<PrintedView<E>>)
    ensures
        shows_error(first + second) == (shows_error(first) || shows_error(second)),
{
    let both = first + second;
    assert(forall|i: int| 0 <= i < first.len() ==> both[i] == #[trigger] first[i]);
    assert(forall|i: int|
        0 <= i < second.len() ==> both[first.len() + i] == #[trigger] second[i]);
}

/// What one message prints, and the errors it adds: where it adds none whether or
/// not it is printed, it adds one exactly if an error is printed of it.
proof fn lemma_errors_step<E>(state: ProcessorView<E>, message: MessageView<E>, named: bool)
    requires
        state.printed <= state.max_diagnostics,
    ensures
        ({
            let ci = state.mode.ci();
            let shown = state.shown(message.findings(ci, named));
            let new = message.unlimited(ci) + crate::finding::all_printed(shown, ci);
            let after = state.settled(message, named);
            &&& after.to_print == state.to_print + new
            &&& after.errors == state.errors + message.errors(ci) + crate::finding::lone_errors(
                shown,
            )
            &&& message.errors(ci) == 0 ==> (crate::finding::lone_errors(shown) == 0
                <==> !shows_error(new))
        }),
{
    let ci = state.mode.ci();
    let findings = message.findings(ci, named);
    let shown = state.shown(findings);
    let printed = crate::finding::all_printed(shown, ci);
    let new = message.unlimited(ci) + printed;
    let after = state.settled(message, named);
    assert(state.counted(message).shown(findings) == shown);
    assert(after.to_print =~= state.to_print + new);
    crate::finding::lemma_lone_errors_none(shown);
    if message.errors(ci) == 0 {
        match message {
            MessageView::Diagnostics { diagnostics, .. } => {
                law_count_is_zero(diagnostics, Severity::Error);
                assert forall|i: int| 0 <= i < new.len() implies (
                #[trigger] new[i])->Diagnostic_diagnostic.severity != Severity::Error by {
                    assert(diagnostics[i].severity != Severity::Error);
                }
                assert(!shows_error(new));
            },
            _ => {
                assert(new =~= printed);
                if shows_error(new) {
                    let i = choose|i: int|
                        0 <= i < new.len() && (#[trigger] new[i] matches PrintedView::Diagnostic {
                            diagnostic,
                            ..
                        } && diagnostic.severity == Severity::Error);
                    assert(shown[i].lone_error());
                }
                if crate::finding::lone_errors(shown) != 0 {
                    let i = choose|i: int| 0 <= i < shown.len() && (#[trigger] shown[i]).lone_error();
                    assert(new[i] == shown[i].printed(ci));
                }
            },
        }
    }
}

/// A run has no errors exactly if none of its messages adds one and no diagnostic
/// that is an error is printed, and no warnings exactly if none adds one.
pub proof fn law_no_errors<E>(state: ProcessorView<E>, settled: Seq<Settled<E>>)
    requires
        state.printed <= state.max_diagnostics,
        state.errors == 0,
        state.warnings == 0,
        !shows_error(state.to_print),
    ensures
        run(state, settled).errors == 0 <==> {
            &&& forall|i: int|
                0 <= i < settled.len() ==> (#[trigger] settled[i]).message.errors(state.mode.ci())
                    == 0
            &&& !shows_error(run(state, settled).to_print)
        },
        run(state, settled).warnings == 0 <==> forall|i: int|
            0 <= i < settled.len() ==> (#[trigger] settled[i]).message.warnings() == 0,
    decreases settled.len(),
{
    law_counts(state, settled);
    lemma_total_zero(settled, |item: Settled<E>| item.message.warnings());
    if settled.len() > 0 {
        let before = settled.drop_last();
        let last = settled.last();
        let ci = state.mode.ci();
        let middle = run(state, before);
        law_no_errors(state, before);
        law_counts(state, before);
        lemma_errors_step(middle, last.message, last.named);
        lemma_shows_error_add(
            middle.to_print,
            last.message.unlimited(ci) + crate::finding::all_printed(
                middle.shown(last.message.findings(ci, last.named)),
                ci,
            ),
        );
        if run(state, settled).errors == 0 {
            assert forall|i: int| 0 <= i < settled.len() implies (
            #[trigger] settled[i]).message.errors(ci) == 0 by {
                if i < before.len() {
                    assert(before[i] == settled[i]);
                }
            }
        }
        if forall|i: int|
            0 <= i < settled.len() ==> (#[trigger] settled[i]).message.errors(ci) == 0 {
            assert forall|i: int| 0 <= i < before.len() implies (
            #[trigger] before[i]).message.errors(ci) == 0 by {
                assert(before[i] == settled[i]);
            }
            assert(settled[settled.len() - 1].message.errors(ci) == 0);
        }
    }
}

/// A list of diagnostics counts as free of a severity exactly if none of them
/// has it.
pub proof fn law_count_is_zero<E>(diagnostics: Seq<DiagnosticView<E>>, severity: Severity)
    ensures
        crate::finding::count(diagnostics, severity) == 0 <==> forall|i: int|
            0 <= i < diagnostics.len() ==> (#[trigger] diagnostics[i]).severity != severity,
    decreases diagnostics.len(),
{
    if diagnostics.len() > 0 {
        let before = diagnostics.drop_last();
        law_count_is_zero(before, severity);
        assert(diagnostics =~= before.push(diagnostics.last()));
        crate::finding::lemma_count_push(before, diagnostics.last(), severity);
        if crate::finding::count(diagnostics, severity) == 0 {
            assert forall|i: int| 0 <= i < diagnostics.len() implies (
            #[trigger] diagnostics[i]).severity != severity by {
                if i < before.len() {
                    assert(before[i] == diagnostics[i]);
                }
            }
        }
        if forall|i: int|
            0 <= i < diagnostics.len() ==> (#[trigger] diagnostics[i]).severity != severity {
            assert forall|i: int| 0 <= i < before.len() implies (
            #[trigger] before[i]).severity != severity by {
                assert(before[i] == diagnostics[i]);
            }
            assert(diagnostics[diagnostics.len() - 1].severity != severity);
        }
    } else {
        reveal(Seq::filter);
    }
}

/// At the end of a run outside continuous integration, the notice on diagnostics
/// that are not shown is written exactly if there were more findings than may be
/// printed, or a worker left some out.
pub proof fn law_not_shown_notice<E>(
    mode: TraversalMode,
    report_to_terminal: bool,
    max_diagnostics: nat,
    settled: Seq<Settled<E>>,
    verbose: bool,
)
    requires
        !mode.ci(),
    ensures
        ({
            let after = run(
                ProcessorView::<E>::start(mode, report_to_terminal, max_diagnostics),
                settled,
            );
            let exceeded = total_findings(settled, false) > max_diagnostics || total_withheld(
                settled,
            ) > 0;
            &&& exceeded <==> after.not_printed > 0
            &&& exceeded ==> after.output(verbose).last() == ConsoleLineView::<E>::Log(
                crate::output::not_shown_notice(after.not_printed),
            )
            &&& !exceeded ==> after.output(verbose).len() == after.to_print.len() + (if mode.check()
                && after.skipped_fixes > 0 {
                1int
            } else {
                0int
            })
        }),
{
    law_limit::<E>(mode, report_to_terminal, max_diagnostics, settled);
    law_counts(ProcessorView::<E>::start(mode, report_to_terminal, max_diagnostics), settled);
}

/// Whether the path of its file was found changes nothing about a diagnostic but
/// the path that is attached to it when it is printed: every count and the
/// report are the same.
pub proof fn law_lookup_is_neutral<E>(
    state: ProcessorView<E>,
    message: MessageView<E>,
    named: bool,
)
    requires
        state.printed <= state.max_diagnostics,
    ensures
        state.settled(message, named) == (ProcessorView {
            to_print: state.settled(message, named).to_print,
            ..state.settled(message, !named)
        }),
        state.settled(message, named).to_print.len() == state.settled(
            message,
            !named,
        ).to_print.len(),
        !state.report_to_terminal ==> state.settled(message, named) == state.settled(
            message,
            !named,
        ),
{
    let ci = state.mode.ci();
    let one = message.findings(ci, named);
    let other = message.findings(ci, !named);
    reveal_with_fuel(crate::finding::all_entries, 2);
    assert(crate::finding::all_entries(one) =~= crate::finding::all_entries(other));
    if message is Error {
        let none = Seq::<Finding<E>>::empty();
        crate::finding::lemma_lone_errors_push(none, one[0]);
        crate::finding::lemma_lone_errors_push(none, other[0]);
        assert(one =~= none.push(one[0]) && other =~= none.push(other[0]));
        assert(one.take(1) =~= one && other.take(1) =~= other);
        assert(one.take(0) =~= none && other.take(0) =~= none);
    }
    assert(state.settled(message, named) =~= (ProcessorView {
        to_print: state.settled(message, named).to_print,
        ..state.settled(message, !named)
    }));
}

/// The state after several file paths, in their order.
pub open spec fn paths_received<E>(
    state: ProcessorView<E>,
    paths: Seq<Seq<char>>,
) -> ProcessorView<E>
    decreases paths.len(),
{
    if paths.len() == 0 {
        state
    } else {
        paths_received(state, paths.drop_last()).path_received(Some(paths.last()))
    }
}

/// Other paths keep a diagnostic waiting, and are remembered.
pub proof fn law_other_paths_are_remembered<E>(
    state: ProcessorView<E>,
    paths: Seq<Seq<char>>,
)
    requires
        state.pending is Some,
        forall|i: int| 0 <= i < paths.len() ==> state.pending->0.file() != Some(#[trigger] paths[i]),
    ensures
        paths_received(state, paths) == (ProcessorView {
            paths: state.paths.union(paths.to_set()),
            ..state
        }),
    decreases paths.len(),
{
    if paths.len() > 0 {
        let before = paths.drop_last();
        assert forall|i: int| 0 <= i < before.len() implies state.pending->0.file() != Some(
            #[trigger] before[i],
        ) by {
            assert(before[i] == paths[i]);
        }
        law_other_paths_are_remembered(state, before);
        assert(state.pending->0.file() != Some(paths[paths.len() - 1]));
        assert forall|path: Seq<char>|
            state.paths.union(before.to_set()).insert(paths.last()).contains(path)
                == state.paths.union(paths.to_set()).contains(path) by {
            if paths.contains(path) {
                let i = choose|i: int| 0 <= i < paths.len() && paths[i] == path;
                if i < before.len() {
                    assert(before[i] == path);
                }
            }
            if before.contains(path) {
                let i = choose|i: int| 0 <= i < before.len() && before[i] == path;
                assert(paths[i] == path);
            }
            if path == paths.last() {
                assert(paths[paths.len() - 1] == path);
            }
        }
        assert(state.paths.union(before.to_set()).insert(paths.last()) =~= state.paths.union(
            paths.to_set(),
        ));
    } else {
        assert(state.paths.union(paths.to_set()) =~= state.paths);
        assert(paths_received(state, paths) =~= (ProcessorView {
            paths: state.paths.union(paths.to_set()),
            ..state
        }));
    }
}

/// A diagnostic that had to wait ends as if it had not: once its path comes it
/// is settled with the path, once the channel of the paths closes it is settled
/// without, and only the paths that came are known in addition.
pub proof fn law_waiting_settles<E>(
    state: ProcessorView<E>,
    diagnostic: DiagnosticView<E>,
    paths: Seq<Seq<char>>,
)
    requires
        state.pending is None,
        state.must_wait(MessageView::Error(diagnostic)),
        forall|i: int| 0 <= i < paths.len() ==> diagnostic.file() != Some(#[trigger] paths[i]),
    ensures
        ({
            let message = MessageView::Error(diagnostic);
            let path = diagnostic.file()->0;
            let waiting = paths_received(state.received(message), paths);
            let known = state.paths.union(paths.to_set());
            &&& waiting.awaited() == Awaited::Path
            &&& waiting.path_received(Some(path)) == (ProcessorView {
                paths: known.insert(path),
                ..state
            }).settled(message, true)
            &&& waiting.path_received(None) == (ProcessorView { paths: known, ..state }).settled(
                message,
                false,
            )
        }),
{
    let message = MessageView::Error(diagnostic);
    let path = diagnostic.file()->0;
    law_other_paths_are_remembered(state.received(message), paths);
    let waiting = paths_received(state.received(message), paths);
    let known = state.paths.union(paths.to_set());
    assert((ProcessorView { pending: None, paths: known.insert(path), ..waiting })
        =~= (ProcessorView { paths: known.insert(path), ..state }));
    assert((ProcessorView { pending: None, ..waiting }) =~= (ProcessorView {
        paths: known,
        ..state
    }));
}

/// A path that came is known from there on: whatever happens next, no message
/// about that file has to wait.
pub proof fn law_known_paths_stay_known<E>(
    state: ProcessorView<E>,
    event: EventView<E>,
    path: Seq<char>,
    diagnostic: DiagnosticView<E>,
)
    requires
        state.paths.contains(path),
        diagnostic.file() == Some(path),
    ensures
        state.advanced(event).paths.contains(path),
        !state.advanced(event).must_wait(MessageView::Error(diagnostic)),
{
}

/// Where a message had to wait for a path, the path is known once it came.
pub proof fn law_path_becomes_known<E>(state: ProcessorView<E>, path: Seq<char>)
    requires
        state.pending is Some,
    ensures
        state.path_received(Some(path)).paths.contains(path),
{
}

/// The counts of a run never fall, and what it will print is never taken back.
pub proof fn law_progress<E>(state: ProcessorView<E>, event: EventView<E>)
    requires
        state.valid(),
        state.listens_to(event),
    ensures
        ({
            let after = state.advanced(event);
            &&& after.printed <= after.max_diagnostics
            &&& after.max_diagnostics == state.max_diagnostics
            &&& after.room() <= state.room()
            &&& after.errors >= state.errors
            &&& after.warnings >= state.warnings
            &&& after.not_printed >= state.not_printed
            &&& after.skipped_fixes >= state.skipped_fixes
            &&& state.to_print.is_prefix_of(after.to_print)
            &&& state.report.details.is_prefix_of(after.report.details)
            &&& state.paths.subset_of(after.paths)
        }),
{
    let after = state.advanced(event);
    assert(state.to_print =~= after.to_print.subrange(0, state.to_print.len() as int));
    assert(state.report.details =~= after.report.details.subrange(
        0,
        state.report.details.len() as int,
    ));
}

/// The run ends once both channels closed and no diagnostic waits, and not
/// before.
pub proof fn law_end<E>(state: ProcessorView<E>)
    ensures
        state.awaited() == Awaited::Nothing <==> !state.messages_open && !state.reports_open
            && state.pending is None,
        state.awaited() == Awaited::Nothing ==> forall|event: EventView<E>|
            !state.listens_to(event),
{
}

/// A run that reports to the terminal succeeds exactly if it processed a file,
/// or need not have, and found neither an error nor a warning that fails it.
pub proof fn law_success(
    execution: Execution,
    options: CliOptions,
    files: FileCounts,
    errors: nat,
    warnings: nat,
)
    ensures
        crate::conclusion::exit_status(execution, options, files, errors, warnings) is Ok <==> (
        files.processed > files.skipped || options.no_errors_on_unmatched) && errors == 0 && (
        warnings == 0 || !options.error_on_warnings),
        files.processed <= files.skipped && !options.no_errors_on_unmatched
            ==> crate::conclusion::exit_status(execution, options, files, errors, warnings) == Err::<
            (),
            CliDiagnosticView,
        >(CliDiagnosticView::NoFilesProcessed),
{
}

/// The state after a history of events.
pub open spec fn history<E>(state: ProcessorView<E>, events: Seq<EventView<E>>) -> ProcessorView<E>
    decreases events.len(),
{
    if events.len() == 0 {
        state
    } else {
        history(state, events.drop_last()).advanced(events.last())
    }
}

/// The console listened to every event of a history.
pub open spec fn possible<E>(state: ProcessorView<E>, events: Seq<EventView<E>>) -> bool
    decreases events.len(),
{
    events.len() > 0 ==> possible(state, events.drop_last()) && history(
        state,
        events.drop_last(),
    ).listens_to(events.last())
}

/// The messages of a history, in their order.
pub open spec fn messages<E>(events: Seq<EventView<E>>) -> Seq<MessageView<E>>
    decreases events.len(),
{
    if events.len() == 0 {
        Seq::empty()
    } else {
        match events.last() {
            EventView::Message(message) => messages(events.drop_last()).push(message),
            _ => messages(events.drop_last()),
        }
    }
}

/// The messages of a history that were settled, in the order in which they were.
pub open spec fn settlements<E>(state: ProcessorView<E>, events: Seq<EventView<E>>) -> Seq<
    Settled<E>,
>
    decreases events.len(),
{
    if events.len() == 0 {
        Seq::empty()
    } else {
        let earlier = settlements(state, events.drop_last());
        let before = history(state, events.drop_last());
        match events.last() {
            EventView::Message(message) => if before.must_wait(message) {
                earlier
            } else {
                earlier.push(Settled { message, named: true })
            },
            EventView::Path(path) => {
                let message = MessageView::Error(before.pending->0);
                match path {
                    Some(path) => if before.pending->0.file() == Some(path) {
                        earlier.push(Settled { message, named: true })
                    } else {
                        earlier
                    },
                    None => earlier.push(Settled { message, named: false }),
                }
            },
            _ => earlier,
        }
    }
}

/// The report entries that the workers of a history sent, in their order.
pub open spec fn sent_entries<E>(events: Seq<EventView<E>>) -> Seq<ReportKindView>
    decreases events.len(),
{
    if events.len() == 0 {
        Seq::empty()
    } else {
        match events.last() {
            EventView::Report(entry) => sent_entries(events.drop_last()).push(entry),
            _ => sent_entries(events.drop_last()),
        }
    }
}

/// The entries that a history adds to the report, event by event: the entry that
/// a worker sent or, away from the terminal, the entries of the message that was
/// settled there.
pub open spec fn entered<E>(state: ProcessorView<E>, events: Seq<EventView<E>>) -> Seq<
    ReportKindView,
>
    decreases events.len(),
{
    if events.len() == 0 {
        Seq::empty()
    } else {
        let earlier = settlements(state, events.drop_last());
        let settled = settlements(state, events);
        entered(state, events.drop_last()) + match events.last() {
            EventView::Report(entry) => seq![entry],
            _ => if !state.report_to_terminal && settled.len() > earlier.len() {
                crate::finding::all_entries(
                    settled.last().message.findings(state.mode.ci(), settled.last().named),
                )
            } else {
                Seq::empty()
            },
        }
    }
}

/// Two states count and print the same.
pub open spec fn counts_agree<E>(one: ProcessorView<E>, other: ProcessorView<E>) -> bool {
    &&& one.mode == other.mode
    &&& one.report_to_terminal == other.report_to_terminal
    &&& one.max_diagnostics == other.max_diagnostics
    &&& one.printed == other.printed
    &&& one.not_printed == other.not_printed
    &&& one.errors == other.errors
    &&& one.warnings == other.warnings
    &&& one.skipped_fixes == other.skipped_fixes
    &&& one.to_print == other.to_print
}

proof fn lemma_settled_agrees<E>(
    one: ProcessorView<E>,
    other: ProcessorView<E>,
    message: MessageView<E>,
    named: bool,
)
    requires
        counts_agree(one, other),
    ensures
        counts_agree(one.settled(message, named), other.settled(message, named)),
        one.report == other.report ==> one.settled(message, named).report == other.settled(
            message,
            named,
        ).report,
        one.report_to_terminal ==> one.settled(message, named).report == one.report,
        one.settled(message, named).pending == one.pending,
{
}

/// How one more event changes the settled messages.
proof fn lemma_settlements_step<E>(state: ProcessorView<E>, events: Seq<EventView<E>>)
    requires
        events.len() > 0,
        history(state, events.drop_last()).listens_to(events.last()),
    ensures
        ({
            let before = history(state, events.drop_last());
            let after = history(state, events);
            let earlier = settlements(state, events.drop_last());
            let settled = settlements(state, events);
            ||| settled == earlier && counts_agree(after, before)
            ||| settled.len() == earlier.len() + 1 && settled.drop_last() == earlier && counts_agree(
                after,
                before.settled(settled.last().message, settled.last().named),
            )
        }),
{
    let before = history(state, events.drop_last());
    let earlier = settlements(state, events.drop_last());
    let settled = settlements(state, events);
    match events.last() {
        EventView::Path(path) => {
            let message = MessageView::Error(before.pending->0);
            let done = ProcessorView { pending: None, ..before };
            lemma_settled_agrees(done, before, message, false);
            match path {
                Some(path) => {
                    let found = ProcessorView {
                        pending: None,
                        paths: before.paths.insert(path),
                        ..before
                    };
                    lemma_settled_agrees(found, before, message, true);
                    if before.pending->0.file() == Some(path) {
                        assert(settled.drop_last() =~= earlier);
                    }
                },
                None => {
                    assert(settled.drop_last() =~= earlier);
                },
            }
        },
        EventView::Message(message) => {
            if !before.must_wait(message) {
                assert(settled.drop_last() =~= earlier);
            }
        },
        _ => {},
    }
}

/// What waits in a state.
pub open spec fn waiting<E>(state: ProcessorView<E>) -> Seq<MessageView<E>> {
    match state.pending {
        Some(diagnostic) => seq![MessageView::Error(diagnostic)],
        None => Seq::empty(),
    }
}

/// Every message of a history is settled, once and in the order in which they
/// came, but for the one that still waits.
pub proof fn law_every_message_is_settled<E>(
    state: ProcessorView<E>,
    events: Seq<EventView<E>>,
)
    requires
        state.pending is None,
        possible(state, events),
    ensures
        settlements(state, events).map_values(|item: Settled<E>| item.message) + waiting(
            history(state, events),
        ) == messages(events),
    decreases events.len(),
{
    let settled = settlements(state, events);
    let said = settled.map_values(|item: Settled<E>| item.message);
    if events.len() > 0 {
        law_every_message_is_settled(state, events.drop_last());
        let before = history(state, events.drop_last());
        let after = history(state, events);
        let earlier = settlements(state, events.drop_last());
        let earlier_said = earlier.map_values(|item: Settled<E>| item.message);
        match events.last() {
            EventView::Message(message) => {
                assert(earlier_said + waiting(before) =~= earlier_said);
                if before.must_wait(message) {
                    assert(said + waiting(after) =~= earlier_said.push(message));
                } else {
                    lemma_settled_agrees(before, before, message, true);
                    assert(said =~= earlier_said.push(message));
                    assert(said + waiting(after) =~= earlier_said.push(message));
                }
            },
            EventView::Path(path) => {
                let message = MessageView::Error(before.pending->0);
                if path is None || before.pending->0.file() == path {
                    assert(said =~= earlier_said.push(message));
                    assert(said + waiting(after) =~= earlier_said + waiting(before));
                } else {
                    assert(said + waiting(after) =~= earlier_said + waiting(before));
                }
            },
            _ => {
                assert(said + waiting(after) =~= earlier_said + waiting(before));
            },
        }
    } else {
        assert(said + waiting(state) =~= messages(events));
    }
}

/// What a run counts and prints is what its settled messages add up to, whatever
/// else happened in between. The report grows, event by event, by the entry that
/// was sent or by those of the message that was settled: on the terminal it holds
/// just what the workers sent for it; elsewhere, where they sent nothing, it
/// holds what the messages entered.
pub proof fn law_history<E>(state: ProcessorView<E>, events: Seq<EventView<E>>)
    requires
        possible(state, events),
    ensures
        counts_agree(history(state, events), run(state, settlements(state, events))),
        history(state, events).report == (ReportView {
            details: state.report.details + entered(state, events),
            ..state.report
        }),
        state.report_to_terminal ==> entered(state, events) == sent_entries(events),
        sent_entries(events).len() == 0 ==> history(state, events).report == run(
            state,
            settlements(state, events),
        ).report,
    decreases events.len(),
{
    if events.len() > 0 {
        law_history(state, events.drop_last());
        lemma_settlements_step(state, events);
        lemma_report_step(state, events);
        let before = history(state, events.drop_last());
        let earlier = settlements(state, events.drop_last());
        let settled = settlements(state, events);
        lemma_run_keeps_mode(state, earlier);
        if settled.len() > earlier.len() {
            lemma_settled_agrees(
                before,
                run(state, earlier),
                settled.last().message,
                settled.last().named,
            );
        }
        assert(state.report_to_terminal ==> entered(state, events) =~= sent_entries(events));
    }
    assert(history(state, events).report.details =~= state.report.details + entered(
        state,
        events,
    ));
}

proof fn lemma_run_keeps_mode<E>(state: ProcessorView<E>, settled: Seq<Settled<E>>)
    ensures
        run(state, settled).mode == state.mode,
        run(state, settled).report_to_terminal == state.report_to_terminal,
    decreases settled.len(),
{
    if settled.len() > 0 {
        lemma_run_keeps_mode(state, settled.drop_last());
    }
}

proof fn lemma_report_step<E>(state: ProcessorView<E>, events: Seq<EventView<E>>)
    requires
        events.len() > 0,
        history(state, events.drop_last()).listens_to(events.last()),
    ensures
        ({
            let before = history(state, events.drop_last());
            let after = history(state, events);
            let earlier = settlements(state, events.drop_last());
            let settled = settlements(state, events);
            &&& settled.len() == earlier.len() && !(events.last() is Report) ==> after.report
                == before.report
            &&& settled.len() > earlier.len() ==> after.report == before.settled(
                settled.last().message,
                settled.last().named,
            ).report
        }),
{
    let before = history(state, events.drop_last());
    match events.last() {
        EventView::Path(path) => {
            let message = MessageView::Error(before.pending->0);
            let done = ProcessorView { pending: None, ..before };
            lemma_settled_agrees(done, before, message, false);
            if path is Some {
                let found = ProcessorView {
                    pending: None,
                    paths: before.paths.insert(path->0),
                    ..before
                };
                lemma_settled_agrees(found, before, message, true);
            }
        },
        _ => {},
    }
}

/// How a whole run on the terminal ends, told from the messages that were sent:
/// it succeeds exactly if it processed a file, or need not have, no message adds
/// an error, no diagnostic that is an error is printed and, where warnings fail
/// the run, no message adds a warning.
pub proof fn law_run_succeeds<E>(
    execution: Execution,
    options: CliOptions,
    files: FileCounts,
    events: Seq<EventView<E>>,
)
    requires
        ({
            let start = ProcessorView::<E>::start(
                execution.traversal_mode,
                execution.report_to_terminal,
                execution.max_diagnostics as nat,
            );
            possible(start, events) && history(start, events).awaited() == Awaited::Nothing
        }),
    ensures
        ({
            let start = ProcessorView::<E>::start(
                execution.traversal_mode,
                execution.report_to_terminal,
                execution.max_diagnostics as nat,
            );
            let after = history(start, events);
            let sent = messages(events);
            let ci = execution.traversal_mode.ci();
            crate::conclusion::exit_status(
                execution,
                options,
                files,
                after.errors,
                after.warnings,
            ) is Ok <==> {
                &&& files.processed > files.skipped || options.no_errors_on_unmatched
                &&& forall|i: int|
                    0 <= i < sent.len() ==> (#[trigger] sent[i]).errors(ci) == 0
                &&& !shows_error(after.to_print)
                &&& options.error_on_warnings ==> forall|i: int|
                    0 <= i < sent.len() ==> (#[trigger] sent[i]).warnings() == 0
            }
        }),
{
    let start = ProcessorView::<E>::start(
        execution.traversal_mode,
        execution.report_to_terminal,
        execution.max_diagnostics as nat,
    );
    let settled = settlements(start, events);
    let after = history(start, events);
    let sent = messages(events);
    let ci = execution.traversal_mode.ci();
    law_every_message_is_settled(start, events);
    law_history(start, events);
    law_no_errors(start, settled);
    law_success(execution, options, files, after.errors, after.warnings);
    let said = settled.map_values(|item: Settled<E>| item.message);
    assert(said + waiting(after) =~= said);
    assert forall|i: int| 0 <= i < sent.len() implies #[trigger] sent[i] == settled[i].message by {
        assert(said[i] == settled[i].message);
    }
    if after.errors == 0 {
        assert forall|i: int| 0 <= i < sent.len() implies (#[trigger] sent[i]).errors(ci) == 0 by {
            assert(sent[i] == settled[i].message);
        }
    }
    if forall|i: int| 0 <= i < sent.len() ==> (#[trigger] sent[i]).errors(ci) == 0 {
        assert forall|i: int| 0 <= i < settled.len() implies (#[trigger] settled[i]).message.errors(
            ci,
        ) == 0 by {
            assert(sent[i] == settled[i].message);
        }
    }
    if after.warnings == 0 {
        assert forall|i: int| 0 <= i < sent.len() implies (#[trigger] sent[i]).warnings()
            == 0 by {
            assert(sent[i] == settled[i].message);
        }
    }
    if forall|i: int| 0 <= i < sent.len() ==> (#[trigger] sent[i]).warnings() == 0 {
        assert forall|i: int| 0 <= i < settled.len() implies (
        #[trigger] settled[i]).message.warnings() == 0 by {
            assert(sent[i] == settled[i].message);
        }
    }
}

/// A check handles every file that the linter or the formatter would handle,
/// continuous integration handles the files of a check, and a migration handles
/// whatever any other mode handles.
pub proof fn law_check_covers(
    features: FileFeatures,
    write: bool,
    other: TraversalMode,
)
    ensures
        crate::handling::concerns(TraversalMode::Lint, features) || crate::handling::concerns(
            TraversalMode::Format { write },
            features,
        ) ==> crate::handling::concerns(TraversalMode::Check, features),
        crate::handling::concerns(TraversalMode::CI, features) == crate::handling::concerns(
            TraversalMode::Check,
            features,
        ),
        crate::handling::concerns(other, features) ==> crate::handling::concerns(
            TraversalMode::Migrate { write },
            features,
        ),
{
}

} // verus!
