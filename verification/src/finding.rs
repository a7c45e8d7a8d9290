//! What one message adds to a run: the counts it raises, and the findings that
//! it brings.

use vstd::prelude::*;
use crate::diagnostic::{
    Diagnostic, DiagnosticView, DiffDiagnostic, DiffKind, PrintedView, Severity,
};
use crate::message::MessageView;
use crate::report::ReportKindView;

verus! {

/// A finding that counts against the number of diagnostics that may be printed.
pub enum Finding<E> {
    /// An error met while applying fixes.
    Failure(E),
    /// A diagnostic that was sent on its own, and the path looked up for it.
    Error { diagnostic: DiagnosticView<E>, file_path: Option<Seq<char>> },
    /// A diagnostic that was sent with the others of its file.
    Listed { name: Seq<char>, content: Seq<char>, diagnostic: DiagnosticView<E> },
    /// A file that differs from its expected content.
    Diff { file_name: Seq<char>, old: Seq<char>, new: Seq<char>, diff_kind: DiffKind },
}

impl<E> Finding<E> {
    /// The finding as it is printed.
    pub open spec fn printed(self, ci: bool) -> PrintedView<E> {
        match self {
            Finding::Failure(error) => PrintedView::Failure(error),
            Finding::Error { diagnostic, file_path } => PrintedView::Diagnostic {
                diagnostic,
                file_path,
                source_code: None,
            },
            Finding::Listed { name, content, diagnostic } => PrintedView::Diagnostic {
                diagnostic,
                file_path: Some(name),
                source_code: Some(content),
            },
            Finding::Diff { file_name, old, new, diff_kind } => PrintedView::Diff {
                form: DiffDiagnostic::of(ci, diff_kind),
                file_name,
                old,
                new,
            },
        }
    }

    /// The entries of the report for the finding: one, except for an error met
    /// while applying fixes, which the report does not show.
    pub open spec fn entries(self) -> Seq<ReportKindView> {
        match self {
            Finding::Failure(_) => Seq::empty(),
            Finding::Error { diagnostic, .. } => seq![
                ReportKindView::of_error(diagnostic, diagnostic.code()),
            ],
            Finding::Listed { name, diagnostic, .. } => seq![
                ReportKindView::of_listed(name, diagnostic, diagnostic.code()),
            ],
            Finding::Diff { file_name, old, new, .. } => seq![
                ReportKindView::of_diff(file_name, old, new),
            ],
        }
    }

    /// The finding adds an error to the run where it is printed, and only there:
    /// it is a diagnostic that was sent on its own and is an error.
    pub open spec fn lone_error(self) -> bool {
        self matches Finding::Error { diagnostic, .. } && diagnostic.severity == Severity::Error
    }
}

/// How many of the findings are errors that were sent on their own.
pub open spec fn lone_errors<E>(findings: Seq<Finding<E>>) -> nat {
    findings.filter(|finding: Finding<E>| finding.lone_error()).len()
}

/// The findings as they are printed.
pub open spec fn all_printed<E>(findings: Seq<Finding<E>>, ci: bool) -> Seq<PrintedView<E>> {
    findings.map_values(|finding: Finding<E>| finding.printed(ci))
}

/// The entries of the report for the findings, in their order.
pub open spec fn all_entries<E>(findings: Seq<Finding<E>>) -> Seq<ReportKindView>
    decreases findings.len(),
{
    if findings.len() == 0 {
        Seq::empty()
    } else {
        all_entries(findings.drop_last()) + findings.last().entries()
    }
}

/// How many of the diagnostics have the given severity.
pub open spec fn count<E>(diagnostics: Seq<DiagnosticView<E>>, severity: Severity) -> nat {
    diagnostics.filter(|diagnostic: DiagnosticView<E>| diagnostic.severity == severity).len()
}

/// The diagnostics of one file as findings.
pub open spec fn listed<E>(
    name: Seq<char>,
    content: Seq<char>,
    diagnostics: Seq<DiagnosticView<E>>,
) -> Seq<Finding<E>> {
    diagnostics.map_values(
        |diagnostic: DiagnosticView<E>| Finding::Listed { name, content, diagnostic },
    )
}

impl<E> MessageView<E> {
    /// How many errors the message adds to the run, whether or not it is
    /// printed: the diagnostics of a file that are errors, an error met while
    /// applying fixes and, in continuous integration, a difference. A diagnostic
    /// that is sent on its own is not among them: it counts as an error only
    /// where it is printed, as [`Finding::lone_error`] says.
    pub open spec fn errors(self, ci: bool) -> nat {
        match self {
            MessageView::SkippedFixes { .. } => 0,
            MessageView::ApplyError(_) => 1,
            MessageView::Error(_) => 0,
            MessageView::Diagnostics { diagnostics, .. } => count(diagnostics, Severity::Error),
            MessageView::Diff { .. } => if ci {
                1
            } else {
                0
            },
        }
    }

    /// How many warnings the message adds to the run, whether or not it is
    /// printed: the diagnostics that are warnings.
    pub open spec fn warnings(self) -> nat {
        match self {
            MessageView::Error(diagnostic) => if diagnostic.severity == Severity::Warning {
                1
            } else {
                0
            },
            MessageView::Diagnostics { diagnostics, .. } => count(diagnostics, Severity::Warning),
            _ => 0,
        }
    }

    /// How many diagnostics the worker left out.
    pub open spec fn withheld(self) -> nat {
        match self {
            MessageView::Diagnostics { skipped_diagnostics, .. } => skipped_diagnostics,
            _ => 0,
        }
    }

    /// How many suggested fixes were not applied.
    pub open spec fn skipped_fixes(self) -> nat {
        match self {
            MessageView::SkippedFixes { skipped_suggested_fixes } => skipped_suggested_fixes,
            _ => 0,
        }
    }

    /// What is printed of the message whatever the limit: in continuous
    /// integration, the diagnostics of a file.
    pub open spec fn unlimited(self, ci: bool) -> Seq<PrintedView<E>> {
        match self {
            MessageView::Diagnostics { name, content, diagnostics, .. } => if ci {
                all_printed(listed(name, content, diagnostics), ci)
            } else {
                Seq::empty()
            },
            _ => Seq::empty(),
        }
    }

    /// The findings of the message that count against the limit. With `named`,
    /// the path of the file that a diagnostic is about is attached to it.
    pub open spec fn findings(self, ci: bool, named: bool) -> Seq<Finding<E>> {
        match self {
            MessageView::SkippedFixes { .. } => Seq::empty(),
            MessageView::ApplyError(error) => seq![Finding::Failure(error)],
            MessageView::Error(diagnostic) => seq![
                Finding::Error {
                    diagnostic,
                    file_path: if named {
                        diagnostic.file()
                    } else {
                        None
                    },
                },
            ],
            MessageView::Diagnostics { name, content, diagnostics, .. } => if ci {
                Seq::empty()
            } else {
                listed(name, content, diagnostics)
            },
            MessageView::Diff { file_name, old, new, diff_kind } => seq![
                Finding::Diff { file_name, old, new, diff_kind },
            ],
        }
    }
}

/// The errors that were sent on their own, in two lists one after the other.
pub proof fn lemma_lone_errors_add<E>(first: Seq<Finding<E>>, second: Seq<Finding<E>>)
    ensures
        lone_errors(first + second) == lone_errors(first) + lone_errors(second),
{
    Seq::filter_distributes_over_add(first, second, |finding: Finding<E>| finding.lone_error());
}

/// One more finding.
pub proof fn lemma_lone_errors_push<E>(findings: Seq<Finding<E>>, finding: Finding<E>)
    ensures
        lone_errors(findings.push(finding)) == lone_errors(findings) + if finding.lone_error() {
            1nat
        } else {
            0nat
        },
        lone_errors(Seq::<Finding<E>>::empty()) == 0,
{
    reveal(Seq::filter);
    assert(findings.push(finding).drop_last() =~= findings);
}

/// There are none exactly if no finding is one, and never more than findings.
pub proof fn lemma_lone_errors_none<E>(findings: Seq<Finding<E>>)
    ensures
        lone_errors(findings) <= findings.len(),
        lone_errors(findings) == 0 <==> forall|i: int|
            0 <= i < findings.len() ==> !(#[trigger] findings[i]).lone_error(),
    decreases findings.len(),
{
    if findings.len() > 0 {
        let before = findings.drop_last();
        lemma_lone_errors_none(before);
        lemma_lone_errors_push(before, findings.last());
        assert(findings =~= before.push(findings.last()));
        assert(forall|i: int| 0 <= i < before.len() ==> #[trigger] before[i] == findings[i]);
        assert(findings[findings.len() - 1] == findings.last());
    } else {
        reveal(Seq::filter);
    }
}

/// One more diagnostic raises the count of its severity by one.
pub proof fn lemma_count_push<E>(
    diagnostics: Seq<DiagnosticView<E>>,
    diagnostic: DiagnosticView<E>,
    severity: Severity,
)
    ensures
        count(diagnostics.push(diagnostic), severity) == if diagnostic.severity == severity {
            count(diagnostics, severity) + 1
        } else {
            count(diagnostics, severity)
        },
{
    reveal(Seq::filter);
    assert(diagnostics.push(diagnostic).drop_last() =~= diagnostics);
}

/// The count over a part of a list is at most the count over the list.
pub proof fn lemma_count_take<E>(
    diagnostics: Seq<DiagnosticView<E>>,
    n: int,
    severity: Severity,
)
    requires
        0 <= n <= diagnostics.len(),
    ensures
        count(diagnostics.take(n), severity) <= count(diagnostics, severity),
    decreases diagnostics.len() - n,
{
    if n < diagnostics.len() {
        lemma_count_take(diagnostics, n + 1, severity);
        assert(diagnostics.take(n + 1) =~= diagnostics.take(n).push(diagnostics[n]));
        lemma_count_push(diagnostics.take(n), diagnostics[n], severity);
    } else {
        assert(diagnostics.take(n) =~= diagnostics);
    }
}

/// Counts the diagnostics of the given severity.
pub fn count_severity<E>(diagnostics: &Vec<Diagnostic<E>>, severity: Severity) -> (counted: usize)
    ensures
        counted == count(crate::message::views(diagnostics@), severity),
{
    let ghost all = crate::message::views(diagnostics@);
    let mut counted: usize = 0;
    proof {
        assert(all.take(0) =~= Seq::empty());
        reveal(Seq::filter);
    }
    for i in 0..diagnostics.len()
        invariant
            all == crate::message::views(diagnostics@),
            counted == count(all.take(i as int), severity),
            counted <= i,
    {
        proof {
            assert(all.take(i + 1) =~= all.take(i as int).push(all[i as int]));
            lemma_count_push(all.take(i as int), all[i as int], severity);
        }
        if diagnostics[i].severity == severity {
            counted = counted + 1;
        }
    }
    assert(all.take(diagnostics.len() as int) =~= all);
    counted
}

} // verus!
