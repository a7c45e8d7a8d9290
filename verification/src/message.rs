//! What the workers of a traversal send to the console.

use vstd::prelude::*;
use crate::diagnostic::{Diagnostic, DiagnosticView, DiffKind};

verus! {

/// A message from a worker.
#[derive(Debug)]
pub enum Message<E> {
    /// Suggested fixes that were not applied.
    SkippedFixes { skipped_suggested_fixes: u64 },
    /// Applying the fixes of a file failed.
    ApplyError(E),
    /// One diagnostic, on its own.
    Error(Diagnostic<E>),
    /// The diagnostics of one file, and how many more the worker left out.
    Diagnostics {
        name: String,
        content: String,
        diagnostics: Vec<Diagnostic<E>>,
        skipped_diagnostics: u64,
    },
    /// A file that differs from its expected content.
    Diff { file_name: String, old: String, new: String, diff_kind: DiffKind },
}

/// The mathematical value of a [`Message`].
pub enum MessageView<E> {
    SkippedFixes { skipped_suggested_fixes: nat },
    ApplyError(E),
    Error(DiagnosticView<E>),
    Diagnostics {
        name: Seq<char>,
        content: Seq<char>,
        diagnostics: Seq<DiagnosticView<E>>,
        skipped_diagnostics: nat,
    },
    Diff { file_name: Seq<char>, old: Seq<char>, new: Seq<char>, diff_kind: DiffKind },
}

/// The mathematical values of a list of diagnostics.
pub open spec fn views<E>(diagnostics: Seq<Diagnostic<E>>) -> Seq<DiagnosticView<E>> {
    diagnostics.map_values(|diagnostic: Diagnostic<E>| diagnostic@)
}

impl<E> View for Message<E> {
    type V = MessageView<E>;

    open spec fn view(&self) -> MessageView<E> {
        match self {
            Message::SkippedFixes { skipped_suggested_fixes } => MessageView::SkippedFixes {
                skipped_suggested_fixes: *skipped_suggested_fixes as nat,
            },
            Message::ApplyError(error) => MessageView::ApplyError(*error),
            Message::Error(diagnostic) => MessageView::Error(diagnostic@),
            Message::Diagnostics { name, content, diagnostics, skipped_diagnostics } => {
                MessageView::Diagnostics {
                    name: name@,
                    content: content@,
                    diagnostics: views(diagnostics@),
                    skipped_diagnostics: *skipped_diagnostics as nat,
                }
            },
            Message::Diff { file_name, old, new, diff_kind } => MessageView::Diff {
                file_name: file_name@,
                old: old@,
                new: new@,
                diff_kind: *diff_kind,
            },
        }
    }
}

} // verus!
