//! The report that a run writes when its findings do not go to the terminal.

use vstd::prelude::*;
use crate::diagnostic::{Diagnostic, DiagnosticView, Severity};

verus! {

/// What the formatter did to a file.
#[derive(Debug)]
pub struct FormatterReportFileDetail {
    /// The content of the file once formatted.
    pub formatted_content: Option<String>,
}

/// A diagnostic as the report shows it.
#[derive(Debug)]
pub struct ReportDiagnostic {
    /// The category of the diagnostic.
    pub code: Option<String>,
    /// What the diagnostic says.
    pub title: String,
    /// How grave the diagnostic is.
    pub severity: Severity,
}

/// A difference as the report shows it.
#[derive(Debug)]
pub struct ReportDiff {
    pub before: String,
    pub after: String,
    pub severity: Severity,
}

/// A finding about a file.
#[derive(Debug)]
pub enum ReportErrorKind {
    Diagnostic(ReportDiagnostic),
    Diff(ReportDiff),
}

/// One entry of the report: the file it is about, and what is said of it.
#[derive(Debug)]
pub enum ReportKind {
    Formatter(String, FormatterReportFileDetail),
    Error(String, ReportErrorKind),
}

/// The mathematical value of a [`ReportKind`].
pub enum ReportKindView {
    Formatter { file: Seq<char>, formatted_content: Option<Seq<char>> },
    Diagnostic {
        file: Seq<char>,
        code: Option<Seq<char>>,
        title: Seq<char>,
        severity: Severity,
    },
    Diff { file: Seq<char>, before: Seq<char>, after: Seq<char>, severity: Severity },
}

impl View for ReportKind {
    type V = ReportKindView;

    open spec fn view(&self) -> ReportKindView {
        match self {
            ReportKind::Formatter(file, detail) => ReportKindView::Formatter {
                file: file@,
                formatted_content: crate::text::optional(detail.formatted_content),
            },
            ReportKind::Error(file, ReportErrorKind::Diagnostic(diagnostic)) => {
                ReportKindView::Diagnostic {
                    file: file@,
                    code: crate::text::optional(diagnostic.code),
                    title: diagnostic.title@,
                    severity: diagnostic.severity,
                }
            },
            ReportKind::Error(file, ReportErrorKind::Diff(diff)) => ReportKindView::Diff {
                file: file@,
                before: diff.before@,
                after: diff.after@,
                severity: diff.severity,
            },
        }
    }
}

impl ReportKindView {
    /// The entry of a diagnostic that was sent on its own: under the file that
    /// it is about, or under `<unknown>`, with its description as the title.
    pub open spec fn of_error<E>(
        diagnostic: DiagnosticView<E>,
        code: Option<Seq<char>>,
    ) -> ReportKindView {
        ReportKindView::Diagnostic {
            file: match diagnostic.file() {
                Some(path) => path,
                None => "<unknown>"@,
            },
            code,
            title: diagnostic.description,
            severity: diagnostic.severity,
        }
    }

    /// The entry of a diagnostic that was sent with the others of its file:
    /// under the name of that file, with a fixed title.
    pub open spec fn of_listed<E>(
        name: Seq<char>,
        diagnostic: DiagnosticView<E>,
        code: Option<Seq<char>>,
    ) -> ReportKindView {
        ReportKindView::Diagnostic {
            file: name,
            code,
            title: "test here"@,
            severity: diagnostic.severity,
        }
    }

    /// The entry of a difference, which always counts as an error.
    pub open spec fn of_diff(
        file_name: Seq<char>,
        old: Seq<char>,
        new: Seq<char>,
    ) -> ReportKindView {
        ReportKindView::Diff { file: file_name, before: old, after: new, severity: Severity::Error }
    }
}

/// What `str::parse` reads in a text as the name of a diagnostic category.
pub uninterp spec fn parsed_category(name: Seq<char>) -> Option<Seq<char>>;

/// Calls `str::parse` for `&'static biome_diagnostics::Category`, and takes the
/// name of the category that it finds. The categories are a fixed registry, in
/// which `parse` looks for the one of exactly that name: what it finds, if
/// anything, is named as the text says. Which names are registered is left to
/// the registry.
#[verifier::external_body]
fn parse_category(name: &str) -> (category: Option<String>)
    ensures
        crate::text::optional(category) == parsed_category(name@),
        category matches Some(found) ==> found@ == name@,
{
    match name.parse::<&'static biome_diagnostics::Category>() {
        Ok(category) => Some(category.name().to_string()),
        Err(()) => None,
    }
}

impl<E> DiagnosticView<E> {
    /// The code under which the report files the diagnostic: its category, as
    /// far as the registry knows it.
    pub open spec fn code(self) -> Option<Seq<char>> {
        match self.category {
            Some(name) => parsed_category(name),
            None => None,
        }
    }
}

impl<E> Diagnostic<E> {
    /// The code under which the report files the diagnostic: its category, as
    /// far as the registry knows it.
    pub fn code(&self) -> (code: Option<String>)
        ensures
            crate::text::optional(code) == self@.code(),
            code is Some ==> crate::text::optional(code) == self@.category,
    {
        match &self.category {
            Some(name) => parse_category(name.as_str()),
            None => None,
        }
    }
}

/// The entry of a diagnostic that was sent on its own, filed under `code`.
pub fn error_entry<E>(diagnostic: &Diagnostic<E>, code: Option<String>) -> (entry: ReportKind)
    ensures
        entry@ == ReportKindView::of_error(diagnostic@, crate::text::optional(code)),
{
    let file = match diagnostic.file() {
        Some(path) => path.clone(),
        None => "<unknown>".to_string(),
    };
    ReportKind::Error(
        file,
        ReportErrorKind::Diagnostic(
            ReportDiagnostic {
                code,
                title: diagnostic.description.clone(),
                severity: diagnostic.severity,
            },
        ),
    )
}

/// The entry of a diagnostic that was sent with the others of the file `name`,
/// filed under `code`.
pub fn listed_entry<E>(name: &String, diagnostic: &Diagnostic<E>, code: Option<String>) -> (entry:
    ReportKind)
    ensures
        entry@ == ReportKindView::of_listed(name@, diagnostic@, crate::text::optional(code)),
{
    ReportKind::Error(
        name.clone(),
        ReportErrorKind::Diagnostic(
            ReportDiagnostic {
                code,
                title: "test here".to_string(),
                severity: diagnostic.severity,
            },
        ),
    )
}

/// The entry of a difference.
pub fn diff_entry(file_name: String, old: String, new: String) -> (entry: ReportKind)
    ensures
        entry@ == ReportKindView::of_diff(file_name@, old@, new@),
{
    ReportKind::Error(
        file_name,
        ReportErrorKind::Diff(ReportDiff { before: old, after: new, severity: Severity::Error }),
    )
}

/// How many files a formatter run went through.
#[derive(Clone, Copy, Debug, PartialEq, Eq, Structural)]
pub enum FormatterReportSummary {
    FilesWritten(usize),
    FilesCompared(usize),
}

/// The report of a run: its entries in the order in which they came, and the
/// summary of the formatter.
#[derive(Debug)]
pub struct Report {
    pub details: Vec<ReportKind>,
    pub formatter_summary: Option<FormatterReportSummary>,
}

/// The mathematical value of a [`Report`].
#[verifier::ext_equal]
pub struct ReportView {
    pub details: Seq<ReportKindView>,
    pub formatter_summary: Option<FormatterReportSummary>,
}

impl View for Report {
    type V = ReportView;

    open spec fn view(&self) -> ReportView {
        ReportView {
            details: self.details@.map_values(|entry: ReportKind| entry@),
            formatter_summary: self.formatter_summary,
        }
    }
}

impl Report {
    /// An empty report.
    pub fn new() -> (report: Report)
        ensures
            report@ == (ReportView { details: Seq::empty(), formatter_summary: None }),
    {
        let report = Report { details: Vec::new(), formatter_summary: None };
        assert(report@.details =~= Seq::empty());
        report
    }

    /// Adds an entry at the end of the report.
    pub fn push_detail_report(&mut self, entry: ReportKind)
        ensures
            final(self)@ == (ReportView {
                details: old(self)@.details.push(entry@),
                ..old(self)@
            }),
    {
        self.details.push(entry);
        assert(self@.details =~= old(self)@.details.push(entry@));
    }

    /// Sets the summary of the formatter.
    pub fn set_formatter_summary(&mut self, summary: FormatterReportSummary)
        ensures
            final(self)@ == (ReportView {
                formatter_summary: Some(summary),
                ..old(self)@
            }),
    {
        self.formatter_summary = Some(summary);
    }
}

} // verus!
