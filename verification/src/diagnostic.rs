//! Diagnostics as the traversal sees them, and what is printed of them.

use vstd::prelude::*;

verus! {

/// How grave a diagnostic is.
#[derive(Clone, Copy, Debug, PartialEq, Eq, Structural)]
pub enum Severity {
    Hint,
    Information,
    Warning,
    Error,
    Fatal,
}

/// What a diagnostic is about.
#[derive(Debug)]
pub enum Resource {
    /// The command line arguments.
    Argv,
    /// A memory buffer.
    Memory,
    /// A file, by its path.
    File(String),
}

/// A diagnostic: the error `E` that it carries to the printer, and the facts
/// about that error which the traversal reads.
#[derive(Debug)]
pub struct Diagnostic<E> {
    /// The error itself; the traversal only passes it on.
    pub error: E,
    /// How grave the error is.
    pub severity: Severity,
    /// The name of the category of the error.
    pub category: Option<String>,
    /// The text-only explanation of the error.
    pub description: String,
    /// What the error is about.
    pub resource: Option<Resource>,
}

/// The mathematical value of a [`Resource`].
pub enum ResourceView {
    Argv,
    Memory,
    File(Seq<char>),
}

/// The mathematical value of a [`Diagnostic`].
pub struct DiagnosticView<E> {
    pub error: E,
    pub severity: Severity,
    pub category: Option<Seq<char>>,
    pub description: Seq<char>,
    pub resource: Option<ResourceView>,
}

impl View for Resource {
    type V = ResourceView;

    open spec fn view(&self) -> ResourceView {
        match self {
            Resource::Argv => ResourceView::Argv,
            Resource::Memory => ResourceView::Memory,
            Resource::File(path) => ResourceView::File(path@),
        }
    }
}

impl<E> View for Diagnostic<E> {
    type V = DiagnosticView<E>;

    open spec fn view(&self) -> DiagnosticView<E> {
        DiagnosticView {
            error: self.error,
            severity: self.severity,
            category: crate::text::optional(self.category),
            description: self.description@,
            resource: match self.resource {
                Some(resource) => Some(resource@),
                None => None,
            },
        }
    }
}

impl<E> DiagnosticView<E> {
    /// The path of the file that the diagnostic is about, if it is about one.
    pub open spec fn file(self) -> Option<Seq<char>> {
        match self.resource {
            Some(ResourceView::File(path)) => Some(path),
            _ => None,
        }
    }
}

impl<E> Diagnostic<E> {
    /// The path of the file that the diagnostic is about, if it is about one.
    pub fn file(&self) -> (path: Option<&String>)
        ensures
            match path {
                Some(path) => self@.file() == Some(path@),
                None => self@.file() is None,
            },
    {
        match &self.resource {
            Some(Resource::File(path)) => Some(path),
            _ => None,
        }
    }
}

/// What produced a difference between a file and its expected content.
#[derive(Clone, Copy, Debug, PartialEq, Eq, Structural)]
pub enum DiffKind {
    Format,
    OrganizeImports,
}

/// The diagnostic as which a difference is printed.
#[derive(Clone, Copy, Debug, PartialEq, Eq, Structural)]
pub enum DiffDiagnostic {
    CIFormat,
    CIOrganizeImports,
    Format,
    OrganizeImports,
}

impl DiffDiagnostic {
    /// A difference has a form of its own in continuous integration.
    pub open spec fn of(ci: bool, kind: DiffKind) -> DiffDiagnostic {
        match kind {
            DiffKind::Format => if ci {
                DiffDiagnostic::CIFormat
            } else {
                DiffDiagnostic::Format
            },
            DiffKind::OrganizeImports => if ci {
                DiffDiagnostic::CIOrganizeImports
            } else {
                DiffDiagnostic::OrganizeImports
            },
        }
    }

    /// The diagnostic as which a difference of the given kind is printed.
    pub fn select(ci: bool, kind: DiffKind) -> (selected: DiffDiagnostic)
        ensures
            selected == DiffDiagnostic::of(ci, kind),
    {
        if ci {
            match kind {
                DiffKind::Format => DiffDiagnostic::CIFormat,
                DiffKind::OrganizeImports => DiffDiagnostic::CIOrganizeImports,
            }
        } else {
            match kind {
                DiffKind::Format => DiffDiagnostic::Format,
                DiffKind::OrganizeImports => DiffDiagnostic::OrganizeImports,
            }
        }
    }
}

/// One diagnostic that the run prints when it ends.
#[derive(Debug)]
pub enum Printed<E> {
    /// An error met while applying fixes.
    Failure(E),
    /// A diagnostic, with the file path and the source code attached to it.
    Diagnostic {
        diagnostic: Diagnostic<E>,
        file_path: Option<String>,
        source_code: Option<String>,
    },
    /// A difference between a file and its expected content.
    Diff {
        form: DiffDiagnostic,
        file_name: String,
        old: String,
        new: String,
    },
}

/// The mathematical value of a [`Printed`].
pub enum PrintedView<E> {
    Failure(E),
    Diagnostic {
        diagnostic: DiagnosticView<E>,
        file_path: Option<Seq<char>>,
        source_code: Option<Seq<char>>,
    },
    Diff { form: DiffDiagnostic, file_name: Seq<char>, old: Seq<char>, new: Seq<char> },
}

impl<E> View for Printed<E> {
    type V = PrintedView<E>;

    open spec fn view(&self) -> PrintedView<E> {
        match self {
            Printed::Failure(error) => PrintedView::Failure(*error),
            Printed::Diagnostic { diagnostic, file_path, source_code } => PrintedView::Diagnostic {
                diagnostic: diagnostic@,
                file_path: crate::text::optional(*file_path),
                source_code: crate::text::optional(*source_code),
            },
            Printed::Diff { form, file_name, old, new } => PrintedView::Diff {
                form: *form,
                file_name: file_name@,
                old: old@,
                new: new@,
            },
        }
    }
}

} // verus!
