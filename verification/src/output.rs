//! What a run writes on the console.

use vstd::prelude::*;
use crate::diagnostic::{Printed, PrintedView};
use crate::execution::TraversalMode;
use crate::markup::{Content, Elapsed, Markup, MarkupElement, MarkupNode, MarkupNodeView};

verus! {

/// One message on the console.
#[derive(Debug)]
pub enum ConsoleLine<E> {
    /// A diagnostic, with or without its additional advices.
    Error { diagnostic: Printed<E>, verbose: bool },
    /// A piece of markup.
    Log(Markup),
}

/// The mathematical value of a [`ConsoleLine`].
pub enum ConsoleLineView<E> {
    Error { diagnostic: PrintedView<E>, verbose: bool },
    Log(Seq<MarkupNodeView>),
}

impl<E> View for ConsoleLine<E> {
    type V = ConsoleLineView<E>;

    open spec fn view(&self) -> ConsoleLineView<E> {
        match self {
            ConsoleLine::Error { diagnostic, verbose } => ConsoleLineView::Error {
                diagnostic: diagnostic@,
                verbose: *verbose,
            },
            ConsoleLine::Log(markup) => ConsoleLineView::Log(markup@),
        }
    }
}

/// The notice on suggested fixes that were not applied.
pub open spec fn skipped_fixes_notice(count: nat) -> Seq<MarkupNodeView> {
    let warn = seq![MarkupElement::Warn];
    let info = seq![MarkupElement::Info];
    seq![
        MarkupNodeView::text(warn, "Skipped "@),
        MarkupNodeView::count(warn, count),
        MarkupNodeView::text(warn, " suggested fixes.\n"@),
        MarkupNodeView::text(
            info,
            "If you wish to apply the suggested (unsafe) fixes, use the command "@,
        ),
        MarkupNodeView::text(
            seq![MarkupElement::Info, MarkupElement::Emphasis],
            "biome check --apply-unsafe\n"@,
        ),
    ]
}

/// Builds the notice on suggested fixes that were not applied.
pub fn skipped_fixes_markup(count: u64) -> (markup: Markup)
    ensures
        markup@ == skipped_fixes_notice(count as nat),
{
    let mut markup = Markup::empty();
    markup.push_text(MarkupElement::Warn, "Skipped ");
    markup.push_count(MarkupElement::Warn, count);
    markup.push_text(MarkupElement::Warn, " suggested fixes.\n");
    markup.push_text(
        MarkupElement::Info,
        "If you wish to apply the suggested (unsafe) fixes, use the command ",
    );
    let command = MarkupNode {
        elements: vec![MarkupElement::Info, MarkupElement::Emphasis],
        content: Content::Text("biome check --apply-unsafe\n".to_string()),
    };
    assert(command@ =~= MarkupNodeView::text(
        seq![MarkupElement::Info, MarkupElement::Emphasis],
        "biome check --apply-unsafe\n"@,
    ));
    markup.push(command);
    markup
}

/// The notice on diagnostics beyond the number that may be printed.
pub open spec fn not_shown_notice(count: nat) -> Seq<MarkupNodeView> {
    let info = seq![MarkupElement::Info];
    seq![
        MarkupNodeView::text(
            seq![MarkupElement::Warn],
            "The number of diagnostics exceeds the number allowed by Biome.\n"@,
        ),
        MarkupNodeView::text(info, "Diagnostics not shown: "@),
        MarkupNodeView::count(seq![MarkupElement::Emphasis], count),
        MarkupNodeView::text(info, "."@),
    ]
}

/// Builds the notice on diagnostics beyond the number that may be printed.
pub fn not_shown_markup(count: u64) -> (markup: Markup)
    ensures
        markup@ == not_shown_notice(count as nat),
{
    let mut markup = Markup::empty();
    markup.push_text(
        MarkupElement::Warn,
        "The number of diagnostics exceeds the number allowed by Biome.\n",
    );
    markup.push_text(MarkupElement::Info, "Diagnostics not shown: ");
    markup.push_count(MarkupElement::Emphasis, count);
    markup.push_text(MarkupElement::Info, ".");
    markup
}

/// The notice on files that could not be processed.
pub open spec fn skipped_files_notice(count: nat) -> Seq<MarkupNodeView> {
    let warn = seq![MarkupElement::Warn];
    seq![
        MarkupNodeView::text(warn, "Skipped "@),
        MarkupNodeView::count(warn, count),
        MarkupNodeView::text(warn, " file(s)"@),
    ]
}

/// Builds the notice on files that could not be processed.
pub fn skipped_files_markup(count: usize) -> (markup: Markup)
    ensures
        markup@ == skipped_files_notice(count as nat),
{
    let mut markup = Markup::empty();
    markup.push_text(MarkupElement::Warn, "Skipped ");
    markup.push_count(MarkupElement::Warn, count as u64);
    markup.push_text(MarkupElement::Warn, " file(s)");
    markup
}

/// What a run did to the files: how many, and how long it took.
pub open spec fn files_line(verb: Seq<char>, count: nat, duration: Elapsed) -> Seq<MarkupNodeView> {
    let info = seq![MarkupElement::Info];
    seq![
        MarkupNodeView::text(info, verb),
        MarkupNodeView::count(info, count),
        MarkupNodeView::text(info, " file(s) in "@),
        MarkupNodeView::duration(info, duration),
    ]
}

fn files_markup(verb: &str, count: usize, duration: Elapsed) -> (markup: Markup)
    ensures
        markup@ == files_line(verb@, count as nat, duration),
{
    let mut markup = Markup::empty();
    markup.push_text(MarkupElement::Info, verb);
    markup.push_count(MarkupElement::Info, count as u64);
    markup.push_text(MarkupElement::Info, " file(s) in ");
    markup.push_duration(MarkupElement::Info, duration);
    markup
}

/// What a run did to the configuration file, and how long it took.
pub open spec fn configuration_line(verb: Seq<char>, duration: Elapsed) -> Seq<MarkupNodeView> {
    let info = seq![MarkupElement::Info];
    seq![MarkupNodeView::text(info, verb), MarkupNodeView::duration(info, duration)]
}

fn configuration_markup(verb: &str, duration: Elapsed) -> (markup: Markup)
    ensures
        markup@ == configuration_line(verb@, duration),
{
    let mut markup = Markup::empty();
    markup.push_text(MarkupElement::Info, verb);
    markup.push_duration(MarkupElement::Info, duration);
    markup
}

/// The outcome of a run that checked files.
#[derive(Clone, Copy, Debug)]
pub struct CheckResult {
    /// How many files were checked.
    pub count: usize,
    /// How long the run took.
    pub duration: Elapsed,
    /// How many errors were found.
    pub errors: usize,
}

impl CheckResult {
    /// The outcome as it is printed: the errors have a line of their own, which
    /// is left out where there are none.
    pub open spec fn lines(self) -> Seq<MarkupNodeView> {
        let error = seq![MarkupElement::Error];
        files_line("Checked "@, self.count as nat, self.duration) + if self.errors > 0 {
            seq![
                MarkupNodeView::text(Seq::empty(), "\n"@),
                MarkupNodeView::text(error, "Found "@),
                MarkupNodeView::count(error, self.errors as nat),
                MarkupNodeView::text(error, " error(s)"@),
            ]
        } else {
            Seq::empty()
        }
    }

    /// Writes the outcome down.
    pub fn fmt(&self) -> (markup: Markup)
        ensures
            markup@ == self.lines(),
    {
        let mut markup = files_markup("Checked ", self.count, self.duration);
        if self.errors > 0 {
            let newline = MarkupNode {
                elements: Vec::new(),
                content: Content::Text("\n".to_string()),
            };
            assert(newline@ =~= MarkupNodeView::text(Seq::empty(), "\n"@));
            markup.push(newline);
            markup.push_text(MarkupElement::Error, "Found ");
            markup.push_count(MarkupElement::Error, self.errors as u64);
            markup.push_text(MarkupElement::Error, " error(s)");
        }
        assert(markup@ =~= self.lines());
        markup
    }
}

/// What a run that reports to the terminal says it did.
pub open spec fn outcome_line(
    mode: TraversalMode,
    fixes_files: bool,
    result: CheckResult,
) -> Seq<MarkupNodeView> {
    let count = result.count as nat;
    match mode {
        TraversalMode::Check | TraversalMode::Lint => if fixes_files {
            files_line("Fixed "@, count, result.duration)
        } else {
            result.lines()
        },
        TraversalMode::CI => result.lines(),
        TraversalMode::Format { write } => if write {
            files_line("Formatted "@, count, result.duration)
        } else {
            files_line("Compared "@, count, result.duration)
        },
        TraversalMode::Migrate { write } => if write {
            configuration_line("Migrated your configuration file in "@, result.duration)
        } else {
            configuration_line("Checked your configuration file in "@, result.duration)
        },
    }
}

/// Writes down what a run that reports to the terminal did.
pub fn outcome_markup(mode: TraversalMode, fixes_files: bool, result: CheckResult) -> (markup:
    Markup)
    ensures
        markup@ == outcome_line(mode, fixes_files, result),
{
    match mode {
        TraversalMode::Check | TraversalMode::Lint => {
            if fixes_files {
                files_markup("Fixed ", result.count, result.duration)
            } else {
                result.fmt()
            }
        },
        TraversalMode::CI => result.fmt(),
        TraversalMode::Format { write: false } => {
            files_markup("Compared ", result.count, result.duration)
        },
        TraversalMode::Format { write: true } => {
            files_markup("Formatted ", result.count, result.duration)
        },
        TraversalMode::Migrate { write: false } => {
            configuration_markup("Checked your configuration file in ", result.duration)
        },
        TraversalMode::Migrate { write: true } => {
            configuration_markup("Migrated your configuration file in ", result.duration)
        },
    }
}

} // verus!
