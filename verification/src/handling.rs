//! Which paths a traversal handles, and what becomes of the files it handled.

use vstd::prelude::*;
use crate::execution::{FeatureName, TraversalMode};
use crate::message::{Message, MessageView};

verus! {

/// The features that the workspace supports for a file.
#[derive(Clone, Copy, Debug)]
pub struct FileFeatures {
    pub lint: bool,
    pub format: bool,
    pub organize_imports: bool,
}

impl FileFeatures {
    pub open spec fn supported(self, feature: FeatureName) -> bool {
        match feature {
            FeatureName::Format => self.format,
            FeatureName::Lint => self.lint,
            FeatureName::OrganizeImports => self.organize_imports,
        }
    }

    /// Whether the workspace supports the feature for the file.
    pub fn supports_for(&self, feature: &FeatureName) -> (supported: bool)
        ensures
            supported == self.supported(*feature),
    {
        match feature {
            FeatureName::Format => self.format,
            FeatureName::Lint => self.lint,
            FeatureName::OrganizeImports => self.organize_imports,
        }
    }
}

/// What the workspace is asked about a path.
#[derive(Debug)]
pub enum WorkspaceQuery {
    /// Whether the directory is ignored for the feature.
    IsPathIgnored { feature: FeatureName },
    /// Which of the features are supported for the file.
    FileFeatures { features: Vec<FeatureName> },
}

/// The mathematical value of a [`WorkspaceQuery`].
#[verifier::ext_equal]
pub enum WorkspaceQueryView {
    IsPathIgnored { feature: FeatureName },
    FileFeatures { features: Seq<FeatureName> },
}

impl View for WorkspaceQuery {
    type V = WorkspaceQueryView;

    open spec fn view(&self) -> WorkspaceQueryView {
        match self {
            WorkspaceQuery::IsPathIgnored { feature } => WorkspaceQueryView::IsPathIgnored {
                feature: *feature,
            },
            WorkspaceQuery::FileFeatures { features } => WorkspaceQueryView::FileFeatures {
                features: features@,
            },
        }
    }
}

/// What the workspace has to be asked about a path before it can be decided
/// whether the traversal handles it.
pub fn query_for(is_dir: bool, feature: FeatureName) -> (query: WorkspaceQuery)
    ensures
        query@ == if is_dir {
            WorkspaceQueryView::IsPathIgnored { feature }
        } else {
            WorkspaceQueryView::FileFeatures {
                features: seq![
                    FeatureName::Lint,
                    FeatureName::Format,
                    FeatureName::OrganizeImports,
                ],
            }
        },
{
    if is_dir {
        return WorkspaceQuery::IsPathIgnored { feature };
    }
    let query = WorkspaceQuery::FileFeatures {
        features: vec![FeatureName::Lint, FeatureName::Format, FeatureName::OrganizeImports],
    };
    assert(query@ =~= (WorkspaceQueryView::FileFeatures {
        features: seq![FeatureName::Lint, FeatureName::Format, FeatureName::OrganizeImports],
    }));
    query
}

/// Decides whether the traversal enters a directory, from the answer to whether
/// it is ignored. An error of the workspace is handed back to be reported, and
/// the directory is then entered.
pub fn can_handle_directory<W>(ignored: Result<bool, W>) -> (decision: (bool, Option<W>))
    ensures
        decision == match ignored {
            Ok(ignored) => (!ignored, None),
            Err(error) => (true, Some(error)),
        },
{
    match ignored {
        Ok(ignored) => (!ignored, None),
        Err(error) => (true, Some(error)),
    }
}

/// Whether a traversal has something to do with a file for which the given
/// features are supported.
pub open spec fn concerns(mode: TraversalMode, features: FileFeatures) -> bool {
    match mode {
        TraversalMode::Check | TraversalMode::CI => features.lint || features.format
            || features.organize_imports,
        TraversalMode::Format { .. } => features.format,
        TraversalMode::Lint => features.lint,
        TraversalMode::Migrate { .. } => true,
    }
}

/// An error of the workspace that found no handler for a file, with the category
/// and the path under which it is reported.
#[derive(Debug)]
pub struct MissingHandler<W> {
    pub error: W,
    pub category: String,
    pub file_path: String,
}

/// The mathematical value of a [`MissingHandler`].
pub struct MissingHandlerView<W> {
    pub error: W,
    pub category: Seq<char>,
    pub file_path: Seq<char>,
}

impl<W> View for MissingHandler<W> {
    type V = MissingHandlerView<W>;

    open spec fn view(&self) -> MissingHandlerView<W> {
        MissingHandlerView {
            error: self.error,
            category: self.category@,
            file_path: self.file_path@,
        }
    }
}

/// How an error of the workspace that found no handler for a file is reported.
pub fn miss_handler_err<W>(error: W, path: String) -> (missing: MissingHandler<W>)
    ensures
        missing@ == (MissingHandlerView {
            error,
            category: "files/missingHandler"@,
            file_path: path@,
        }),
{
    MissingHandler { error, category: "files/missingHandler".to_string(), file_path: path }
}

/// Decides whether the traversal handles a file, from the features that the
/// workspace supports for it. Where the workspace finds no handler, the file is
/// not handled and the error is handed back to be reported.
pub fn can_handle_file<W>(
    mode: TraversalMode,
    features: Result<FileFeatures, W>,
    path: String,
) -> (decision: (bool, Option<MissingHandler<W>>))
    ensures
        match features {
            Ok(features) => decision.0 == concerns(mode, features) && decision.1 is None,
            Err(error) => !decision.0 && decision.1 is Some && decision.1->0@ == (
            MissingHandlerView {
                error,
                category: "files/missingHandler"@,
                file_path: path@,
            }),
        },
{
    let features = match features {
        Ok(features) => features,
        Err(error) => {
            return (false, Some(miss_handler_err(error, path)));
        },
    };
    let can_handle = match mode {
        TraversalMode::Check => {
            features.supports_for(&FeatureName::Lint) || features.supports_for(
                &FeatureName::Format,
            ) || features.supports_for(&FeatureName::OrganizeImports)
        },
        TraversalMode::CI => {
            features.supports_for(&FeatureName::Lint) || features.supports_for(
                &FeatureName::Format,
            ) || features.supports_for(&FeatureName::OrganizeImports)
        },
        TraversalMode::Format { .. } => features.supports_for(&FeatureName::Format),
        TraversalMode::Lint => features.supports_for(&FeatureName::Lint),
        TraversalMode::Migrate { .. } => true,
    };
    (can_handle, None)
}

/// What processing a file came to.
#[derive(Debug)]
pub enum FileOutcome<E> {
    /// The file was processed.
    Success,
    /// The file was processed, and there is something to say about it.
    Message(Message<E>),
    /// The file was left alone.
    Ignored,
    /// The file could not be processed.
    Failed(Message<E>),
    /// Processing the file panicked, with the text of the panic if it has one.
    Panicked(Option<String>),
}

/// The mathematical value of a [`FileOutcome`].
pub enum FileOutcomeView<E> {
    Success,
    Message(MessageView<E>),
    Ignored,
    Failed(MessageView<E>),
    Panicked(Option<Seq<char>>),
}

impl<E> View for FileOutcome<E> {
    type V = FileOutcomeView<E>;

    open spec fn view(&self) -> FileOutcomeView<E> {
        match self {
            FileOutcome::Success => FileOutcomeView::Success,
            FileOutcome::Message(message) => FileOutcomeView::Message(message@),
            FileOutcome::Ignored => FileOutcomeView::Ignored,
            FileOutcome::Failed(message) => FileOutcomeView::Failed(message@),
            FileOutcome::Panicked(text) => FileOutcomeView::Panicked(crate::text::optional(*text)),
        }
    }
}

/// What is sent to the console about a file.
#[derive(Debug)]
pub enum Outgoing<E> {
    Nothing,
    Message(Message<E>),
    /// The diagnostic of a panic, attached to the file.
    Panic { message: String, file_path: String },
}

/// The mathematical value of an [`Outgoing`].
pub enum OutgoingView<E> {
    Nothing,
    Message(MessageView<E>),
    Panic { message: Seq<char>, file_path: Seq<char> },
}

impl<E> View for Outgoing<E> {
    type V = OutgoingView<E>;

    open spec fn view(&self) -> OutgoingView<E> {
        match self {
            Outgoing::Nothing => OutgoingView::Nothing,
            Outgoing::Message(message) => OutgoingView::Message(message@),
            Outgoing::Panic { message, file_path } => OutgoingView::Panic {
                message: message@,
                file_path: file_path@,
            },
        }
    }
}

/// The message of the diagnostic of a panic.
pub open spec fn panic_text(text: Option<Seq<char>>) -> Seq<char> {
    match text {
        Some(text) => "processing panicked: "@ + text,
        None => "processing panicked"@,
    }
}

/// Writes the message of the diagnostic of a panic.
pub fn panic_message(text: Option<String>) -> (message: String)
    ensures
        message@ == panic_text(crate::text::optional(text)),
{
    match text {
        Some(text) => {
            let mut message = "processing panicked: ".to_string();
            message.append(text.as_str());
            message
        },
        None => "processing panicked".to_string(),
    }
}

/// Decides what becomes of a file once it was handled: whether it counts as
/// skipped, and what is sent about it. Only a file that could not be processed
/// counts as skipped.
pub fn handle_file<E>(outcome: FileOutcome<E>, path: String) -> (handled: (bool, Outgoing<E>))
    ensures
        handled.0 == (outcome is Failed),
        handled.1@ == match outcome@ {
            FileOutcomeView::Success => OutgoingView::Nothing,
            FileOutcomeView::Message(message) => OutgoingView::Message(message),
            FileOutcomeView::Ignored => OutgoingView::Nothing,
            FileOutcomeView::Failed(message) => OutgoingView::Message(message),
            FileOutcomeView::Panicked(text) => OutgoingView::Panic {
                message: panic_text(text),
                file_path: path@,
            },
        },
{
    match outcome {
        FileOutcome::Success => (false, Outgoing::Nothing),
        FileOutcome::Message(message) => (false, Outgoing::Message(message)),
        FileOutcome::Ignored => (false, Outgoing::Nothing),
        FileOutcome::Failed(message) => (true, Outgoing::Message(message)),
        FileOutcome::Panicked(text) => {
            let message = panic_message(text);
            (false, Outgoing::Panic { message, file_path: path })
        },
    }
}

} // verus!
