//! Text with styles, as the console prints it.

use vstd::prelude::*;

verus! {

/// A style of a piece of text.
#[derive(Clone, Copy, Debug, PartialEq, Eq, Structural)]
pub enum MarkupElement {
    Emphasis,
    Error,
    Warn,
    Info,
}

/// How long something took.
#[derive(Clone, Copy, Debug, PartialEq, Eq, Structural)]
pub struct Elapsed {
    /// The whole seconds.
    pub secs: u64,
    /// The nanoseconds beyond the whole seconds.
    pub nanos: u32,
}

/// What a node shows: a text, or a duration that the console writes in the
/// unit that suits it.
#[derive(Debug)]
pub enum Content {
    Text(String),
    Duration(Elapsed),
}

/// A piece of content and its styles, the outermost style first.
#[derive(Debug)]
pub struct MarkupNode {
    pub elements: Vec<MarkupElement>,
    pub content: Content,
}

/// Text with styles.
#[derive(Debug)]
pub struct Markup {
    pub nodes: Vec<MarkupNode>,
}

/// The mathematical value of a [`Content`].
pub enum ContentView {
    Text(Seq<char>),
    Duration(Elapsed),
}

/// The mathematical value of a [`MarkupNode`].
#[verifier::ext_equal]
pub struct MarkupNodeView {
    pub elements: Seq<MarkupElement>,
    pub content: ContentView,
}

impl View for Content {
    type V = ContentView;

    open spec fn view(&self) -> ContentView {
        match self {
            Content::Text(text) => ContentView::Text(text@),
            Content::Duration(elapsed) => ContentView::Duration(*elapsed),
        }
    }
}

impl View for MarkupNode {
    type V = MarkupNodeView;

    open spec fn view(&self) -> MarkupNodeView {
        MarkupNodeView { elements: self.elements@, content: self.content@ }
    }
}

impl View for Markup {
    type V = Seq<MarkupNodeView>;

    open spec fn view(&self) -> Seq<MarkupNodeView> {
        self.nodes@.map_values(|node: MarkupNode| node@)
    }
}

impl MarkupNodeView {
    /// A text in the given styles.
    pub open spec fn text(elements: Seq<MarkupElement>, text: Seq<char>) -> MarkupNodeView {
        MarkupNodeView { elements, content: ContentView::Text(text) }
    }

    /// A number in the given styles.
    pub open spec fn count(elements: Seq<MarkupElement>, count: nat) -> MarkupNodeView {
        MarkupNodeView::text(elements, crate::text::decimal(count))
    }

    /// A duration in the given styles.
    pub open spec fn duration(elements: Seq<MarkupElement>, elapsed: Elapsed) -> MarkupNodeView {
        MarkupNodeView { elements, content: ContentView::Duration(elapsed) }
    }
}

impl Markup {
    /// No text at all.
    pub fn empty() -> (markup: Markup)
        ensures
            markup@ == Seq::<MarkupNodeView>::empty(),
    {
        let markup = Markup { nodes: Vec::new() };
        assert(markup@ =~= Seq::empty());
        markup
    }

    /// Adds a node at the end.
    pub fn push(&mut self, node: MarkupNode)
        ensures
            final(self)@ == old(self)@.push(node@),
    {
        self.nodes.push(node);
        assert(self@ =~= old(self)@.push(node@));
    }

    /// Adds a text in one style at the end.
    pub fn push_text(&mut self, element: MarkupElement, text: &str)
        ensures
            final(self)@ == old(self)@.push(MarkupNodeView::text(seq![element], text@)),
    {
        let node = MarkupNode { elements: vec![element], content: Content::Text(text.to_string()) };
        assert(node@ =~= MarkupNodeView::text(seq![element], text@));
        self.push(node);
    }

    /// Adds a number in one style at the end.
    pub fn push_count(&mut self, element: MarkupElement, count: u64)
        ensures
            final(self)@ == old(self)@.push(MarkupNodeView::count(seq![element], count as nat)),
    {
        let text = crate::text::decimal_text(count);
        self.push_text(element, text.as_str());
    }

    /// Adds a duration in one style at the end.
    pub fn push_duration(&mut self, element: MarkupElement, elapsed: Elapsed)
        ensures
            final(self)@ == old(self)@.push(MarkupNodeView::duration(seq![element], elapsed)),
    {
        let node = MarkupNode { elements: vec![element], content: Content::Duration(elapsed) };
        assert(node@ =~= MarkupNodeView::duration(seq![element], elapsed));
        self.push(node);
    }
}

} // verus!
