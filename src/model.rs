use vstd::prelude::*;

verus! {

/// The kind of a paragraph or of an inline markup span.
#[derive(Clone, Copy, Debug, PartialEq, Eq, Structural)]
pub enum BlockKind {
    Paragraph,
    Header3,
    Header4,
    Code,
    Preformatted,
    ListItem,
    Quote,
    Link,
    Image,
}

/// A layout hint; it does not change the rendering.
#[derive(Clone, Copy, Debug, PartialEq, Eq, Structural)]
pub enum Layout {
    InsetCenter,
}

/// Why an article could not be rendered.
#[derive(Clone, Copy, Debug, PartialEq, Eq, Structural)]
pub enum RenderError {
    /// An image paragraph without metadata, or a link markup without a target.
    MissingRequiredAssociation,
    /// A markup of kind `Image`, or a paragraph of kind `Link`.
    UnsupportedMarkupKind,
    /// An archive link with no `/` after the archive prefix.
    MalformedHref,
    /// A markup range that is reversed or runs past the end of its text.
    MalformedInput,
}

/// Metadata of an image paragraph: the reference of the image.
#[derive(Debug)]
pub struct Metadata {
    pub image_ref: String,
}

/// An inline span `[start, end)` of a paragraph's text, counted in characters.
#[derive(Debug)]
pub struct Markup {
    pub start: usize,
    pub end: usize,
    pub kind: BlockKind,
    pub href: Option<String>,
}

/// A block of text with its kind, its inline spans and optional hints.
#[derive(Debug)]
pub struct Paragraph {
    pub text: String,
    pub kind: BlockKind,
    pub markups: Vec<Markup>,
    pub layout: Option<Layout>,
    pub metadata: Option<Metadata>,
}

pub struct MarkupView {
    pub start: int,
    pub end: int,
    pub kind: BlockKind,
    pub href: Option<Seq<char>>,
}

pub struct ParagraphView {
    pub text: Seq<char>,
    pub kind: BlockKind,
    pub markups: Seq<MarkupView>,
    pub layout: Option<Layout>,
    pub image_ref: Option<Seq<char>>,
}

pub open spec fn opt_string_view(s: Option<String>) -> Option<Seq<char>> {
    match s {
        Some(s) => Some(s@),
        None => None,
    }
}

impl View for Markup {
    type V = MarkupView;

    open spec fn view(&self) -> MarkupView {
        MarkupView {
            start: self.start as int,
            end: self.end as int,
            kind: self.kind,
            href: opt_string_view(self.href),
        }
    }
}

pub open spec fn markups_view(ms: Seq<Markup>) -> Seq<MarkupView> {
    ms.map_values(|m: Markup| m@)
}

impl View for Paragraph {
    type V = ParagraphView;

    open spec fn view(&self) -> ParagraphView {
        ParagraphView {
            text: self.text@,
            kind: self.kind,
            markups: markups_view(self.markups@),
            layout: self.layout,
            image_ref: match self.metadata {
                Some(m) => Some(m.image_ref@),
                None => None,
            },
        }
    }
}

pub open spec fn paragraphs_view(ps: Seq<Paragraph>) -> Seq<ParagraphView> {
    ps.map_values(|p: Paragraph| p@)
}

/// The value of a `Result` holding a `String`, with the string as characters.
pub open spec fn string_result_view(r: Result<String, RenderError>) -> Result<
    Seq<char>,
    RenderError,
> {
    match r {
        Ok(s) => Ok(s@),
        Err(e) => Err(e),
    }
}

} // verus!
