use vstd::prelude::*;
use vstd::string::*;

use crate::model::{BlockKind, Markup, MarkupView, Paragraph, ParagraphView, RenderError};

verus! {

/// Where image references are served from.
pub const IMAGE_BASE_URL: &'static str = "https://miro.medium.com/v2/format:webp/";

/// Whether a tag opens or closes an element.
#[derive(Clone, Copy, Debug, PartialEq, Eq, Structural)]
pub enum TagType {
    Open,
    Close,
}

/// What an element renders as: a block element, a link with its target,
/// or a figure with its image source.
#[derive(Debug)]
pub enum Html {
    Paragraph,
    Header3,
    Header4,
    Code,
    Preformatted,
    ListItem,
    Quote,
    Link(String),
    Image(String),
}

pub enum HtmlView {
    Paragraph,
    Header3,
    Header4,
    Code,
    Preformatted,
    ListItem,
    Quote,
    Link(Seq<char>),
    Image(Seq<char>),
}

impl View for Html {
    type V = HtmlView;

    open spec fn view(&self) -> HtmlView {
        match self {
            Html::Paragraph => HtmlView::Paragraph,
            Html::Header3 => HtmlView::Header3,
            Html::Header4 => HtmlView::Header4,
            Html::Code => HtmlView::Code,
            Html::Preformatted => HtmlView::Preformatted,
            Html::ListItem => HtmlView::ListItem,
            Html::Quote => HtmlView::Quote,
            Html::Link(href) => HtmlView::Link(href@),
            Html::Image(src) => HtmlView::Image(src@),
        }
    }
}

/// `<name>` or `</name>`.
pub open spec fn simple_tag(name: Seq<char>, t: TagType) -> Seq<char> {
    match t {
        TagType::Open => seq!['<'] + name + seq!['>'],
        TagType::Close => seq!['<', '/'] + name + seq!['>'],
    }
}

/// The text of the opening or closing tag of an element.
pub open spec fn tag_text(h: HtmlView, t: TagType) -> Seq<char> {
    match h {
        HtmlView::Paragraph => simple_tag("p"@, t),
        HtmlView::Header3 => simple_tag("h3"@, t),
        HtmlView::Header4 => simple_tag("h4"@, t),
        HtmlView::Code => simple_tag("code"@, t),
        HtmlView::Preformatted => simple_tag("pre"@, t),
        HtmlView::ListItem => simple_tag("li"@, t),
        HtmlView::Quote => simple_tag("blockquote"@, t),
        HtmlView::Link(href) => match t {
            TagType::Open => "<a href=\""@ + href + "\">"@,
            TagType::Close => "</a>"@,
        },
        HtmlView::Image(src) => match t {
            TagType::Open => "<figure><img src=\""@ + src + "\"><figcaption>"@,
            TagType::Close => "</figcaption></figure>"@,
        },
    }
}

/// The element of a plain kind, one that carries no attribute.
pub open spec fn plain_element(k: BlockKind) -> HtmlView {
    match k {
        BlockKind::Header3 => HtmlView::Header3,
        BlockKind::Header4 => HtmlView::Header4,
        BlockKind::Code => HtmlView::Code,
        BlockKind::Preformatted => HtmlView::Preformatted,
        BlockKind::ListItem => HtmlView::ListItem,
        BlockKind::Quote => HtmlView::Quote,
        _ => HtmlView::Paragraph,
    }
}

/// The element a paragraph renders as: an image paragraph becomes a figure
/// whose source is the image base URL followed by its reference; a paragraph
/// cannot be a link.
pub open spec fn block_element(p: ParagraphView) -> Result<HtmlView, RenderError> {
    match p.kind {
        BlockKind::Link => Err(RenderError::UnsupportedMarkupKind),
        BlockKind::Image => match p.image_ref {
            Some(r) => Ok(HtmlView::Image(IMAGE_BASE_URL@ + r)),
            None => Err(RenderError::MissingRequiredAssociation),
        },
        k => Ok(plain_element(k)),
    }
}

/// The element an inline markup renders as: a link becomes an anchor to its
/// target; a markup cannot be an image.
pub open spec fn inline_element(m: MarkupView) -> Result<HtmlView, RenderError> {
    match m.kind {
        BlockKind::Image => Err(RenderError::UnsupportedMarkupKind),
        BlockKind::Link => match m.href {
            Some(h) => Ok(HtmlView::Link(h)),
            None => Err(RenderError::MissingRequiredAssociation),
        },
        k => Ok(plain_element(k)),
    }
}

pub open spec fn html_result_view(r: Result<Html, RenderError>) -> Result<HtmlView, RenderError> {
    match r {
        Ok(h) => Ok(h@),
        Err(e) => Err(e),
    }
}

fn plain_html(k: BlockKind) -> (r: Html)
    ensures
        r@ == plain_element(k),
{
    match k {
        BlockKind::Header3 => Html::Header3,
        BlockKind::Header4 => Html::Header4,
        BlockKind::Code => Html::Code,
        BlockKind::Preformatted => Html::Preformatted,
        BlockKind::ListItem => Html::ListItem,
        BlockKind::Quote => Html::Quote,
        _ => Html::Paragraph,
    }
}

/// Resolves the element of a paragraph.
pub fn paragraph_html(p: &Paragraph) -> (r: Result<Html, RenderError>)
    ensures
        html_result_view(r) == block_element(p@),
{
    match p.kind {
        BlockKind::Link => Err(RenderError::UnsupportedMarkupKind),
        BlockKind::Image => match &p.metadata {
            Some(m) => {
                let mut src = String::from_str(IMAGE_BASE_URL);
                src.append(m.image_ref.as_str());
                Ok(Html::Image(src))
            },
            None => Err(RenderError::MissingRequiredAssociation),
        },
        k => Ok(plain_html(k)),
    }
}

/// Resolves the element of an inline markup.
pub fn markup_html(m: &Markup) -> (r: Result<Html, RenderError>)
    ensures
        html_result_view(r) == inline_element(m@),
{
    match m.kind {
        BlockKind::Image => Err(RenderError::UnsupportedMarkupKind),
        BlockKind::Link => match &m.href {
            Some(h) => Ok(Html::Link(h.clone())),
            None => Err(RenderError::MissingRequiredAssociation),
        },
        k => Ok(plain_html(k)),
    }
}

impl Html {
    /// The text of this element's opening or closing tag.
    pub fn tag(&self, tag_type: TagType) -> (r: String)
        ensures
            r@ == tag_text(self@, tag_type),
    {
        let name = match self {
            Html::Paragraph => "p",
            Html::Header3 => "h3",
            Html::Header4 => "h4",
            Html::Code => "code",
            Html::Preformatted => "pre",
            Html::ListItem => "li",
            Html::Quote => "blockquote",
            Html::Link(href) => {
                return match tag_type {
                    TagType::Open => {
                        let mut r = String::from_str("<a href=\"");
                        r.append(href.as_str());
                        r.append("\">");
                        r
                    },
                    TagType::Close => String::from_str("</a>"),
                };
            },
            Html::Image(src) => {
                return match tag_type {
                    TagType::Open => {
                        let mut r = String::from_str("<figure><img src=\"");
                        r.append(src.as_str());
                        r.append("\"><figcaption>");
                        r
                    },
                    TagType::Close => String::from_str("</figcaption></figure>"),
                };
            },
        };
        let mut r = match tag_type {
            TagType::Open => String::from_str("<"),
            TagType::Close => String::from_str("</"),
        };
        r.append(name);
        r.append(">");
        proof {
            reveal_strlit("<");
            reveal_strlit("</");
            reveal_strlit(">");
        }
        r
    }
}

} // verus!
