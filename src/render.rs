use vstd::prelude::*;
use vstd::string::*;

use crate::html::{
    block_element, inline_element, markup_html, paragraph_html, tag_text, HtmlView, TagType,
};
use crate::model::{markups_view, Markup, MarkupView, Paragraph, ParagraphView, RenderError};

verus! {

/// The element of a markup, provided its range lies within a text of `n`
/// characters and is not reversed.
pub open spec fn markup_check(m: MarkupView, n: int) -> Result<HtmlView, RenderError> {
    match inline_element(m) {
        Err(e) => Err(e),
        Ok(h) => if 0 <= m.start <= m.end <= n {
            Ok(h)
        } else {
            Err(RenderError::MalformedInput)
        },
    }
}

/// The error of the first markup that fails `markup_check`, if any.
pub open spec fn markups_error(ms: Seq<MarkupView>, n: int) -> Option<RenderError>
    decreases ms.len(),
{
    if ms.len() == 0 {
        None
    } else {
        match markups_error(ms.drop_last(), n) {
            Some(e) => Some(e),
            None => match markup_check(ms.last(), n) {
                Err(e) => Some(e),
                Ok(_) => None,
            },
        }
    }
}

/// Entry `j` of the tag list: markup `j / 2` opens at its start when `j` is
/// even and closes at its end when `j` is odd.
pub open spec fn tag_entry(ms: Seq<MarkupView>, j: int) -> (int, Seq<char>) {
    let m = ms[j / 2];
    let h = inline_element(m)->Ok_0;
    if j % 2 == 0 {
        (m.start, tag_text(h, TagType::Open))
    } else {
        (m.end, tag_text(h, TagType::Close))
    }
}

/// Every markup's opening and closing tag with its offset, in markup order.
pub open spec fn tag_list(ms: Seq<MarkupView>) -> Seq<(int, Seq<char>)> {
    Seq::new((2 * ms.len()) as nat, |j: int| tag_entry(ms, j))
}

/// The tags placed at offset `i`, in the order of the list.
pub open spec fn tags_at(tags: Seq<(int, Seq<char>)>, i: int) -> Seq<char>
    decreases tags.len(),
{
    if tags.len() == 0 {
        seq![]
    } else {
        tags_at(tags.drop_last(), i) + if tags.last().0 == i {
            tags.last().1
        } else {
            seq![]
        }
    }
}

/// The first `k` offsets of the text, each with its tags followed by its
/// character (offset `text.len()` has tags only).
pub open spec fn marked(tags: Seq<(int, Seq<char>)>, text: Seq<char>, k: int) -> Seq<char>
    decreases k,
{
    if k <= 0 {
        seq![]
    } else {
        marked(tags, text, k - 1) + tags_at(tags, k - 1) + if k - 1 < text.len() {
            seq![text[k - 1]]
        } else {
            seq![]
        }
    }
}

/// The text with every tag inserted at its character offset; tags that share
/// an offset keep the order of the list.
pub open spec fn marked_text(tags: Seq<(int, Seq<char>)>, text: Seq<char>) -> Seq<char> {
    marked(tags, text, text.len() as int + 1)
}

/// The HTML fragment of one paragraph.
pub open spec fn render_spec(p: ParagraphView) -> Result<Seq<char>, RenderError> {
    match block_element(p) {
        Err(e) => Err(e),
        Ok(b) => if p.markups.len() == 0 {
            Ok(tag_text(b, TagType::Open) + p.text + tag_text(b, TagType::Close))
        } else {
            match markups_error(p.markups, p.text.len() as int) {
                Some(e) => Err(e),
                None => Ok(
                    tag_text(b, TagType::Open) + marked_text(tag_list(p.markups), p.text)
                        + tag_text(b, TagType::Close),
                ),
            }
        },
    }
}

pub open spec fn tags_view(tags: Seq<(usize, String)>) -> Seq<(int, Seq<char>)> {
    tags.map_values(|t: (usize, String)| (t.0 as int, t.1@))
}

proof fn lemma_error_extends(ms: Seq<MarkupView>, k: int, n: int)
    requires
        0 <= k <= ms.len(),
        markups_error(ms.take(k), n) is Some,
    ensures
        markups_error(ms, n) == markups_error(ms.take(k), n),
    decreases ms.len() - k,
{
    if k < ms.len() {
        assert(ms.take(k + 1).drop_last() =~= ms.take(k));
        lemma_error_extends(ms, k + 1, n);
    } else {
        assert(ms.take(k) =~= ms);
    }
}

/// The tag list of the markups, or the error of the first markup that has none.
fn collect_tags(ms: &Vec<Markup>, n: usize) -> (r: Result<Vec<(usize, String)>, RenderError>)
    ensures
        match markups_error(markups_view(ms@), n as int) {
            Some(e) => r == Err::<Vec<(usize, String)>, RenderError>(e),
            None => r is Ok && tags_view(r->Ok_0@) == tag_list(markups_view(ms@)),
        },
{
    let ghost mv = markups_view(ms@);
    let mut tags: Vec<(usize, String)> = Vec::new();
    let mut i: usize = 0;
    while i < ms.len()
        invariant
            i <= ms.len(),
            mv == markups_view(ms@),
            markups_error(mv.take(i as int), n as int) is None,
            tags@.len() == 2 * i,
            forall|j: int|
                0 <= j < 2 * i ==> (#[trigger] tags@[j]).0 as int == tag_entry(mv, j).0
                    && tags@[j].1@ == tag_entry(mv, j).1,
        decreases ms.len() - i,
    {
        let m = &ms[i];
        assert(mv.take(i + 1).drop_last() =~= mv.take(i as int));
        assert(mv[i as int] == m@);
        let h = match markup_html(m) {
            Ok(h) => h,
            Err(e) => {
                proof {
                    lemma_error_extends(mv, i + 1, n as int);
                }
                return Err(e);
            },
        };
        if !(m.start <= m.end && m.end <= n) {
            proof {
                lemma_error_extends(mv, i + 1, n as int);
            }
            return Err(RenderError::MalformedInput);
        }
        tags.push((m.start, h.tag(TagType::Open)));
        tags.push((m.end, h.tag(TagType::Close)));
        i = i + 1;
        assert(forall|j: int| 0 <= j < 2 * i ==> #[trigger] ((j / 2) as int) < i);
    }
    proof {
        assert(mv.take(i as int) =~= mv);
        assert(tags_view(tags@) =~= tag_list(mv));
    }
    Ok(tags)
}

/// Appends the tags placed at offset `i`.
fn append_tags_at(buf: &mut String, tags: &Vec<(usize, String)>, i: usize)
    ensures
        final(buf)@ == old(buf)@ + tags_at(tags_view(tags@), i as int),
{
    let ghost tv = tags_view(tags@);
    let mut j: usize = 0;
    while j < tags.len()
        invariant
            j <= tags.len(),
            tv == tags_view(tags@),
            buf@ == old(buf)@ + tags_at(tv.take(j as int), i as int),
        decreases tags.len() - j,
    {
        assert(tv.take(j + 1).drop_last() =~= tv.take(j as int));
        if tags[j].0 == i {
            buf.append(tags[j].1.as_str());
        }
        j = j + 1;
    }
    assert(tv.take(j as int) =~= tv);
}

/// The text with the tags inserted at their character offsets.
fn place_tags(tags: &Vec<(usize, String)>, text: &str) -> (r: String)
    ensures
        r@ == marked_text(tags_view(tags@), text@),
{
    let ghost tv = tags_view(tags@);
    let n = text.unicode_len();
    let mut buf = String::new();
    let mut i: usize = 0;
    while i < n
        invariant
            i <= n,
            n == text@.len(),
            tv == tags_view(tags@),
            buf@ == marked(tv, text@, i as int),
        decreases n - i,
    {
        append_tags_at(&mut buf, tags, i);
        let c = text.substring_char(i, i + 1);
        assert(c@ =~= seq![text@[i as int]]);
        buf.append(c);
        i = i + 1;
    }
    append_tags_at(&mut buf, tags, n);
    buf
}

/// Renders one paragraph as an HTML fragment: its inline tags inserted at
/// their character offsets, all wrapped in the paragraph's own element.
pub fn render_paragraph(p: &Paragraph) -> (r: Result<String, RenderError>)
    ensures
        match render_spec(p@) {
            Ok(s) => r is Ok && r->Ok_0@ == s,
            Err(e) => r == Err::<String, RenderError>(e),
        },
        p@.markups.len() == 0 && block_element(p@) is Ok ==> r is Ok && r->Ok_0@ == tag_text(
            block_element(p@)->Ok_0,
            TagType::Open,
        ) + p@.text + tag_text(block_element(p@)->Ok_0, TagType::Close),
{
    let block = match paragraph_html(p) {
        Ok(b) => b,
        Err(e) => {
            return Err(e);
        },
    };
    let open = block.tag(TagType::Open);
    let close = block.tag(TagType::Close);
    if p.markups.len() == 0 {
        let mut buf = open;
        buf.append(p.text.as_str());
        buf.append(close.as_str());
        return Ok(buf);
    }
    let n = p.text.as_str().unicode_len();
    let tags = match collect_tags(&p.markups, n) {
        Ok(t) => t,
        Err(e) => {
            return Err(e);
        },
    };
    let body = place_tags(&tags, p.text.as_str());
    let mut buf = open;
    buf.append(body.as_str());
    buf.append(close.as_str());
    Ok(buf)
}

} // verus!
