use vstd::prelude::*;
use vstd::string::*;

use crate::model::{paragraphs_view, BlockKind, Paragraph, ParagraphView, RenderError};
use crate::normalize::{normalize, normalize_all_spec};
use crate::render::{render_paragraph, render_spec};

verus! {

/// Opens the enclosing list of a run of list items.
pub const LIST_OPEN: &'static str = "<ul>";

/// Closes the enclosing list of a run of list items.
pub const LIST_CLOSE: &'static str = "</ul>";

/// The page up to and including the opening of its body.
pub const PAGE_HEAD: &'static str = r#"<!DOCTYPE html>
<html lang="en">

<head>
  <meta charset="utf-8">
  <title>Vector vs SIMD Intructions</title>
  <style>
    body {
      background-color: black;
      color: white;
      margin-left: 25%;
      margin-right: 25%;
    }
    figure {
      display: block;
      margin-left: 20%;
      margin-right: 20%;
      text-align: center;
    }
    blockquote {
      color: #FFF0D8;
      background-color: #101018;
      font-style: italic;
      border-left: .2em solid #606058;
      padding-left: 1em;
    }
    blockquote:before {
      content: '“';
    }
    blockquote:after {
      content: '”';
    }
    a {
      padding-left: 0.2em;
      padding-right: 0.2em;
    }
    a:link {
      color: #40D0FF;
    }
    a:visited {
      color: #A050E0;
    }
    a:hover {
      background-color: #202020;
      border-radius: 0.4em;
    }
  </style>
</head>

<body>
"#;

/// The page from the closing of its body on.
pub const PAGE_TAIL: &'static str = "\n</body>\n\n</html>\n";

/// A rendered paragraph together with the kind of the paragraph it came from.
pub struct Fragment {
    pub kind: BlockKind,
    pub html: String,
}

/// What goes before a paragraph of kind `kind` when the list is open
/// (`in_list`) or not: a list item opens the list unless it is open, any
/// other paragraph closes it if it is open.
pub open spec fn list_prefix(in_list: bool, kind: BlockKind) -> Seq<char> {
    if kind == BlockKind::ListItem {
        if in_list {
            seq![]
        } else {
            LIST_OPEN@
        }
    } else if in_list {
        LIST_CLOSE@
    } else {
        seq![]
    }
}

/// Whether the list is open after a paragraph of kind `kind`.
pub open spec fn next_in_list(in_list: bool, kind: BlockKind) -> bool {
    kind == BlockKind::ListItem
}

/// Whether the list is open after the first `k` paragraphs; it starts closed.
pub open spec fn list_state(kinds: Seq<BlockKind>, k: int) -> bool
    decreases k,
{
    if k <= 0 {
        false
    } else {
        next_in_list(list_state(kinds, k - 1), kinds[k - 1])
    }
}

/// Each fragment with the list tag that its place in the run of paragraphs
/// calls for.
pub open spec fn grouped(kinds: Seq<BlockKind>, frags: Seq<Seq<char>>) -> Seq<Seq<char>> {
    Seq::new(frags.len(), |i: int| list_prefix(list_state(kinds, i), kinds[i]) + frags[i])
}

/// The lines, each followed by a newline.
pub open spec fn join_lines(lines: Seq<Seq<char>>) -> Seq<char>
    decreases lines.len(),
{
    if lines.len() == 0 {
        seq![]
    } else {
        join_lines(lines.drop_last()) + lines.last() + seq!['\n']
    }
}

/// The fragment of every paragraph, or the error of the first that has none.
pub open spec fn render_all_spec(ps: Seq<ParagraphView>) -> Result<Seq<Seq<char>>, RenderError>
    decreases ps.len(),
{
    if ps.len() == 0 {
        Ok(seq![])
    } else {
        match render_all_spec(ps.drop_last()) {
            Err(e) => Err(e),
            Ok(done) => match render_spec(ps.last()) {
                Err(e) => Err(e),
                Ok(f) => Ok(done.push(f)),
            },
        }
    }
}

pub open spec fn kinds_of(ps: Seq<ParagraphView>) -> Seq<BlockKind> {
    ps.map_values(|p: ParagraphView| p.kind)
}

/// The body of the document: the grouped fragments, one per line.
pub open spec fn body_spec(ps: Seq<ParagraphView>) -> Result<Seq<char>, RenderError> {
    match render_all_spec(ps) {
        Err(e) => Err(e),
        Ok(frags) => Ok(join_lines(grouped(kinds_of(ps), frags))),
    }
}

pub open spec fn page_spec(body: Seq<char>) -> Seq<char> {
    PAGE_HEAD@ + body + PAGE_TAIL@
}

/// The whole page of an article: normalized, rendered, grouped and wrapped.
pub open spec fn document_spec(ps: Seq<ParagraphView>) -> Result<Seq<char>, RenderError> {
    match normalize_all_spec(ps) {
        Err(e) => Err(e),
        Ok(n) => match body_spec(n) {
            Err(e) => Err(e),
            Ok(b) => Ok(page_spec(b)),
        },
    }
}

pub open spec fn fragment_kinds(fs: Seq<Fragment>) -> Seq<BlockKind> {
    fs.map_values(|f: Fragment| f.kind)
}

pub open spec fn fragment_texts(fs: Seq<Fragment>) -> Seq<Seq<char>> {
    fs.map_values(|f: Fragment| f.html@)
}

pub open spec fn strings_view(v: Seq<String>) -> Seq<Seq<char>> {
    v.map_values(|s: String| s@)
}

/// One step of the list-grouping state machine: the next state, and the
/// fragment with the list tag it calls for.
pub fn group_step(in_list: bool, kind: BlockKind, html: &str) -> (r: (bool, String))
    ensures
        r.0 == next_in_list(in_list, kind),
        r.1@ == list_prefix(in_list, kind) + html@,
{
    let mut out = String::new();
    if kind == BlockKind::ListItem {
        if !in_list {
            out.append(LIST_OPEN);
        }
    } else if in_list {
        out.append(LIST_CLOSE);
    }
    out.append(html);
    assert(out@ =~= list_prefix(in_list, kind) + html@);
    (kind == BlockKind::ListItem, out)
}

/// Wraps each run of consecutive list items in one list: the first item of a
/// run gets the opening tag, the first paragraph after a run the closing tag.
/// A run that ends the sequence is left open.
pub fn group_lists(fragments: &Vec<Fragment>) -> (r: Vec<String>)
    ensures
        strings_view(r@) == grouped(fragment_kinds(fragments@), fragment_texts(fragments@)),
{
    let ghost kinds = fragment_kinds(fragments@);
    let ghost want = grouped(kinds, fragment_texts(fragments@));
    let mut out: Vec<String> = Vec::new();
    let mut in_list = false;
    let mut i: usize = 0;
    while i < fragments.len()
        invariant
            i <= fragments.len(),
            kinds == fragment_kinds(fragments@),
            want == grouped(kinds, fragment_texts(fragments@)),
            in_list == list_state(kinds, i as int),
            strings_view(out@) == want.take(i as int),
        decreases fragments.len() - i,
    {
        let (next, s) = group_step(in_list, fragments[i].kind, fragments[i].html.as_str());
        let ghost before = strings_view(out@);
        out.push(s);
        assert(strings_view(out@) =~= before.push(s@));
        assert(want.take(i + 1) =~= want.take(i as int).push(want[i as int]));
        in_list = next;
        i = i + 1;
    }
    assert(want.take(i as int) =~= want);
    out
}

/// The lines joined, each followed by a newline.
pub fn join(lines: &Vec<String>) -> (r: String)
    ensures
        r@ == join_lines(strings_view(lines@)),
{
    let ghost lv = strings_view(lines@);
    let mut out = String::new();
    let mut i: usize = 0;
    while i < lines.len()
        invariant
            i <= lines.len(),
            lv == strings_view(lines@),
            out@ == join_lines(lv.take(i as int)),
        decreases lines.len() - i,
    {
        assert(lv.take(i + 1).drop_last() =~= lv.take(i as int));
        out.append(lines[i].as_str());
        out.append("\n");
        proof {
            reveal_strlit("\n");
        }
        i = i + 1;
    }
    assert(lv.take(i as int) =~= lv);
    out
}

proof fn lemma_render_error_extends(ps: Seq<ParagraphView>, k: int)
    requires
        0 <= k <= ps.len(),
        render_all_spec(ps.take(k)) is Err,
    ensures
        render_all_spec(ps) == render_all_spec(ps.take(k)),
    decreases ps.len() - k,
{
    if k < ps.len() {
        assert(ps.take(k + 1).drop_last() =~= ps.take(k));
        lemma_render_error_extends(ps, k + 1);
    } else {
        assert(ps.take(k) =~= ps);
    }
}

/// Renders every paragraph, each with the kind it came from.
pub fn render_fragments(paragraphs: &Vec<Paragraph>) -> (r: Result<Vec<Fragment>, RenderError>)
    ensures
        match render_all_spec(paragraphs_view(paragraphs@)) {
            Ok(frags) => r is Ok && fragment_texts(r->Ok_0@) == frags && fragment_kinds(r->Ok_0@)
                == kinds_of(paragraphs_view(paragraphs@)),
            Err(e) => r is Err && r->Err_0 == e,
        },
{
    let ghost pv = paragraphs_view(paragraphs@);
    let mut out: Vec<Fragment> = Vec::new();
    let mut i: usize = 0;
    assert(pv.take(0) =~= Seq::<ParagraphView>::empty());
    assert(fragment_texts(out@) =~= Seq::<Seq<char>>::empty());
    while i < paragraphs.len()
        invariant
            i <= paragraphs.len(),
            pv == paragraphs_view(paragraphs@),
            render_all_spec(pv.take(i as int)) == Ok::<Seq<Seq<char>>, RenderError>(
                fragment_texts(out@),
            ),
            fragment_kinds(out@) == kinds_of(pv.take(i as int)),
        decreases paragraphs.len() - i,
    {
        assert(pv.take(i + 1).drop_last() =~= pv.take(i as int));
        let html = match render_paragraph(&paragraphs[i]) {
            Ok(h) => h,
            Err(e) => {
                proof {
                    lemma_render_error_extends(pv, i + 1);
                }
                return Err(e);
            },
        };
        let ghost texts = fragment_texts(out@);
        let ghost kinds = fragment_kinds(out@);
        let f = Fragment { kind: paragraphs[i].kind, html };
        out.push(f);
        assert(fragment_texts(out@) =~= texts.push(f.html@));
        assert(pv[i as int].kind == f.kind);
        assert(fragment_kinds(out@) =~= kinds.push(f.kind));
        assert(kinds_of(pv.take(i + 1)) =~= kinds_of(pv.take(i as int)).push(pv[i as int].kind));
        i = i + 1;
    }
    assert(pv.take(i as int) =~= pv);
    Ok(out)
}

/// Renders the body of the document: every paragraph's fragment, with runs
/// of list items grouped, one per line.
pub fn render_body(paragraphs: &Vec<Paragraph>) -> (r: Result<String, RenderError>)
    ensures
        match body_spec(paragraphs_view(paragraphs@)) {
            Ok(b) => r is Ok && r->Ok_0@ == b,
            Err(e) => r is Err && r->Err_0 == e,
        },
{
    let fragments = match render_fragments(paragraphs) {
        Ok(f) => f,
        Err(e) => {
            return Err(e);
        },
    };
    let lines = group_lists(&fragments);
    Ok(join(&lines))
}

/// Embeds a body in the page shell.
pub fn render_page(body: &str) -> (r: String)
    ensures
        r@ == page_spec(body@),
{
    let mut out = String::from_str(PAGE_HEAD);
    out.append(body);
    out.append(PAGE_TAIL);
    out
}

/// Turns an article into its HTML page: normalizes the paragraphs in place,
/// renders them, groups list items and wraps the body in the page shell.
pub fn render_document(paragraphs: &mut Vec<Paragraph>) -> (r: Result<String, RenderError>)
    ensures
        match document_spec(paragraphs_view(old(paragraphs)@)) {
            Ok(d) => r is Ok && r->Ok_0@ == d,
            Err(e) => r is Err && r->Err_0 == e,
        },
{
    match normalize(paragraphs) {
        Ok(()) => {},
        Err(e) => {
            return Err(e);
        },
    }
    let body = match render_body(paragraphs) {
        Ok(b) => b,
        Err(e) => {
            return Err(e);
        },
    };
    Ok(render_page(body.as_str()))
}

} // verus!
