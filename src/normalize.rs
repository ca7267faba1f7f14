use vstd::prelude::*;
use vstd::string::*;

use crate::model::{
    markups_view, paragraphs_view, Markup, MarkupView, Metadata, Paragraph, ParagraphView,
    RenderError,
};

verus! {

/// The long form in which image references may arrive.
pub const IMAGE_REF_PREFIX: &'static str = "ImageMetadata:";

/// The prefix of a link to a snapshot kept by the web archive.
pub const ARCHIVE_PREFIX: &'static str = "https://web.archive.org/web/";

/// An image reference without its long-form prefix.
pub open spec fn strip_image_ref_spec(s: Seq<char>) -> Seq<char> {
    if IMAGE_REF_PREFIX@.is_prefix_of(s) {
        s.skip(IMAGE_REF_PREFIX@.len() as int)
    } else {
        s
    }
}

/// What follows the first `/` of `s`, if `s` holds one.
pub open spec fn after_first_slash(s: Seq<char>) -> Option<Seq<char>>
    decreases s.len(),
{
    if s.len() == 0 {
        None
    } else if s[0] == '/' {
        Some(s.drop_first())
    } else {
        after_first_slash(s.drop_first())
    }
}

/// A link target with an archive snapshot wrapper removed: the archive
/// prefix, then everything up to and including the next `/`.
pub open spec fn rewrite_href_spec(s: Seq<char>) -> Result<Seq<char>, RenderError> {
    if ARCHIVE_PREFIX@.is_prefix_of(s) {
        match after_first_slash(s.skip(ARCHIVE_PREFIX@.len() as int)) {
            Some(r) => Ok(r),
            None => Err(RenderError::MalformedHref),
        }
    } else {
        Ok(s)
    }
}

pub open spec fn normalize_markup_spec(m: MarkupView) -> Result<MarkupView, RenderError> {
    match m.href {
        None => Ok(m),
        Some(h) => match rewrite_href_spec(h) {
            Ok(h2) => Ok(MarkupView { href: Some(h2), ..m }),
            Err(e) => Err(e),
        },
    }
}

/// Every markup normalized, or the error of the first that cannot be.
pub open spec fn normalize_markups_spec(ms: Seq<MarkupView>) -> Result<Seq<MarkupView>, RenderError>
    decreases ms.len(),
{
    if ms.len() == 0 {
        Ok(seq![])
    } else {
        match normalize_markups_spec(ms.drop_last()) {
            Err(e) => Err(e),
            Ok(done) => match normalize_markup_spec(ms.last()) {
                Err(e) => Err(e),
                Ok(m) => Ok(done.push(m)),
            },
        }
    }
}

pub open spec fn normalize_paragraph_spec(p: ParagraphView) -> Result<ParagraphView, RenderError> {
    match normalize_markups_spec(p.markups) {
        Err(e) => Err(e),
        Ok(ms) => Ok(
            ParagraphView {
                markups: ms,
                image_ref: match p.image_ref {
                    Some(r) => Some(strip_image_ref_spec(r)),
                    None => None,
                },
                ..p
            },
        ),
    }
}

/// Every paragraph normalized, or the error of the first that cannot be.
pub open spec fn normalize_all_spec(ps: Seq<ParagraphView>) -> Result<Seq<ParagraphView>, RenderError>
    decreases ps.len(),
{
    if ps.len() == 0 {
        Ok(seq![])
    } else {
        match normalize_all_spec(ps.drop_last()) {
            Err(e) => Err(e),
            Ok(done) => match normalize_paragraph_spec(ps.last()) {
                Err(e) => Err(e),
                Ok(p) => Ok(done.push(p)),
            },
        }
    }
}

/// Rewriting a link target a second time leaves what the first rewrite gave,
/// unless the first rewrite left another archive prefix in front.
pub proof fn lemma_rewrite_href_idempotent(s: Seq<char>)
    requires
        rewrite_href_spec(s) is Ok,
        !ARCHIVE_PREFIX@.is_prefix_of(rewrite_href_spec(s)->Ok_0),
    ensures
        rewrite_href_spec(rewrite_href_spec(s)->Ok_0) == rewrite_href_spec(s),
{
}

/// Stripping an image reference a second time leaves what the first strip
/// gave, unless the first strip left another long-form prefix in front.
pub proof fn lemma_strip_image_ref_idempotent(s: Seq<char>)
    requires
        !IMAGE_REF_PREFIX@.is_prefix_of(strip_image_ref_spec(s)),
    ensures
        strip_image_ref_spec(strip_image_ref_spec(s)) == strip_image_ref_spec(s),
{
}

/// Whether `s` starts with `prefix`.
pub fn has_prefix(s: &str, prefix: &str) -> (r: bool)
    ensures
        r == prefix@.is_prefix_of(s@),
{
    let n = s.unicode_len();
    let k = prefix.unicode_len();
    if k > n {
        return false;
    }
    let mut i: usize = 0;
    while i < k
        invariant
            i <= k <= n,
            n == s@.len(),
            k == prefix@.len(),
            forall|j: int| 0 <= j < i ==> prefix@[j] == s@[j],
        decreases k - i,
    {
        if prefix.get_char(i) != s.get_char(i) {
            return false;
        }
        i = i + 1;
    }
    assert(prefix@ =~= s@.subrange(0, k as int));
    true
}

/// Removes the long-form prefix of an image reference, if present.
pub fn strip_image_ref(s: &str) -> (r: String)
    ensures
        r@ == strip_image_ref_spec(s@),
{
    if has_prefix(s, IMAGE_REF_PREFIX) {
        let k = IMAGE_REF_PREFIX.unicode_len();
        let n = s.unicode_len();
        String::from_str(s.substring_char(k, n))
    } else {
        String::from_str(s)
    }
}

/// Removes an archive snapshot wrapper from a link target, if present.
pub fn rewrite_href(s: &str) -> (r: Result<String, RenderError>)
    ensures
        match rewrite_href_spec(s@) {
            Ok(t) => r is Ok && r->Ok_0@ == t,
            Err(e) => r == Err::<String, RenderError>(e),
        },
{
    if !has_prefix(s, ARCHIVE_PREFIX) {
        return Ok(String::from_str(s));
    }
    let k = ARCHIVE_PREFIX.unicode_len();
    let n = s.unicode_len();
    let rest = s.substring_char(k, n);
    assert(rest@ =~= s@.skip(k as int));
    let m = n - k;
    let mut j: usize = 0;
    assert(rest@.skip(0) =~= rest@);
    while j < m
        invariant
            j <= m,
            m == rest@.len(),
            rest@ == s@.skip(k as int),
            k == ARCHIVE_PREFIX@.len(),
            ARCHIVE_PREFIX@.is_prefix_of(s@),
            after_first_slash(rest@) == after_first_slash(rest@.skip(j as int)),
        decreases m - j,
    {
        assert(rest@.skip(j as int).drop_first() =~= rest@.skip(j + 1));
        if rest.get_char(j) == '/' {
            let tail = rest.substring_char(j + 1, m);
            assert(tail@ =~= rest@.skip(j + 1));
            assert(rest@.skip(j as int)[0] == '/');
            assert(after_first_slash(rest@.skip(j as int)) == Some(rest@.skip(j + 1)));
            return Ok(String::from_str(tail));
        }
        j = j + 1;
    }
    assert(rest@.skip(j as int).len() == 0);
    Err(RenderError::MalformedHref)
}

fn normalize_markup(m: &Markup) -> (r: Result<Markup, RenderError>)
    ensures
        match normalize_markup_spec(m@) {
            Ok(v) => r is Ok && r->Ok_0@ == v,
            Err(e) => r is Err && r->Err_0 == e,
        },
{
    let href = match &m.href {
        None => None,
        Some(h) => match rewrite_href(h.as_str()) {
            Ok(h2) => Some(h2),
            Err(e) => {
                return Err(e);
            },
        },
    };
    Ok(Markup { start: m.start, end: m.end, kind: m.kind, href })
}

proof fn lemma_markups_error_extends(ms: Seq<MarkupView>, k: int)
    requires
        0 <= k <= ms.len(),
        normalize_markups_spec(ms.take(k)) is Err,
    ensures
        normalize_markups_spec(ms) == normalize_markups_spec(ms.take(k)),
    decreases ms.len() - k,
{
    if k < ms.len() {
        assert(ms.take(k + 1).drop_last() =~= ms.take(k));
        lemma_markups_error_extends(ms, k + 1);
    } else {
        assert(ms.take(k) =~= ms);
    }
}

proof fn lemma_paragraphs_error_extends(ps: Seq<ParagraphView>, k: int)
    requires
        0 <= k <= ps.len(),
        normalize_all_spec(ps.take(k)) is Err,
    ensures
        normalize_all_spec(ps) == normalize_all_spec(ps.take(k)),
    decreases ps.len() - k,
{
    if k < ps.len() {
        assert(ps.take(k + 1).drop_last() =~= ps.take(k));
        lemma_paragraphs_error_extends(ps, k + 1);
    } else {
        assert(ps.take(k) =~= ps);
    }
}

/// Normalizes a paragraph: strips the long-form prefix of its image reference
/// and rewrites the targets of its links.
pub fn normalize_paragraph(p: &Paragraph) -> (r: Result<Paragraph, RenderError>)
    ensures
        match normalize_paragraph_spec(p@) {
            Ok(v) => r is Ok && r->Ok_0@ == v,
            Err(e) => r is Err && r->Err_0 == e,
        },
{
    let ghost mv = markups_view(p.markups@);
    let mut markups: Vec<Markup> = Vec::new();
    let mut i: usize = 0;
    assert(mv.take(0) =~= Seq::<MarkupView>::empty());
    assert(markups_view(markups@) =~= Seq::<MarkupView>::empty());
    while i < p.markups.len()
        invariant
            i <= p.markups.len(),
            mv == markups_view(p.markups@),
            normalize_markups_spec(mv.take(i as int)) == Ok::<Seq<MarkupView>, RenderError>(
                markups_view(markups@),
            ),
        decreases p.markups.len() - i,
    {
        assert(mv.take(i + 1).drop_last() =~= mv.take(i as int));
        let m = match normalize_markup(&p.markups[i]) {
            Ok(m) => m,
            Err(e) => {
                proof {
                    lemma_markups_error_extends(mv, i + 1);
                }
                return Err(e);
            },
        };
        let ghost before = markups_view(markups@);
        markups.push(m);
        assert(markups_view(markups@) =~= before.push(m@));
        i = i + 1;
    }
    assert(mv.take(i as int) =~= mv);
    let metadata = match &p.metadata {
        Some(md) => Some(Metadata { image_ref: strip_image_ref(md.image_ref.as_str()) }),
        None => None,
    };
    Ok(Paragraph { text: p.text.clone(), kind: p.kind, markups, layout: p.layout, metadata })
}

/// Normalizes every paragraph in place. On an error the paragraphs are left
/// as they were.
pub fn normalize(paragraphs: &mut Vec<Paragraph>) -> (r: Result<(), RenderError>)
    ensures
        match normalize_all_spec(paragraphs_view(old(paragraphs)@)) {
            Ok(v) => r is Ok && paragraphs_view(final(paragraphs)@) == v,
            Err(e) => r == Err::<(), RenderError>(e) && final(paragraphs)@ == old(paragraphs)@,
        },
{
    let ghost pv = paragraphs_view(paragraphs@);
    let mut out: Vec<Paragraph> = Vec::new();
    let mut i: usize = 0;
    assert(pv.take(0) =~= Seq::<ParagraphView>::empty());
    assert(paragraphs_view(out@) =~= Seq::<ParagraphView>::empty());
    while i < paragraphs.len()
        invariant
            i <= paragraphs.len(),
            paragraphs@ == old(paragraphs)@,
            pv == paragraphs_view(paragraphs@),
            normalize_all_spec(pv.take(i as int)) == Ok::<Seq<ParagraphView>, RenderError>(
                paragraphs_view(out@),
            ),
        decreases paragraphs.len() - i,
    {
        assert(pv.take(i + 1).drop_last() =~= pv.take(i as int));
        let p = match normalize_paragraph(&paragraphs[i]) {
            Ok(p) => p,
            Err(e) => {
                proof {
                    lemma_paragraphs_error_extends(pv, i + 1);
                }
                return Err(e);
            },
        };
        let ghost before = paragraphs_view(out@);
        out.push(p);
        assert(paragraphs_view(out@) =~= before.push(p@));
        i = i + 1;
    }
    assert(pv.take(i as int) =~= pv);
    *paragraphs = out;
    Ok(())
}

} // verus!
