use vstd::prelude::*;

use crate::model::MarkupView;
use crate::render::{marked, marked_text, markups_error, tag_entry, tag_list, tags_at};

verus! {

/// Where the tag of list entry `j` begins in `marked_text(tags, text)`: after
/// every earlier offset, and after the earlier entries at its own offset.
pub open spec fn tag_pos(tags: Seq<(int, Seq<char>)>, text: Seq<char>, j: int) -> int {
    (marked(tags, text, tags[j].0).len() + tags_at(tags.take(j), tags[j].0).len()) as int
}

/// The tag of entry `j` stands whole at `tag_pos` in `out`.
pub open spec fn placed_at(
    out: Seq<char>,
    tags: Seq<(int, Seq<char>)>,
    text: Seq<char>,
    j: int,
) -> bool {
    let p = tag_pos(tags, text, j);
    0 <= p && p + tags[j].1.len() <= out.len() && out.subrange(p, p + tags[j].1.len()) == tags[j].1
}

/// The tag of entry `j1` ends at or before the place where that of `j2` begins.
pub open spec fn ends_before(tags: Seq<(int, Seq<char>)>, text: Seq<char>, j1: int, j2: int) -> bool {
    tag_pos(tags, text, j1) + tags[j1].1.len() <= tag_pos(tags, text, j2)
}

/// Two markups, `a` listed before `b`, whose ranges nest or are disjoint in
/// a way that the rendering keeps: `b` inside `a` and ending strictly before
/// it, `a` inside `b` and starting strictly after it, `a` ending where or
/// before `b` starts, or `b` ending strictly before `a` starts. (Ranges that
/// share a boundary otherwise have their tags placed in list order there,
/// which crosses them.)
pub open spec fn nested_or_disjoint(a: MarkupView, b: MarkupView) -> bool {
    ||| (a.start <= b.start && b.end < a.end)
    ||| (b.start < a.start && a.end <= b.end)
    ||| a.end <= b.start
    ||| b.end < a.start
}

proof fn lemma_marked_prefix(tags: Seq<(int, Seq<char>)>, text: Seq<char>, k1: int, k2: int)
    requires
        0 <= k1 <= k2,
    ensures
        marked(tags, text, k1).len() <= marked(tags, text, k2).len(),
        marked(tags, text, k2).subrange(0, marked(tags, text, k1).len() as int) == marked(
            tags,
            text,
            k1,
        ),
    decreases k2,
{
    if k1 < k2 {
        lemma_marked_prefix(tags, text, k1, k2 - 1);
        let m1 = marked(tags, text, k1);
        let m = marked(tags, text, k2 - 1);
        assert(marked(tags, text, k2).subrange(0, m.len() as int) =~= m);
        assert(marked(tags, text, k2).subrange(0, m1.len() as int) =~= m.subrange(
            0,
            m1.len() as int,
        ));
    } else {
        assert(marked(tags, text, k2).subrange(0, marked(tags, text, k2).len() as int) =~= marked(
            tags,
            text,
            k2,
        ));
    }
}

proof fn lemma_tags_at_prefix(tags: Seq<(int, Seq<char>)>, o: int, j1: int, j2: int)
    requires
        0 <= j1 <= j2 <= tags.len(),
    ensures
        tags_at(tags.take(j1), o).len() <= tags_at(tags.take(j2), o).len(),
        tags_at(tags.take(j2), o).subrange(0, tags_at(tags.take(j1), o).len() as int) == tags_at(
            tags.take(j1),
            o,
        ),
    decreases j2,
{
    let t1 = tags_at(tags.take(j1), o);
    let t2 = tags_at(tags.take(j2), o);
    if j1 < j2 {
        lemma_tags_at_prefix(tags, o, j1, j2 - 1);
        assert(tags.take(j2).drop_last() =~= tags.take(j2 - 1));
        let t = tags_at(tags.take(j2 - 1), o);
        assert(t2.subrange(0, t.len() as int) =~= t);
        assert(t2.subrange(0, t1.len() as int) =~= t.subrange(0, t1.len() as int));
    } else {
        assert(t2.subrange(0, t2.len() as int) =~= t2);
    }
}

proof fn lemma_tags_at_step(tags: Seq<(int, Seq<char>)>, j: int)
    requires
        0 <= j < tags.len(),
    ensures
        tags_at(tags.take(j + 1), tags[j].0) == tags_at(tags.take(j), tags[j].0) + tags[j].1,
{
    assert(tags.take(j + 1).drop_last() =~= tags.take(j));
}

/// Each tag whose offset lies within the text stands whole at `tag_pos`.
pub proof fn lemma_tag_placed(tags: Seq<(int, Seq<char>)>, text: Seq<char>, j: int)
    requires
        0 <= j < tags.len(),
        0 <= tags[j].0 <= text.len(),
    ensures
        placed_at(marked_text(tags, text), tags, text, j),
{
    let o = tags[j].0;
    let out = marked_text(tags, text);
    let m = marked(tags, text, o);
    let t = tags_at(tags, o);
    let before = tags_at(tags.take(j), o);
    let tag = tags[j].1;
    lemma_marked_prefix(tags, text, o + 1, text.len() as int + 1);
    lemma_tags_at_step(tags, j);
    lemma_tags_at_prefix(tags, o, j + 1, tags.len() as int);
    assert(tags.take(tags.len() as int) =~= tags);
    let m1 = marked(tags, text, o + 1);
    assert(m1 == m + t + if o < text.len() {
        seq![text[o]]
    } else {
        seq![]
    });
    let bl = before.len() as int;
    let tl = tag.len() as int;
    let p = m.len() as int + bl;
    assert(t.subrange(0, bl + tl) == before + tag);
    assert(bl + tl <= t.len());
    assert(p + tl <= m1.len());
    assert(m1.len() <= out.len());
    assert(out.subrange(0, m1.len() as int) == m1);
    assert(out.subrange(p, p + tl) =~= m1.subrange(p, p + tl));
    assert(m1.subrange(p, p + tl) =~= t.subrange(bl, bl + tl));
    assert((before + tag).subrange(bl, bl + tl) =~= tag);
    assert(out.subrange(p, p + tl) == tag);
}

/// Tags come out ordered by offset, and in list order at one offset.
pub proof fn lemma_tag_order(tags: Seq<(int, Seq<char>)>, text: Seq<char>, j1: int, j2: int)
    requires
        0 <= j1 < tags.len(),
        0 <= j2 < tags.len(),
        0 <= tags[j1].0,
        tags[j1].0 < tags[j2].0 || (tags[j1].0 == tags[j2].0 && j1 < j2),
    ensures
        ends_before(tags, text, j1, j2),
{
    let o1 = tags[j1].0;
    let o2 = tags[j2].0;
    lemma_tags_at_step(tags, j1);
    if o1 < o2 {
        lemma_tags_at_prefix(tags, o1, j1 + 1, tags.len() as int);
        assert(tags.take(tags.len() as int) =~= tags);
        lemma_marked_prefix(tags, text, o1 + 1, o2);
    } else {
        lemma_tags_at_prefix(tags, o1, j1 + 1, j2);
    }
}

/// With well-formed markups, the rendered text holds every opening and
/// closing tag, each opening tag before its closing tag, and the tags of two
/// markups whose ranges nest or are disjoint nest as the ranges do.
pub proof fn lemma_nesting(ms: Seq<MarkupView>, text: Seq<char>, a: int, b: int)
    requires
        markups_error(ms, text.len() as int) is None,
        0 <= a < b < ms.len(),
        nested_or_disjoint(ms[a], ms[b]),
    ensures
        ({
            let tags = tag_list(ms);
            let out = marked_text(tags, text);
            &&& forall|j: int| 0 <= j < tags.len() ==> #[trigger] placed_at(out, tags, text, j)
            &&& forall|i: int|
                0 <= i < ms.len() ==> #[trigger] ends_before(tags, text, 2 * i, 2 * i + 1)
            &&& (ms[a].start <= ms[b].start && ms[b].end < ms[a].end) ==> ends_before(
                tags,
                text,
                2 * a,
                2 * b,
            ) && ends_before(tags, text, 2 * b + 1, 2 * a + 1)
            &&& (ms[b].start < ms[a].start && ms[a].end <= ms[b].end) ==> ends_before(
                tags,
                text,
                2 * b,
                2 * a,
            ) && ends_before(tags, text, 2 * a + 1, 2 * b + 1)
            &&& ms[a].end <= ms[b].start ==> ends_before(tags, text, 2 * a + 1, 2 * b)
            &&& ms[b].end < ms[a].start ==> ends_before(tags, text, 2 * b + 1, 2 * a)
        }),
{
    let tags = tag_list(ms);
    let n = text.len() as int;
    lemma_markups_valid(ms, n);
    assert forall|j: int| 0 <= j < tags.len() implies placed_at(
        marked_text(tags, text),
        tags,
        text,
        j,
    ) by {
        assert(0 <= j / 2 < ms.len());
        assert(tags[j] == tag_entry(ms, j));
        assert(0 <= ms[j / 2].start <= ms[j / 2].end <= n);
        lemma_tag_placed(tags, text, j);
    }
    assert forall|i: int| 0 <= i < ms.len() implies #[trigger] ends_before(
        tags,
        text,
        2 * i,
        2 * i + 1,
    ) by {
        assert((2 * i) / 2 == i && (2 * i + 1) / 2 == i);
        lemma_tag_order(tags, text, 2 * i, 2 * i + 1);
    }
    assert((2 * a) / 2 == a && (2 * a + 1) / 2 == a);
    assert((2 * b) / 2 == b && (2 * b + 1) / 2 == b);
    if ms[a].start <= ms[b].start && ms[b].end < ms[a].end {
        lemma_tag_order(tags, text, 2 * a, 2 * b);
        lemma_tag_order(tags, text, 2 * b + 1, 2 * a + 1);
    }
    if ms[b].start < ms[a].start && ms[a].end <= ms[b].end {
        lemma_tag_order(tags, text, 2 * b, 2 * a);
        lemma_tag_order(tags, text, 2 * a + 1, 2 * b + 1);
    }
    if ms[a].end <= ms[b].start {
        lemma_tag_order(tags, text, 2 * a + 1, 2 * b);
    }
    if ms[b].end < ms[a].start {
        lemma_tag_order(tags, text, 2 * b + 1, 2 * a);
    }
}

proof fn lemma_markups_valid(ms: Seq<MarkupView>, n: int)
    requires
        markups_error(ms, n) is None,
    ensures
        forall|i: int| 0 <= i < ms.len() ==> 0 <= #[trigger] ms[i].start <= ms[i].end <= n,
    decreases ms.len(),
{
    if ms.len() > 0 {
        lemma_markups_valid(ms.drop_last(), n);
        assert forall|i: int| 0 <= i < ms.len() implies 0 <= #[trigger] ms[i].start <= ms[i].end <= n by {
            if i < ms.len() - 1 {
                assert(ms.drop_last()[i] == ms[i]);
            }
        }
    }
}

} // verus!
