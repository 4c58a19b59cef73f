//! Folding tool results into the tool calls they answer.

use vstd::prelude::*;
use std::collections::VecDeque;
use crate::json::str_eq;
use crate::types::{lemma_views_push, views, DisplayEntry, EntryView, ResultView, ToolCallResult};

verus! {

/// `b` answers `a`: `a` is a tool call with no result yet and `b` is the
/// tool result with its id.
pub open spec fn folds(a: EntryView, b: EntryView) -> bool {
    &&& a matches EntryView::ToolCall { result: None, .. }
    &&& b matches EntryView::ToolResult { .. }
    &&& b->ToolResult_tool_use_id == a->ToolCall_id
}

/// The call `a` with the result `b` folded in.
pub open spec fn fold(a: EntryView, b: EntryView) -> EntryView {
    EntryView::ToolCall {
        name: a->ToolCall_name,
        input: a->ToolCall_input,
        id: a->ToolCall_id,
        timestamp: a->ToolCall_timestamp,
        result: Some(ResultView { content: b->ToolResult_content, is_error: b->ToolResult_is_error }),
    }
}

/// One forward pass: each call directly followed by its result absorbs it.
pub open spec fn merge(s: Seq<EntryView>) -> Seq<EntryView>
    decreases s.len(),
{
    if s.len() == 0 {
        Seq::empty()
    } else if s.len() >= 2 && folds(s[0], s[1]) {
        seq![fold(s[0], s[1])] + merge(s.subrange(2, s.len() as int))
    } else {
        seq![s[0]] + merge(s.drop_first())
    }
}

/// Appends a merged batch to a buffer, folding the batch's leading result
/// into the buffer's trailing call when it answers it.
pub open spec fn continuation(buf: Seq<EntryView>, batch: Seq<EntryView>) -> Seq<EntryView> {
    if buf.len() > 0 && batch.len() > 0 && folds(buf.last(), batch[0]) {
        buf.drop_last().push(fold(buf.last(), batch[0])) + batch.drop_first()
    } else {
        buf + batch
    }
}

/// No call in `t` is directly followed by its own result.
pub open spec fn no_fold_pairs(t: Seq<EntryView>) -> bool {
    forall|i: int| 0 <= i < t.len() - 1 ==> !folds(#[trigger] t[i], t[i + 1])
}

/// Whether `b` answers `a` (see `folds`).
pub fn can_fold(a: &DisplayEntry, b: &DisplayEntry) -> (r: bool)
    ensures
        r == folds(a@, b@),
{
    match (a, b) {
        (DisplayEntry::ToolCall { id, result: None, .. }, DisplayEntry::ToolResult { tool_use_id, .. }) => str_eq(
            tool_use_id.as_str(),
            id.as_str(),
        ),
        _ => false,
    }
}

/// The call `a` with the result `b` folded in.
pub fn fold_result(a: &DisplayEntry, b: &DisplayEntry) -> (r: DisplayEntry)
    requires
        folds(a@, b@),
    ensures
        r@ == fold(a@, b@),
{
    match (a, b) {
        (DisplayEntry::ToolCall { name, input, id, timestamp, .. }, DisplayEntry::ToolResult { content, is_error, .. }) => {
            DisplayEntry::ToolCall {
                name: name.clone(),
                input: input.clone(),
                id: id.clone(),
                timestamp: *timestamp,
                result: Some(ToolCallResult { content: content.clone(), is_error: *is_error }),
            }
        },
        _ => a.copy(),
    }
}

/// Folds each tool result that directly follows its call into that call;
/// results that do not directly follow their call stay where they are.
pub fn merge_tool_results(entries: Vec<DisplayEntry>) -> (r: Vec<DisplayEntry>)
    ensures
        views(r@) == merge(views(entries@)),
{
    let ghost s = views(entries@);
    let n = entries.len();
    let mut out: Vec<DisplayEntry> = Vec::new();
    let mut i: usize = 0;
    proof {
        assert(s.subrange(0, n as int) =~= s);
        assert(views(out@) + merge(s) =~= merge(s));
    }
    while i < n
        invariant
            n == entries.len(),
            s == views(entries@),
            i <= n,
            merge(s) == views(out@) + merge(s.subrange(i as int, n as int)),
        decreases n - i,
    {
        let ghost rest = s.subrange(i as int, n as int);
        if i + 1 < n && can_fold(&entries[i], &entries[i + 1]) {
            let e = fold_result(&entries[i], &entries[i + 1]);
            proof {
                assert(rest[0] == s[i as int] && rest[1] == s[i + 1]);
                assert(rest.subrange(2, rest.len() as int) =~= s.subrange(i + 2, n as int));
                lemma_views_push(out@, e);
            }
            out.push(e);
            i += 2;
        } else {
            let e = entries[i].copy();
            proof {
                assert(rest[0] == s[i as int]);
                if i + 1 < n {
                    assert(rest[1] == s[i + 1]);
                }
                assert(rest.drop_first() =~= s.subrange(i + 1, n as int));
                lemma_views_push(out@, e);
            }
            out.push(e);
            i += 1;
        }
    }
    proof {
        assert(s.subrange(i as int, n as int) =~= Seq::<EntryView>::empty());
        assert(views(out@) + Seq::<EntryView>::empty() =~= views(out@));
    }
    out
}

/// Appends an already merged batch to the buffer, folding the batch's
/// leading tool result into the buffer's trailing unresolved call when it
/// answers it.
pub fn continuation_merge(buf: &mut VecDeque<DisplayEntry>, batch: Vec<DisplayEntry>)
    ensures
        views(final(buf)@) == continuation(views(old(buf)@), views(batch@)),
{
    let n = buf.len();
    let mut start: usize = 0;
    if n > 0 && batch.len() > 0 && can_fold(&buf[n - 1], &batch[0]) {
        let e = fold_result(&buf[n - 1], &batch[0]);
        let _ = buf.pop_back();
        proof {
            lemma_views_push(buf@, e);
            assert(views(old(buf)@).drop_last() =~= views(buf@));
        }
        buf.push_back(e);
        start = 1;
    }
    let ghost base = buf@;
    let mut i: usize = start;
    proof {
        assert(views(batch@).subrange(start as int, start as int) =~= Seq::<EntryView>::empty());
        assert(views(buf@) =~= views(base) + views(batch@).subrange(start as int, start as int));
    }
    while i < batch.len()
        invariant
            start <= i <= batch.len(),
            views(buf@) == views(base) + views(batch@).subrange(start as int, i as int),
        decreases batch.len() - i,
    {
        let e = batch[i].copy();
        proof {
            lemma_views_push(buf@, e);
            assert(views(batch@).subrange(start as int, i + 1) =~= views(batch@).subrange(
                start as int,
                i as int,
            ).push(e@));
        }
        buf.push_back(e);
        i += 1;
    }
    proof {
        if start == 1 {
            assert(views(batch@).subrange(1, batch.len() as int) =~= views(batch@).drop_first());
        } else {
            assert(views(batch@).subrange(0, batch.len() as int) =~= views(batch@));
        }
    }
}

proof fn lemma_merge_head(r: Seq<EntryView>)
    requires
        r.len() > 0,
    ensures
        merge(r).len() > 0,
        merge(r)[0] == r[0] || (r.len() >= 2 && merge(r)[0] == fold(r[0], r[1])),
{
}

proof fn lemma_merge_no_pairs(s: Seq<EntryView>)
    ensures
        no_fold_pairs(merge(s)),
    decreases s.len(),
{
    if s.len() == 0 {
    } else if s.len() >= 2 && folds(s[0], s[1]) {
        let rest = s.subrange(2, s.len() as int);
        lemma_merge_no_pairs(rest);
        let m = merge(s);
        assert forall|i: int| 0 <= i < m.len() - 1 implies !folds(#[trigger] m[i], m[i + 1]) by {
            if i > 0 {
                assert(m[i] == merge(rest)[i - 1]);
                assert(m[i + 1] == merge(rest)[i]);
            }
        }
    } else {
        let rest = s.drop_first();
        lemma_merge_no_pairs(rest);
        let m = merge(s);
        if rest.len() > 0 {
            lemma_merge_head(rest);
        }
        assert forall|i: int| 0 <= i < m.len() - 1 implies !folds(#[trigger] m[i], m[i + 1]) by {
            if i > 0 {
                assert(m[i] == merge(rest)[i - 1]);
                assert(m[i + 1] == merge(rest)[i]);
            } else {
                assert(m[1] == merge(rest)[0]);
            }
        }
    }
}

pub proof fn lemma_merge_fixed(t: Seq<EntryView>)
    requires
        no_fold_pairs(t),
    ensures
        merge(t) == t,
    decreases t.len(),
{
    if t.len() > 0 {
        let rest = t.drop_first();
        if t.len() >= 2 {
            assert(!folds(t[0], t[1]));
        }
        assert forall|i: int| 0 <= i < rest.len() - 1 implies !folds(#[trigger] rest[i], rest[i + 1]) by {
            assert(rest[i] == t[i + 1]);
            assert(!folds(t[i + 1], t[i + 2]));
        }
        lemma_merge_fixed(rest);
        assert(seq![t[0]] + rest =~= t);
    }
}

/// Merging twice is merging once: a folded call already holds its result,
/// so nothing is folded again.
pub proof fn lemma_merge_idempotent(s: Seq<EntryView>)
    ensures
        merge(merge(s)) == merge(s),
{
    lemma_merge_no_pairs(s);
    lemma_merge_fixed(merge(s));
}

} // verus!
