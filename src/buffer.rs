//! The bounded transcript buffer: entries are evicted from the front once
//! it holds more than its capacity, and a counter records how many left.

use vstd::prelude::*;
use std::collections::VecDeque;
use crate::merge::{continuation, continuation_merge, merge, merge_tool_results, no_fold_pairs, lemma_merge_fixed};
use crate::types::{views, DisplayEntry, EntryView};

verus! {

/// How many entries the transcript buffer keeps.
pub const MAX_CONVERSATION_ENTRIES: usize = 10000;

/// The newest `cap` entries of `s`.
pub open spec fn evict(s: Seq<EntryView>, cap: nat) -> Seq<EntryView> {
    if s.len() > cap {
        s.subrange(s.len() - cap, s.len() as int)
    } else {
        s
    }
}

/// How many entries eviction drops from a buffer of `len` entries.
pub open spec fn evicted_count(len: nat, cap: nat) -> nat {
    if len > cap {
        (len - cap) as nat
    } else {
        0
    }
}

/// A counter after `k` more evictions; it stops at `usize::MAX`.
pub open spec fn bump(counter: usize, k: nat) -> usize {
    if counter + k > usize::MAX {
        usize::MAX
    } else {
        (counter + k) as usize
    }
}

/// Drops entries from the front while the buffer holds more than `cap`,
/// counting each one.
pub fn apply_limit(buf: &mut VecDeque<DisplayEntry>, evicted: &mut usize, cap: usize)
    ensures
        views(final(buf)@) == evict(views(old(buf)@), cap as nat),
        *final(evicted) == bump(*old(evicted), evicted_count(old(buf)@.len(), cap as nat)),
{
    let ghost s0 = views(buf@);
    let ghost n0 = buf@.len();
    let ghost e0 = *evicted;
    proof {
        assert(s0.subrange(0, n0 as int) =~= s0);
    }
    while buf.len() > cap
        invariant
            n0 == old(buf)@.len(),
            s0 == views(old(buf)@),
            e0 == *old(evicted),
            buf@.len() <= n0,
            buf@.len() == n0 || buf@.len() >= cap,
            views(buf@) == s0.subrange(n0 - buf@.len(), n0 as int),
            *evicted == bump(e0, (n0 - buf@.len()) as nat),
        decreases buf@.len(),
    {
        let ghost before = buf@;
        let _ = buf.pop_front();
        proof {
            assert(views(buf@) =~= views(before).drop_first());
            assert(s0.subrange(n0 - before.len(), n0 as int).drop_first() =~= s0.subrange(
                n0 - buf@.len(),
                n0 as int,
            ));
        }
        if *evicted < usize::MAX {
            *evicted = *evicted + 1;
        }
    }
}

/// Replaces the buffer with a freshly read batch, merged, then bounded.
pub fn load_batch(buf: &mut VecDeque<DisplayEntry>, evicted: &mut usize, entries: Vec<DisplayEntry>, cap: usize)
    ensures
        views(final(buf)@) == evict(merge(views(entries@)), cap as nat),
        *final(evicted) == bump(*old(evicted), evicted_count(merge(views(entries@)).len(), cap as nat)),
{
    let merged = merge_tool_results(entries);
    buf.clear();
    proof {
        assert(views(buf@) =~= Seq::<EntryView>::empty());
    }
    continuation_merge(buf, merged);
    proof {
        assert(Seq::<EntryView>::empty() + views(merged@) =~= views(merged@));
    }
    apply_limit(buf, evicted, cap);
}

/// Appends an incremental batch: merged within itself, stitched onto the
/// buffer's tail, then bounded.
pub fn append_batch(buf: &mut VecDeque<DisplayEntry>, evicted: &mut usize, entries: Vec<DisplayEntry>, cap: usize)
    ensures
        views(final(buf)@) == evict(continuation(views(old(buf)@), merge(views(entries@))), cap as nat),
        *final(evicted) == bump(
            *old(evicted),
            evicted_count(continuation(views(old(buf)@), merge(views(entries@))).len(), cap as nat),
        ),
{
    let merged = merge_tool_results(entries);
    continuation_merge(buf, merged);
    apply_limit(buf, evicted, cap);
}

/// Appending `n` entries, none of them answering the one before, to an
/// empty buffer of capacity `cap < n` keeps exactly the newest `cap` of them
/// and counts `n - cap` evictions.
pub proof fn lemma_eviction_keeps_newest(batch: Seq<EntryView>, cap: nat)
    requires
        no_fold_pairs(batch),
        batch.len() > cap,
    ensures
        evict(continuation(Seq::empty(), merge(batch)), cap) == batch.subrange(batch.len() - cap, batch.len() as int),
        evict(continuation(Seq::empty(), merge(batch)), cap).len() == cap,
        evicted_count(continuation(Seq::empty(), merge(batch)).len(), cap) == batch.len() - cap,
{
    lemma_merge_fixed(batch);
    assert(Seq::<EntryView>::empty() + batch =~= batch);
}

} // verus!
