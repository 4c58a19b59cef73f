//! Reading a file in two parts gives what reading it at once gives.

use vstd::prelude::*;
use crate::merge::{continuation, fold, folds, merge};
use crate::reader::{diagnostic, is_blank, line_result, read_model, scan, trim, trim_start, is_ws};
use crate::types::EntryView;

verus! {

proof fn lemma_trim_start_blank_prefix(a: Seq<u8>, b: Seq<u8>)
    requires
        trim_start(a).len() == 0,
    ensures
        trim_start(a + b) == trim_start(b),
    decreases a.len(),
{
    if a.len() == 0 {
        assert(a + b =~= b);
    } else {
        assert(is_ws(a[0]));
        assert((a + b).drop_first() =~= a.drop_first() + b);
        lemma_trim_start_blank_prefix(a.drop_first(), b);
    }
}

/// Inside a line, how far the scan has looked does not matter.
proof fn lemma_scan_skip(s: Seq<u8>, ls: int, i: int, d: nat, p: Seq<char>)
    requires
        0 <= ls <= i <= s.len(),
        forall|j: int| ls <= j < i ==> s[j] != 0x0Au8,
    ensures
        scan(s, ls, i, d, p) == scan(s, ls, ls, d, p),
    decreases i - ls,
{
    if i > ls {
        lemma_scan_skip(s, ls, i - 1, d, p);
    }
}

/// Leading whitespace of a line changes none of its entries.
proof fn lemma_scan_blank_lead(s: Seq<u8>, ls: int, j: int, i: int, d: nat, p: Seq<char>)
    requires
        0 <= ls <= j <= i,
        j <= s.len(),
        trim_start(s.subrange(ls, j)).len() == 0,
    ensures
        scan(s, ls, i, d, p).entries == scan(s, j, i, d, p).entries,
    decreases s.len() - i,
{
    if i >= s.len() {
    } else if s[i] == 0x0Au8 {
        let l1 = s.subrange(ls, i);
        let l2 = s.subrange(j, i);
        assert(l1 =~= s.subrange(ls, j) + l2);
        lemma_trim_start_blank_prefix(s.subrange(ls, j), l2);
        assert(trim(l1) == trim(l2));
        assert(is_blank(l1) == is_blank(l2));
        assert(line_result(l1) == line_result(l2));
    } else {
        lemma_scan_blank_lead(s, ls, j, i + 1, d, p);
    }
}

/// The entries of a scan do not depend on its line count or label.
proof fn lemma_scan_entries_label(s: Seq<u8>, ls: int, i: int, d1: nat, p1: Seq<char>, d2: nat, p2: Seq<char>)
    requires
        0 <= ls <= i,
    ensures
        scan(s, ls, i, d1, p1).entries == scan(s, ls, i, d2, p2).entries,
    decreases s.len() - i,
{
    if i < s.len() {
        if s[i] == 0x0Au8 {
            lemma_scan_entries_label(s, i + 1, i + 1, d1 + 1, p1, d2 + 1, p2);
        } else {
            lemma_scan_entries_label(s, ls, i + 1, d1, p1, d2, p2);
        }
    }
}

/// Scanning a suffix is scanning the whole from where the suffix starts.
proof fn lemma_scan_shift(s: Seq<u8>, off: int, ls: int, i: int, d1: nat, p1: Seq<char>, d2: nat, p2: Seq<char>)
    requires
        0 <= off <= ls <= i,
        off <= s.len(),
    ensures
        scan(s, ls, i, d1, p1).entries == scan(s.subrange(off, s.len() as int), ls - off, i - off, d2, p2).entries,
    decreases s.len() - i,
{
    let t = s.subrange(off, s.len() as int);
    if i < s.len() {
        assert(t[i - off] == s[i]);
        if s[i] == 0x0Au8 {
            assert(t.subrange(ls - off, i - off) =~= s.subrange(ls, i));
            lemma_scan_shift(s, off, i + 1, i + 1, d1 + 1, p1, d2 + 1, p2);
        } else {
            lemma_scan_shift(s, off, ls, i + 1, d1, p1, d2, p2);
        }
    }
}

/// Scanning the whole is scanning a prefix, then the whole again from where
/// the prefix's read stopped.
proof fn lemma_scan_prefix(s: Seq<u8>, k: int, ls: int, i: int, d: nat, p: Seq<char>, dp: nat, pp: Seq<char>)
    requires
        0 <= ls <= i <= k <= s.len(),
        forall|j: int| ls <= j < i ==> s[j] != 0x0Au8,
    ensures
        ({
            let pre = scan(s.subrange(0, k), ls, i, dp, pp);
            scan(s, ls, i, d, p).entries == pre.entries + scan(s, pre.end, pre.end, d, p).entries
        }),
    decreases k - i,
{
    let ps = s.subrange(0, k);
    let pre = scan(ps, ls, i, dp, pp);
    if i == k {
        let frag = ps.subrange(ls, k);
        assert(frag =~= s.subrange(ls, k));
        lemma_scan_skip(s, ls, i, d, p);
        if ls < k && !is_blank(frag) {
            assert(pre.end == ls);
        } else {
            assert(pre.end == k);
            if ls < k {
                lemma_scan_blank_lead(s, ls, k, k, d, p);
            }
            lemma_scan_skip(s, k, k, d, p);
        }
        assert(pre.entries =~= Seq::<EntryView>::empty());
        assert(scan(s, ls, i, d, p).entries =~= pre.entries + scan(s, pre.end, pre.end, d, p).entries) by {
            if ls < k && !is_blank(frag) {
            } else if ls < k {
                lemma_scan_entries_label(s, k, k, d, p, d, p);
            }
        }
    } else {
        assert(ps[i] == s[i]);
        if s[i] == 0x0Au8 {
            assert(ps.subrange(ls, i) =~= s.subrange(ls, i));
            lemma_scan_prefix(s, k, i + 1, i + 1, d + 1, p, dp + 1, pp);
            let rest = scan(ps, i + 1, i + 1, dp + 1, pp);
            lemma_scan_end_bound(ps, i + 1, i + 1, dp + 1, pp);
            assert(pre.end == rest.end);
            lemma_scan_entries_label(s, rest.end, rest.end, d + 1, p, d, p);
            if !is_blank(s.subrange(ls, i)) {
                match line_result(s.subrange(ls, i)) {
                    Ok(es) => {
                        assert(es + (rest.entries + scan(s, rest.end, rest.end, d, p).entries) =~= (es
                            + rest.entries) + scan(s, rest.end, rest.end, d, p).entries);
                    },
                    Err(_) => {},
                }
            }
        } else {
            lemma_scan_prefix(s, k, ls, i + 1, d, p, dp, pp);
        }
    }
}

proof fn lemma_continuation_cons(x: EntryView, m: Seq<EntryView>, b: Seq<EntryView>)
    requires
        m.len() > 0,
    ensures
        continuation(seq![x] + m, b) == seq![x] + continuation(m, b),
{
    assert((seq![x] + m).last() == m.last());
    assert((seq![x] + m).drop_last() =~= seq![x] + m.drop_last());
    if m.len() > 0 && b.len() > 0 && folds(m.last(), b[0]) {
        assert(seq![x] + m.drop_last().push(fold(m.last(), b[0])) + b.drop_first() =~= seq![x] + (
        m.drop_last().push(fold(m.last(), b[0])) + b.drop_first()));
    } else {
        assert(seq![x] + m + b =~= seq![x] + (m + b));
    }
}

/// Merging two parts and stitching them is merging their concatenation.
pub proof fn lemma_merge_concat(a: Seq<EntryView>, b: Seq<EntryView>)
    ensures
        merge(a + b) == continuation(merge(a), merge(b)),
    decreases a.len(),
{
    if a.len() == 0 {
        assert(a + b =~= b);
        assert(Seq::<EntryView>::empty() + merge(b) =~= merge(b));
    } else if a.len() == 1 {
        let x = a[0];
        assert(a.drop_first() =~= Seq::<EntryView>::empty());
        assert(merge(a.drop_first()) =~= Seq::<EntryView>::empty());
        assert(merge(a) == seq![x] + merge(a.drop_first()));
        assert(merge(a) =~= seq![x]);
        assert((a + b)[0] == x);
        assert((a + b).drop_first() =~= b);
        if b.len() > 0 && folds(x, b[0]) {
            assert((a + b)[1] == b[0]);
            assert((a + b).subrange(2, (a + b).len() as int) =~= b.drop_first());
            assert(merge(b) == seq![b[0]] + merge(b.drop_first()));
            assert(merge(b).drop_first() =~= merge(b.drop_first()));
            assert(seq![x].drop_last() =~= Seq::<EntryView>::empty());
            assert(Seq::<EntryView>::empty().push(fold(x, b[0])) =~= seq![fold(x, b[0])]);
        } else {
            if b.len() >= 2 {
                assert((a + b)[1] == b[0]);
            }
            if b.len() == 1 {
                assert((a + b)[1] == b[0]);
            }
            if b.len() > 0 {
                assert(merge(b)[0] == b[0] || (b.len() >= 2 && merge(b)[0] == fold(b[0], b[1])));
            }
        }
    } else {
        let x = a[0];
        assert((a + b)[0] == x && (a + b)[1] == a[1]);
        if folds(a[0], a[1]) {
            let r = a.subrange(2, a.len() as int);
            assert((a + b).subrange(2, (a + b).len() as int) =~= r + b);
            lemma_merge_concat(r, b);
            let f = fold(a[0], a[1]);
            if r.len() > 0 {
                lemma_continuation_cons(f, merge(r), merge(b));
            } else {
                assert(r + b =~= b);
                assert(merge(r) =~= Seq::<EntryView>::empty());
                assert(merge(a) =~= seq![f]);
                assert(Seq::<EntryView>::empty() + merge(b) =~= merge(b));
            }
        } else {
            let r = a.drop_first();
            assert((a + b).drop_first() =~= r + b);
            lemma_merge_concat(r, b);
            lemma_continuation_cons(x, merge(r), merge(b));
        }
    }
}

/// Reading a file's first `k` bytes, then reading on from the watermark
/// that read returned, and stitching the two merged batches, gives the
/// merged entries of reading the whole file at once.
pub proof fn lemma_split_read(whole: Seq<u8>, k: int, p: Seq<char>, p1: Seq<char>, p2: Seq<char>)
    requires
        0 <= k <= whole.len(),
    ensures
        ({
            let first = read_model(whole.subrange(0, k), p1);
            let second = read_model(whole.subrange(first.end, whole.len() as int), p2);
            &&& 0 <= first.end <= k
            &&& read_model(whole, p).entries == first.entries + second.entries
            &&& merge(read_model(whole, p).entries) == continuation(merge(first.entries), merge(second.entries))
        }),
{
    let first = read_model(whole.subrange(0, k), p1);
    lemma_scan_end_bound(whole.subrange(0, k), 0, 0, 0, p1);
    lemma_scan_prefix(whole, k, 0, 0, 0, p, 0, p1);
    lemma_scan_shift(whole, first.end, first.end, first.end, 0, p, 0, p2);
    lemma_merge_concat(first.entries, read_model(whole.subrange(first.end, whole.len() as int), p2).entries);
}

proof fn lemma_scan_end_bound(s: Seq<u8>, ls: int, i: int, d: nat, p: Seq<char>)
    requires
        0 <= ls <= i,
        ls <= s.len(),
    ensures
        ls <= scan(s, ls, i, d, p).end <= s.len(),
    decreases s.len() - i,
{
    if i < s.len() {
        if s[i] == 0x0Au8 {
            lemma_scan_end_bound(s, i + 1, i + 1, d + 1, p);
        } else {
            lemma_scan_end_bound(s, ls, i + 1, d, p);
        }
    }
}

proof fn lemma_scan_end_at(s: Seq<u8>, ls: int, i: int, d: nat, p: Seq<char>, b: int)
    requires
        0 <= ls <= i <= s.len(),
        ls <= b <= s.len(),
        forall|j: int| ls <= j < i ==> s[j] != 0x0Au8,
        forall|j: int| b <= j < s.len() ==> s[j] != 0x0Au8,
        !is_blank(s.subrange(b, s.len() as int)),
        ls == b || (i <= b && s[b - 1] == 0x0Au8),
    ensures
        scan(s, ls, i, d, p).end == b,
    decreases s.len() - i,
{
    if i < s.len() {
        if s[i] == 0x0Au8 {
            lemma_scan_end_at(s, i + 1, i + 1, d + 1, p, b);
        } else {
            lemma_scan_end_at(s, ls, i + 1, d, p, b);
        }
    } else if ls < b {
        assert(s.subrange(b, s.len() as int).len() == 0);
    }
}

/// A read of content that ends in an unterminated, non-blank line stops its
/// watermark where that line begins.
pub proof fn lemma_unterminated_line_held_back(s: Seq<u8>, b: int, p: Seq<char>)
    requires
        0 <= b <= s.len(),
        b == 0 || s[b - 1] == 0x0Au8,
        forall|j: int| b <= j < s.len() ==> s[j] != 0x0Au8,
        !is_blank(s.subrange(b, s.len() as int)),
    ensures
        read_model(s, p).end == b,
{
    lemma_scan_end_at(s, 0, 0, 0, p, b);
}

/// Once that line is completed, a read from its start yields exactly its
/// own entries and moves the watermark past its newline.
pub proof fn lemma_completed_line_read(line: Seq<u8>, p: Seq<char>)
    requires
        forall|j: int| 0 <= j < line.len() ==> line[j] != 0x0Au8,
        !is_blank(line),
    ensures
        read_model(line.push(0x0Au8), p).entries == match line_result(line) {
            Ok(es) => es,
            Err(_) => Seq::<EntryView>::empty(),
        },
        read_model(line.push(0x0Au8), p).errors == match line_result(line) {
            Ok(_) => Seq::<Seq<char>>::empty(),
            Err(m) => seq![diagnostic(p, 1, m)],
        },
        read_model(line.push(0x0Au8), p).end == line.len() + 1,
{
    let s = line.push(0x0Au8);
    let n = line.len() as int;
    assert forall|j: int| 0 <= j < n implies s[j] != 0x0Au8 by {
        assert(s[j] == line[j]);
    }
    lemma_scan_skip(s, 0, n, 0, p);
    assert(s.subrange(0, n) =~= line);
    let rest = scan(s, n + 1, n + 1, 1, p);
    assert(rest.entries =~= Seq::<EntryView>::empty());
    assert(rest.errors =~= Seq::<Seq<char>>::empty());
    match line_result(line) {
        Ok(es) => {
            assert(es + rest.entries =~= es);
        },
        Err(m) => {
            assert(seq![diagnostic(p, 1, m)] + rest.errors =~= seq![diagnostic(p, 1, m)]);
        },
    }
}

proof fn lemma_scan_no_newline(s: Seq<u8>, ls: int, i: int, d: nat, p: Seq<char>)
    requires
        0 <= ls <= i,
        forall|j: int| i <= j < s.len() ==> s[j] != 0x0Au8,
    ensures
        scan(s, ls, i, d, p).entries.len() == 0,
        scan(s, ls, i, d, p).errors.len() == 0,
    decreases s.len() - i,
{
    if i < s.len() {
        lemma_scan_no_newline(s, ls, i + 1, d, p);
    }
}

proof fn lemma_scan_ignores_fragment(s: Seq<u8>, k: int, ls: int, i: int, d: nat, p: Seq<char>)
    requires
        0 <= ls <= i <= k <= s.len(),
        k == 0 || s[k - 1] == 0x0Au8,
        forall|j: int| ls <= j < i ==> s[j] != 0x0Au8,
        forall|j: int| k <= j < s.len() ==> s[j] != 0x0Au8,
    ensures
        scan(s, ls, i, d, p).entries == scan(s.take(k), ls, i, d, p).entries,
        scan(s, ls, i, d, p).errors == scan(s.take(k), ls, i, d, p).errors,
    decreases k - i,
{
    let ps = s.take(k);
    if i == k {
        if ls < k {
            assert(s[k - 1] != 0x0Au8);
        }
        lemma_scan_no_newline(s, ls, i, d, p);
        assert(scan(s, ls, i, d, p).entries =~= scan(ps, ls, i, d, p).entries);
        assert(scan(s, ls, i, d, p).errors =~= scan(ps, ls, i, d, p).errors);
    } else {
        assert(ps[i] == s[i]);
        if s[i] == 0x0Au8 {
            assert(ps.subrange(ls, i) =~= s.subrange(ls, i));
            lemma_scan_ignores_fragment(s, k, i + 1, i + 1, d + 1, p);
        } else {
            lemma_scan_ignores_fragment(s, k, ls, i + 1, d, p);
        }
    }
}

/// An unterminated last line adds nothing to a read: the entries and the
/// diagnostics are those of the complete lines before it, and the watermark
/// stops where it begins.
pub proof fn lemma_unterminated_line_adds_nothing(complete: Seq<u8>, fragment: Seq<u8>, p: Seq<char>)
    requires
        complete.len() == 0 || complete.last() == 0x0Au8,
        forall|j: int| 0 <= j < fragment.len() ==> fragment[j] != 0x0Au8,
        !is_blank(fragment),
    ensures
        read_model(complete + fragment, p).entries == read_model(complete, p).entries,
        read_model(complete + fragment, p).errors == read_model(complete, p).errors,
        read_model(complete + fragment, p).end == complete.len(),
{
    let s = complete + fragment;
    let k = complete.len() as int;
    assert(s.take(k) =~= complete);
    assert forall|j: int| k <= j < s.len() implies s[j] != 0x0Au8 by {
        assert(s[j] == fragment[j - k]);
    }
    if k > 0 {
        assert(s[k - 1] == complete.last());
    }
    lemma_scan_ignores_fragment(s, k, 0, 0, 0, p);
    assert(s.subrange(k, s.len() as int) =~= fragment);
    lemma_unterminated_line_held_back(s, k, p);
}

} // verus!
