//! Word wrapping of transcript text for the terminal.

use vstd::prelude::*;
use crate::paths::{nonempty, split, split_on, strs, keep_nonempty};
use crate::text::{chars_of, display_width, str_width, string_of};

verus! {

/// Unicode's White_Space property, which `char::is_whitespace` tests.
pub open spec fn whitespace(c: char) -> bool {
    let v = c as u32;
    (0x09 <= v <= 0x0D) || v == 0x20 || v == 0x85 || v == 0xA0 || v == 0x1680 || (0x2000 <= v <= 0x200A)
        || v == 0x2028 || v == 0x2029 || v == 0x202F || v == 0x205F || v == 0x3000
}

/// Whether the character is white space.
pub fn is_whitespace(c: char) -> (r: bool)
    ensures
        r == whitespace(c),
{
    let v = c as u32;
    (0x09 <= v && v <= 0x0D) || v == 0x20 || v == 0x85 || v == 0xA0 || v == 0x1680 || (0x2000 <= v && v
        <= 0x200A) || v == 0x2028 || v == 0x2029 || v == 0x202F || v == 0x205F || v == 0x3000
}

/// A line without the `\r` of a `\r\n` ending.
pub open spec fn strip_cr(l: Seq<char>) -> Seq<char> {
    if l.len() > 0 && l.last() == '\r' {
        l.drop_last()
    } else {
        l
    }
}

/// The lines of a text as `str::lines` yields them: cut at `\n`, a `\r`
/// before it dropped, and no empty line after a final `\n`.
pub open spec fn text_lines(t: Seq<char>) -> Seq<Seq<char>> {
    let p = split(t, '\n');
    let done = p.subrange(0, p.len() - 1).map_values(|l: Seq<char>| strip_cr(l));
    if p.last().len() == 0 {
        done
    } else {
        done.push(p.last())
    }
}

/// The pieces of `s` between white-space characters, from `i` inside a
/// piece that began at `start`.
pub open spec fn split_ws_from(s: Seq<char>, start: int, i: int) -> Seq<Seq<char>>
    decreases s.len() - i,
{
    if i >= s.len() {
        seq![s.subrange(start, s.len() as int)]
    } else if whitespace(s[i]) {
        seq![s.subrange(start, i)] + split_ws_from(s, i + 1, i + 1)
    } else {
        split_ws_from(s, start, i + 1)
    }
}

/// The words of a line, as `str::split_whitespace` yields them.
pub open spec fn words(l: Seq<char>) -> Seq<Seq<char>> {
    nonempty(split_ws_from(l, 0, 0))
}

/// Lines filled so far and the line being filled.
pub open spec fn fill(ws: Seq<Seq<char>>, width: nat) -> (Seq<Seq<char>>, Seq<char>)
    decreases ws.len(),
{
    if ws.len() == 0 {
        (Seq::empty(), Seq::empty())
    } else {
        let (out, cur) = fill(ws.drop_last(), width);
        let w = ws.last();
        if cur.len() == 0 {
            (out, w)
        } else if display_width(cur) + 1 + display_width(w) <= width {
            (out, cur + " "@ + w)
        } else {
            (out.push(cur), w)
        }
    }
}

/// One line wrapped: kept whole when it fits, else filled word by word.
pub open spec fn wrap_line(l: Seq<char>, width: nat) -> Seq<Seq<char>> {
    if display_width(l) <= width {
        seq![l]
    } else {
        let (out, cur) = fill(words(l), width);
        if cur.len() > 0 {
            out.push(cur)
        } else {
            out
        }
    }
}

pub open spec fn wrap_lines(ls: Seq<Seq<char>>, width: nat) -> Seq<Seq<char>>
    decreases ls.len(),
{
    if ls.len() == 0 {
        Seq::empty()
    } else {
        wrap_lines(ls.drop_last(), width) + wrap_line(ls.last(), width)
    }
}

/// A text wrapped to `width` columns; at least one (empty) line.
pub open spec fn wrapped(t: Seq<char>, width: nat) -> Seq<Seq<char>> {
    let r = wrap_lines(text_lines(t), width);
    if r.len() == 0 {
        seq![Seq::empty()]
    } else {
        r
    }
}

fn split_ws(s: &str) -> (r: Vec<String>)
    ensures
        strs(r@) == split_ws_from(s@, 0, 0),
{
    let cs = chars_of(s);
    let mut out: Vec<String> = Vec::new();
    let mut start: usize = 0;
    let mut i: usize = 0;
    proof {
        assert(strs(out@) + split_ws_from(s@, 0, 0) =~= split_ws_from(s@, 0, 0));
    }
    while i < cs.len()
        invariant
            cs@ == s@,
            start <= i <= cs@.len(),
            split_ws_from(s@, 0, 0) == strs(out@) + split_ws_from(s@, start as int, i as int),
        decreases cs@.len() - i,
    {
        if is_whitespace(cs[i]) {
            let piece = string_of(&cs, start, i);
            let ghost before = out@;
            out.push(piece);
            proof {
                assert(strs(out@) =~= strs(before).push(piece@));
                assert(split_ws_from(s@, 0, 0) =~= strs(out@) + split_ws_from(s@, i + 1, i + 1));
            }
            start = i + 1;
        }
        i += 1;
    }
    let piece = string_of(&cs, start, cs.len());
    let ghost before = out@;
    out.push(piece);
    proof {
        assert(strs(out@) =~= strs(before).push(piece@));
        assert(split_ws_from(s@, 0, 0) =~= strs(out@));
    }
    out
}

fn wrap_one(line: &str, width: usize, out: &mut Vec<String>)
    ensures
        strs(final(out)@) == strs(old(out)@) + wrap_line(line@, width as nat),
{
    let lw = str_width(line);
    if lw <= width {
        let ghost before = out@;
        out.push(String::from_str(line));
        proof {
            assert(strs(out@) =~= strs(before) + seq![line@]);
        }
        return;
    }
    let ws = keep_nonempty(split_ws(line));
    let ghost all = strs(ws@);
    let ghost base = strs(out@);
    let mut done: Vec<String> = Vec::new();
    let mut cur = String::new();
    let mut i: usize = 0;
    while i < ws.len()
        invariant
            i <= ws@.len(),
            all == strs(ws@),
            all == words(line@),
            ({
                let st = fill(all.subrange(0, i as int), width as nat);
                strs(done@) == st.0 && cur@ == st.1
            }),
        decreases ws@.len() - i,
    {
        assert(all.subrange(0, i + 1).drop_last() =~= all.subrange(0, i as int));
        let w = ws[i].as_str();
        let ghost before = done@;
        if cur.as_str().unicode_len() == 0 {
            cur = String::from_str(w);
        } else {
            let cw = str_width(cur.as_str());
            let ww = str_width(w);
            if cw < width && ww <= width - cw - 1 {
                cur.append(" ");
                cur.append(w);
            } else {
                let full = cur;
                done.push(full);
                assert(strs(done@) =~= strs(before).push(full@));
                cur = String::from_str(w);
            }
        }
        i += 1;
    }
    assert(all.subrange(0, i as int) =~= all);
    if cur.as_str().unicode_len() > 0 {
        let ghost before = done@;
        done.push(cur);
        assert(strs(done@) =~= strs(before).push(strs(done@).last()));
    }
    let ghost add = strs(done@);
    out.append(&mut done);
    proof {
        assert(strs(out@) =~= base + add);
    }
}

/// Wraps a text to `width` terminal columns: each line that fits is kept,
/// a longer one is refilled word by word; an empty text gives one empty
/// line.
pub fn wrap_text(text: &str, width: usize) -> (r: Vec<String>)
    ensures
        strs(r@) == wrapped(text@, width as nat),
{
    let pieces = split_on(text, '\n');
    let ghost p = strs(pieces@);
    let n = pieces.len();
    let mut lines: Vec<String> = Vec::new();
    let mut i: usize = 0;
    assert(p.len() >= 1) by {
        lemma_split_nonempty(text@, '\n', 0, 0);
    }
    while i + 1 < n
        invariant
            n == pieces@.len(),
            n >= 1,
            p == strs(pieces@),
            i + 1 <= n,
            lines@.len() == i,
            strs(lines@) == p.subrange(0, i as int).map_values(|l: Seq<char>| strip_cr(l)),
        decreases n - i,
    {
        let cs = chars_of(pieces[i].as_str());
        let ghost before = lines@;
        if cs.len() > 0 && cs[cs.len() - 1] == '\r' {
            lines.push(string_of(&cs, 0, cs.len() - 1));
            assert(cs@.subrange(0, cs.len() - 1) =~= cs@.drop_last());
        } else {
            lines.push(pieces[i].clone());
        }
        assert(p[i as int] == pieces@[i as int]@);
        assert(lines@.last()@ == strip_cr(p[i as int]));
        assert(strs(lines@) =~= strs(before).push(strip_cr(p[i as int])));
        assert(strs(lines@) =~= p.subrange(0, i + 1).map_values(|l: Seq<char>| strip_cr(l)));
        i += 1;
    }
    if pieces[n - 1].as_str().unicode_len() > 0 {
        let ghost before = lines@;
        lines.push(pieces[n - 1].clone());
        assert(strs(lines@) =~= strs(before).push(p.last()));
    }
    assert(strs(lines@) == text_lines(text@));
    let mut out: Vec<String> = Vec::new();
    let mut j: usize = 0;
    while j < lines.len()
        invariant
            j <= lines@.len(),
            strs(out@) == wrap_lines(strs(lines@).subrange(0, j as int), width as nat),
        decreases lines@.len() - j,
    {
        assert(strs(lines@).subrange(0, j + 1).drop_last() =~= strs(lines@).subrange(0, j as int));
        wrap_one(lines[j].as_str(), width, &mut out);
        j += 1;
    }
    assert(strs(lines@).subrange(0, j as int) =~= strs(lines@));
    if out.len() == 0 {
        out.push(String::new());
        assert(strs(out@) =~= seq![Seq::<char>::empty()]);
    }
    out
}

proof fn lemma_split_nonempty(s: Seq<char>, c: char, start: int, i: int)
    ensures
        crate::paths::split_from(s, c, start, i).len() >= 1,
    decreases s.len() - i,
{
    if i < s.len() {
        if s[i] == c {
            lemma_split_nonempty(s, c, i + 1, i + 1);
        } else {
            lemma_split_nonempty(s, c, start, i + 1);
        }
    }
}

} // verus!
