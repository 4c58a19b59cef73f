//! Incremental reading of a JSONL transcript: lines are framed from the bytes
//! read so far, and an unterminated trailing line is left for the next read.

use vstd::prelude::*;
use crate::decoder::{convert_log_entry, entries_of};
use crate::json::{json_parse, parse_json};
use crate::raw::{bad_field_text, decode_log_entry, log_entry_of};
use crate::types::{lemma_views_concat, views, DisplayEntry, EntryView};

verus! {

/// What one read produced.
pub struct ParseResult {
    pub entries: Vec<DisplayEntry>,
    /// One diagnostic per complete line that did not decode.
    pub errors: Vec<String>,
    /// The watermark: where the next read resumes.
    pub bytes_read: u64,
}

/// ASCII whitespace, as `u8::is_ascii_whitespace` has it.
pub open spec fn is_ws(b: u8) -> bool {
    b == 0x20u8 || b == 0x09u8 || b == 0x0Au8 || b == 0x0Cu8 || b == 0x0Du8
}

pub open spec fn trim_start(s: Seq<u8>) -> Seq<u8>
    decreases s.len(),
{
    if s.len() > 0 && is_ws(s[0]) {
        trim_start(s.drop_first())
    } else {
        s
    }
}

pub open spec fn trim_end(s: Seq<u8>) -> Seq<u8>
    decreases s.len(),
{
    if s.len() > 0 && is_ws(s.last()) {
        trim_end(s.drop_last())
    } else {
        s
    }
}

/// A line with its surrounding whitespace removed.
pub open spec fn trim(s: Seq<u8>) -> Seq<u8> {
    trim_end(trim_start(s))
}

/// A line of whitespace only (or nothing).
pub open spec fn is_blank(s: Seq<u8>) -> bool {
    trim_start(s).len() == 0
}

/// What one non-blank line decodes to: its entries, or the error text.
pub open spec fn line_result(line: Seq<u8>) -> Result<Seq<EntryView>, Seq<char>> {
    match json_parse(trim(line)) {
        Err(m) => Err(m),
        Ok(v) => match log_entry_of(v) {
            Ok(e) => Ok(entries_of(e)),
            Err(name) => Err(bad_field_text(name)),
        },
    }
}

pub open spec fn digit(d: int) -> char {
    if d == 0 {
        '0'
    } else if d == 1 {
        '1'
    } else if d == 2 {
        '2'
    } else if d == 3 {
        '3'
    } else if d == 4 {
        '4'
    } else if d == 5 {
        '5'
    } else if d == 6 {
        '6'
    } else if d == 7 {
        '7'
    } else if d == 8 {
        '8'
    } else {
        '9'
    }
}

/// The decimal digits of `n`.
pub open spec fn decimal(n: nat) -> Seq<char>
    decreases n,
{
    if n < 10 {
        seq![digit(n as int)]
    } else {
        decimal(n / 10).push(digit((n % 10) as int))
    }
}

/// `<prefix><line number>: <message>`.
pub open spec fn diagnostic(prefix: Seq<char>, line_no: nat, msg: Seq<char>) -> Seq<char> {
    prefix + decimal(line_no) + ": "@ + msg
}

pub ghost struct Scan {
    pub entries: Seq<EntryView>,
    pub errors: Seq<Seq<char>>,
    /// Where the consumed part of the content ends.
    pub end: int,
}

/// Reads `s` from byte `i` on, inside a line that began at `line_start`;
/// `done` lines came before it.
pub open spec fn scan(s: Seq<u8>, line_start: int, i: int, done: nat, prefix: Seq<char>) -> Scan
    decreases s.len() - i,
{
    if i >= s.len() {
        let frag = s.subrange(line_start, s.len() as int);
        Scan {
            entries: Seq::empty(),
            errors: Seq::empty(),
            end: if line_start < s.len() && !is_blank(frag) {
                line_start
            } else {
                s.len() as int
            },
        }
    } else if s[i] == 0x0Au8 {
        let line = s.subrange(line_start, i);
        let rest = scan(s, i + 1, i + 1, done + 1, prefix);
        if is_blank(line) {
            rest
        } else {
            match line_result(line) {
                Ok(es) => Scan { entries: es + rest.entries, ..rest },
                Err(m) => Scan { errors: seq![diagnostic(prefix, done + 1, m)] + rest.errors, ..rest },
            }
        }
    } else {
        scan(s, line_start, i + 1, done, prefix)
    }
}

/// The whole of one read of `s`.
pub open spec fn read_model(s: Seq<u8>, prefix: Seq<char>) -> Scan {
    scan(s, 0, 0, 0, prefix)
}

fn digit_str(d: usize) -> (r: &'static str)
    requires
        d < 10,
    ensures
        r@ == seq![digit(d as int)],
{
    proof {
        reveal_strlit("0");
        reveal_strlit("1");
        reveal_strlit("2");
        reveal_strlit("3");
        reveal_strlit("4");
        reveal_strlit("5");
        reveal_strlit("6");
        reveal_strlit("7");
        reveal_strlit("8");
        reveal_strlit("9");
    }
    let r = if d == 0 {
        "0"
    } else if d == 1 {
        "1"
    } else if d == 2 {
        "2"
    } else if d == 3 {
        "3"
    } else if d == 4 {
        "4"
    } else if d == 5 {
        "5"
    } else if d == 6 {
        "6"
    } else if d == 7 {
        "7"
    } else if d == 8 {
        "8"
    } else {
        "9"
    };
    assert(r@ =~= seq![digit(d as int)]);
    r
}

/// The decimal text of `n`.
pub fn decimal_string(n: usize) -> (r: String)
    ensures
        r@ == decimal(n as nat),
    decreases n,
{
    if n < 10 {
        String::from_str(digit_str(n))
    } else {
        let mut s = decimal_string(n / 10);
        s.append(digit_str(n % 10));
        s
    }
}

fn make_diagnostic(prefix: &str, line_no: usize, msg: &str) -> (r: String)
    ensures
        r@ == diagnostic(prefix@, line_no as nat, msg@),
{
    let mut s = String::from_str(prefix);
    let d = decimal_string(line_no);
    s.append(d.as_str());
    s.append(": ");
    s.append(msg);
    s
}

/// Decodes one line with its surrounding whitespace already removed.
pub fn decode_line(line: &[u8]) -> (r: Result<Vec<DisplayEntry>, String>)
    ensures
        match r {
            Ok(es) => json_parse(line@) matches Ok(v) && log_entry_of(v) matches Ok(e) && views(es@)
                == entries_of(e),
            Err(m) => match json_parse(line@) {
                Err(pm) => m@ == pm,
                Ok(v) => log_entry_of(v) matches Err(name) && m@ == bad_field_text(name),
            },
        },
{
    match parse_json(line) {
        Err(m) => Err(m),
        Ok(v) => match decode_log_entry(v) {
            Err(m) => Err(m),
            Ok(e) => Ok(convert_log_entry(&e)),
        },
    }
}

/// Bounds of `s[start..end]` without its surrounding whitespace.
pub fn trim_bounds(s: &[u8], start: usize, end: usize) -> (r: (usize, usize))
    requires
        start <= end <= s@.len(),
    ensures
        start <= r.0 <= r.1 <= end,
        trim(s@.subrange(start as int, end as int)) == s@.subrange(r.0 as int, r.1 as int),
        is_blank(s@.subrange(start as int, end as int)) == (r.0 == end),
{
    let mut lo = start;
    while lo < end && (s[lo] == 0x20u8 || s[lo] == 0x09u8 || s[lo] == 0x0Au8 || s[lo] == 0x0Cu8
        || s[lo] == 0x0Du8)
        invariant
            start <= lo <= end <= s@.len(),
            trim_start(s@.subrange(start as int, end as int)) == trim_start(s@.subrange(lo as int, end as int)),
        decreases end - lo,
    {
        assert(s@.subrange(lo as int, end as int).drop_first() =~= s@.subrange(lo + 1, end as int));
        lo += 1;
    }
    let mut hi = end;
    while hi > lo && (s[hi - 1] == 0x20u8 || s[hi - 1] == 0x09u8 || s[hi - 1] == 0x0Au8 || s[hi - 1]
        == 0x0Cu8 || s[hi - 1] == 0x0Du8)
        invariant
            start <= lo <= hi <= end <= s@.len(),
            trim_start(s@.subrange(start as int, end as int)) == s@.subrange(lo as int, end as int),
            trim_end(s@.subrange(lo as int, end as int)) == trim_end(s@.subrange(lo as int, hi as int)),
        decreases hi - lo,
    {
        assert(s@.subrange(lo as int, hi as int).drop_last() =~= s@.subrange(lo as int, hi - 1));
        hi -= 1;
    }
    (lo, hi)
}

fn read_from(content: &[u8], prefix: &str) -> (r: (Vec<DisplayEntry>, Vec<String>, usize))
    ensures
        views(r.0@) == read_model(content@, prefix@).entries,
        r.1@.map_values(|e: String| e@) == read_model(content@, prefix@).errors,
        r.2 == read_model(content@, prefix@).end,
        r.2 <= content@.len(),
{
    let ghost s = content@;
    let ghost whole = read_model(s, prefix@);
    let mut entries: Vec<DisplayEntry> = Vec::new();
    let mut errors: Vec<String> = Vec::new();
    let mut line_start: usize = 0;
    let mut done: usize = 0;
    let mut i: usize = 0;
    proof {
        assert(views(entries@) =~= Seq::empty());
        assert(errors@.map_values(|e: String| e@) =~= Seq::empty());
        assert(whole.entries =~= Seq::empty() + whole.entries);
        assert(whole.errors =~= Seq::empty() + whole.errors);
    }
    while i < content.len()
        invariant
            s == content@,
            whole == read_model(s, prefix@),
            line_start <= i <= content.len(),
            done <= i,
            ({
                let rest = scan(s, line_start as int, i as int, done as nat, prefix@);
                &&& whole.entries == views(entries@) + rest.entries
                &&& whole.errors == errors@.map_values(|e: String| e@) + rest.errors
                &&& whole.end == rest.end
            }),
        decreases content.len() - i,
    {
        if content[i] == 0x0Au8 {
            let ghost line = s.subrange(line_start as int, i as int);
            let ghost rest = scan(s, i + 1, i + 1, (done + 1) as nat, prefix@);
            let (lo, hi) = trim_bounds(content, line_start, i);
            if lo < i {
                let line_no = done + 1;
                let line_bytes = &content[lo..hi];
                assert(line_bytes@ =~= content@.subrange(lo as int, hi as int));
                match decode_line(line_bytes) {
                    Ok(es) => {
                        let ghost before = entries@;
                        let mut es = es;
                        let ghost es0 = es@;
                        entries.append(&mut es);
                        proof {
                            lemma_views_concat(before, es0);
                            assert(whole.entries =~= views(entries@) + rest.entries);
                        }
                    },
                    Err(m) => {
                        let d = make_diagnostic(prefix, line_no, m.as_str());
                        let ghost before = errors@;
                        errors.push(d);
                        proof {
                            assert(errors@.map_values(|e: String| e@) =~= before.map_values(
                                |e: String| e@,
                            ).push(d@));
                            assert(whole.errors =~= errors@.map_values(|e: String| e@) + rest.errors);
                        }
                    },
                }
            }
            line_start = i + 1;
            done = done + 1;
        }
        i += 1;
    }
    let (lo, _hi) = trim_bounds(content, line_start, content.len());
    let end = if line_start < content.len() && lo < content.len() {
        line_start
    } else {
        content.len()
    };
    proof {
        assert(views(entries@) + Seq::<EntryView>::empty() =~= views(entries@));
        assert(errors@.map_values(|e: String| e@) + Seq::<Seq<char>>::empty() =~= errors@.map_values(
            |e: String| e@,
        ));
    }
    (entries, errors, end)
}

/// Reads a whole file's content; diagnostics read `Line <n>: ...`.
pub fn parse_jsonl_file(content: &[u8]) -> (r: ParseResult)
    ensures
        views(r.entries@) == read_model(content@, "Line "@).entries,
        r.errors@.map_values(|e: String| e@) == read_model(content@, "Line "@).errors,
        r.bytes_read == read_model(content@, "Line "@).end,
{
    let (entries, errors, end) = read_from(content, "Line ");
    ParseResult { entries, errors, bytes_read: end as u64 }
}

/// Reads what a file holds from byte `position` on (`content`); the
/// watermark returned is absolute. Diagnostics read
/// `Incremental line <n>: ...`, numbered within this read.
pub fn parse_jsonl_from_position(content: &[u8], position: u64) -> (r: ParseResult)
    requires
        position + content@.len() <= u64::MAX,
    ensures
        views(r.entries@) == read_model(content@, "Incremental line "@).entries,
        r.errors@.map_values(|e: String| e@) == read_model(content@, "Incremental line "@).errors,
        r.bytes_read == position + read_model(content@, "Incremental line "@).end,
{
    let (entries, errors, end) = read_from(content, "Incremental line ");
    ParseResult { entries, errors, bytes_read: position + end as u64 }
}

} // verus!
