//! Shortened forms of filesystem paths for display.

use vstd::prelude::*;
use crate::text::{chars_of, string_of};

verus! {

/// The pieces of `s` between separators `c`, scanning from `i` inside a
/// piece that began at `start`.
pub open spec fn split_from(s: Seq<char>, c: char, start: int, i: int) -> Seq<Seq<char>>
    decreases s.len() - i,
{
    if i >= s.len() {
        seq![s.subrange(start, s.len() as int)]
    } else if s[i] == c {
        seq![s.subrange(start, i)] + split_from(s, c, i + 1, i + 1)
    } else {
        split_from(s, c, start, i + 1)
    }
}

/// `s` cut at every `c`, as `str::split` cuts it.
pub open spec fn split(s: Seq<char>, c: char) -> Seq<Seq<char>> {
    split_from(s, c, 0, 0)
}

/// `parts` joined by `sep`.
pub open spec fn join(parts: Seq<Seq<char>>, sep: Seq<char>) -> Seq<char>
    decreases parts.len(),
{
    if parts.len() == 0 {
        Seq::empty()
    } else if parts.len() == 1 {
        parts[0]
    } else {
        join(parts.drop_last(), sep) + sep + parts.last()
    }
}

/// The non-empty pieces.
pub open spec fn nonempty(parts: Seq<Seq<char>>) -> Seq<Seq<char>>
    decreases parts.len(),
{
    if parts.len() == 0 {
        Seq::empty()
    } else if parts.last().len() > 0 {
        nonempty(parts.drop_last()).push(parts.last())
    } else {
        nonempty(parts.drop_last())
    }
}

/// How often `c` occurs in `s`.
pub open spec fn count_of(s: Seq<char>, c: char) -> nat
    decreases s.len(),
{
    if s.len() == 0 {
        0
    } else {
        count_of(s.drop_last(), c) + if s.last() == c {
            1nat
        } else {
            0nat
        }
    }
}

pub open spec fn is_prefix(p: Seq<char>, s: Seq<char>) -> bool {
    p.len() <= s.len() && s.subrange(0, p.len() as int) == p
}

/// Every piece but the first, the last `keep` and the empty ones cut to
/// its first character.
pub open spec fn shorten(parts: Seq<Seq<char>>, keep: int) -> Seq<Seq<char>> {
    Seq::new(
        parts.len(),
        |i: int|
            if i == 0 || i >= parts.len() - keep || parts[i].len() == 0 {
                parts[i]
            } else {
                parts[i].subrange(0, 1)
            },
    )
}

pub open spec fn strs(v: Seq<String>) -> Seq<Seq<char>> {
    v.map_values(|x: String| x@)
}

/// Cuts `s` at every `c`.
pub fn split_on(s: &str, c: char) -> (r: Vec<String>)
    ensures
        strs(r@) == split(s@, c),
{
    let cs = chars_of(s);
    let mut out: Vec<String> = Vec::new();
    let mut start: usize = 0;
    let mut i: usize = 0;
    proof {
        assert(strs(out@) + split(s@, c) =~= split(s@, c));
    }
    while i < cs.len()
        invariant
            cs@ == s@,
            start <= i <= cs@.len(),
            split(s@, c) == strs(out@) + split_from(s@, c, start as int, i as int),
        decreases cs@.len() - i,
    {
        if cs[i] == c {
            let piece = string_of(&cs, start, i);
            let ghost before = out@;
            out.push(piece);
            proof {
                assert(strs(out@) =~= strs(before).push(piece@));
                assert(split(s@, c) =~= strs(out@) + split_from(s@, c, i + 1, i + 1));
            }
            start = i + 1;
        }
        i += 1;
    }
    let piece = string_of(&cs, start, cs.len());
    let ghost before = out@;
    out.push(piece);
    proof {
        assert(strs(out@) =~= strs(before).push(piece@));
        assert(split(s@, c) =~= strs(out@));
    }
    out
}

/// Joins `parts` with `sep`.
pub fn join_with(parts: &Vec<String>, sep: &str) -> (r: String)
    ensures
        r@ == join(strs(parts@), sep@),
{
    let mut s = String::new();
    let mut i: usize = 0;
    while i < parts.len()
        invariant
            i <= parts@.len(),
            s@ == join(strs(parts@).subrange(0, i as int), sep@),
        decreases parts@.len() - i,
    {
        assert(strs(parts@).subrange(0, i + 1).drop_last() =~= strs(parts@).subrange(0, i as int));
        if i == 0 {
            s = parts[0].clone();
        } else {
            s.append(sep);
            s.append(parts[i].as_str());
        }
        i += 1;
    }
    assert(strs(parts@).subrange(0, i as int) =~= strs(parts@));
    s
}

/// The non-empty pieces.
pub fn keep_nonempty(parts: Vec<String>) -> (r: Vec<String>)
    ensures
        strs(r@) == nonempty(strs(parts@)),
{
    let mut out: Vec<String> = Vec::new();
    let mut i: usize = 0;
    while i < parts.len()
        invariant
            i <= parts@.len(),
            strs(out@) == nonempty(strs(parts@).subrange(0, i as int)),
        decreases parts@.len() - i,
    {
        assert(strs(parts@).subrange(0, i + 1).drop_last() =~= strs(parts@).subrange(0, i as int));
        if parts[i].as_str().unicode_len() > 0 {
            let ghost before = out@;
            out.push(parts[i].clone());
            assert(strs(out@) =~= strs(before).push(parts@[i as int]@));
        }
        i += 1;
    }
    assert(strs(parts@).subrange(0, i as int) =~= strs(parts@));
    out
}

/// How often `c` occurs in `s`.
pub fn count_char(s: &str, c: char) -> (r: usize)
    ensures
        r == count_of(s@, c),
{
    let cs = chars_of(s);
    let mut n: usize = 0;
    let mut i: usize = 0;
    while i < cs.len()
        invariant
            cs@ == s@,
            i <= cs@.len(),
            n == count_of(s@.subrange(0, i as int), c),
            n <= i,
        decreases cs@.len() - i,
    {
        assert(s@.subrange(0, i + 1).drop_last() =~= s@.subrange(0, i as int));
        if cs[i] == c {
            n += 1;
        }
        i += 1;
    }
    assert(s@.subrange(0, i as int) =~= s@);
    n
}

/// Whether `s` begins with `p`.
pub fn starts_with(s: &str, p: &str) -> (r: bool)
    ensures
        r == is_prefix(p@, s@),
{
    let cs = chars_of(s);
    let ps = chars_of(p);
    if ps.len() > cs.len() {
        return false;
    }
    let mut i: usize = 0;
    while i < ps.len()
        invariant
            cs@ == s@,
            ps@ == p@,
            ps@.len() <= cs@.len(),
            i <= ps@.len(),
            forall|j: int| 0 <= j < i ==> cs@[j] == ps@[j],
        decreases ps@.len() - i,
    {
        if cs[i] != ps[i] {
            assert(s@.subrange(0, p@.len() as int)[i as int] != p@[i as int]);
            return false;
        }
        i += 1;
    }
    assert(s@.subrange(0, p@.len() as int) =~= p@);
    true
}

/// `s` without its first `n` characters.
pub fn drop_chars(s: &str, n: usize) -> (r: String)
    requires
        n <= s@.len(),
    ensures
        r@ == s@.subrange(n as int, s@.len() as int),
{
    let cs = chars_of(s);
    string_of(&cs, n, cs.len())
}

/// See `shorten`.
pub fn shorten_parts(parts: &Vec<String>, keep: usize) -> (r: Vec<String>)
    ensures
        strs(r@) == shorten(strs(parts@), keep as int),
{
    let n = parts.len();
    let mut out: Vec<String> = Vec::new();
    let mut i: usize = 0;
    while i < n
        invariant
            n == parts@.len(),
            i <= n,
            out@.len() == i,
            strs(out@) == shorten(strs(parts@), keep as int).subrange(0, i as int),
        decreases n - i,
    {
        let ghost before = out@;
        let part = parts[i].as_str();
        let whole = i == 0 || keep >= n || i >= n - keep || part.unicode_len() == 0;
        assert(whole == (i == 0 || i >= n - keep || parts@[i as int]@.len() == 0));
        if whole {
            out.push(parts[i].clone());
        } else {
            let cs = chars_of(part);
            out.push(string_of(&cs, 0, 1));
        }
        proof {
            assert(strs(parts@)[i as int] == parts@[i as int]@);
            assert(out@[i as int]@ == shorten(strs(parts@), keep as int)[i as int]);
            assert(strs(out@) =~= strs(before).push(out@[i as int]@));
            assert(strs(out@) =~= shorten(strs(parts@), keep as int).subrange(0, i + 1));
        }
        i += 1;
    }
    assert(shorten(strs(parts@), keep as int).subrange(0, n as int) =~= shorten(strs(parts@), keep as int));
    out
}

/// A project path relative to the home directory: `~` for the home prefix;
/// for a path under `/Users/` or `/home/` that does not start with `home`
/// (dots in the home path decoded as separators), the pieces past as many
/// as the home path spans; otherwise the path itself.
pub open spec fn relative_to_home(path: Seq<char>, home: Seq<char>) -> Seq<char> {
    if home.len() > 0 && is_prefix(home, path) {
        "~"@ + path.subrange(home.len() as int, path.len() as int)
    } else if home.len() > 0 && (is_prefix("/Users/"@, path) || is_prefix("/home/"@, path)) {
        let hp = nonempty(split(home, '/'));
        let pp = nonempty(split(path, '/'));
        let n = hp.len() + count_of(home, '.');
        if pp.len() > n {
            "~/"@ + join(pp.subrange(n as int, pp.len() as int), "/"@)
        } else {
            "~"@
        }
    } else {
        path
    }
}

/// A project path as listed, e.g. `~/s/c/my-project`: relative to home,
/// with the pieces between the first and the last cut to one character.
pub open spec fn abbreviated_project_path(path: Seq<char>, home: Seq<char>) -> Seq<char> {
    let rel = relative_to_home(path, home);
    let parts = split(rel, '/');
    if parts.len() <= 2 {
        rel
    } else {
        join(shorten(parts, 1), "/"@)
    }
}

/// A file path as shown in a tool call, e.g. `~/s/c/project/src/main.rs`:
/// `~` for the home prefix, then every piece but the first and the last two
/// cut to one character.
pub open spec fn abbreviated_file_path(path: Seq<char>, home: Seq<char>) -> Seq<char> {
    let p = if home.len() > 0 && is_prefix(home, path) {
        "~"@ + path.subrange(home.len() as int, path.len() as int)
    } else {
        path
    };
    let parts = split(p, '/');
    if parts.len() <= 3 {
        p
    } else {
        join(shorten(parts, 2), "/"@)
    }
}

fn relative_path(path: &str, home: &str) -> (r: String)
    ensures
        r@ == relative_to_home(path@, home@),
{
    let has_home = home.unicode_len() > 0;
    if has_home && starts_with(path, home) {
        let rest = drop_chars(path, home.unicode_len());
        let mut r = String::from_str("~");
        r.append(rest.as_str());
        r
    } else if has_home && (starts_with(path, "/Users/") || starts_with(path, "/home/")) {
        let hp = keep_nonempty(split_on(home, '/'));
        let pp = keep_nonempty(split_on(path, '/'));
        let dots = count_char(home, '.');
        if dots <= pp.len() && hp.len() < pp.len() - dots {
            let n = hp.len() + dots;
            let mut tail: Vec<String> = Vec::new();
            let mut i = n;
            while i < pp.len()
                invariant
                    n <= i <= pp@.len(),
                    strs(tail@) == strs(pp@).subrange(n as int, i as int),
                decreases pp@.len() - i,
            {
                let ghost before = tail@;
                tail.push(pp[i].clone());
                assert(strs(tail@) =~= strs(before).push(pp@[i as int]@));
                assert(strs(tail@) =~= strs(pp@).subrange(n as int, i + 1));
                i += 1;
            }
            let mut r = String::from_str("~/");
            let joined = join_with(&tail, "/");
            r.append(joined.as_str());
            r
        } else {
            String::from_str("~")
        }
    } else {
        String::from_str(path)
    }
}

/// Shortens a project's original path for the project list.
pub fn abbreviate_project_path(path: &str, home: &str) -> (r: String)
    ensures
        r@ == abbreviated_project_path(path@, home@),
{
    let rel = relative_path(path, home);
    let parts = split_on(rel.as_str(), '/');
    if parts.len() <= 2 {
        rel
    } else {
        let short = shorten_parts(&parts, 1);
        join_with(&short, "/")
    }
}

/// Shortens a file path for a tool call's header.
pub fn abbreviate_path(path: &str, home: &str) -> (r: String)
    ensures
        r@ == abbreviated_file_path(path@, home@),
{
    let p = if home.unicode_len() > 0 && starts_with(path, home) {
        let rest = drop_chars(path, home.unicode_len());
        let mut r = String::from_str("~");
        r.append(rest.as_str());
        r
    } else {
        String::from_str(path)
    };
    let parts = split_on(p.as_str(), '/');
    if parts.len() <= 3 {
        p
    } else {
        let short = shorten_parts(&parts, 2);
        join_with(&short, "/")
    }
}

/// A line cut to `max_width` characters, the last of them an ellipsis when
/// it had to be cut.
pub open spec fn truncated(line: Seq<char>, max_width: nat) -> Seq<char> {
    if line.len() <= max_width {
        line
    } else if max_width > 1 {
        line.subrange(0, max_width - 1).push('\u{2026}')
    } else {
        seq!['\u{2026}']
    }
}

pub fn truncate_line(line: &str, max_width: usize) -> (r: String)
    ensures
        r@ == truncated(line@, max_width as nat),
{
    let cs = chars_of(line);
    if cs.len() <= max_width {
        String::from_str(line)
    } else if max_width > 1 {
        let mut r = string_of(&cs, 0, max_width - 1);
        crate::text::push_char(&mut r, '\u{2026}');
        r
    } else {
        let mut r = String::new();
        crate::text::push_char(&mut r, '\u{2026}');
        assert(r@ =~= seq!['\u{2026}']);
        r
    }
}

} // verus!
