//! The project / session / agent hierarchy: names read from directory and
//! file names, content-derived recency, and ranking by recency.

use vstd::prelude::*;
use crate::json::{member, parse_json, JsonValue, json_parse, take_member};
use crate::raw::opt_timestamp;
use crate::paths::{abbreviate_project_path, abbreviated_project_path};
use crate::reader::{is_blank, trim, trim_bounds};
use crate::text::{alphabetic, chars_of, is_alphabetic, label_with_time, string_of, with_time};
use crate::time::{later, parse_timestamp, Timestamp};

verus! {

broadcast use vstd::seq_lib::group_to_multiset_ensures;

/// A project directory.
pub struct Project {
    pub name: String,
    /// The project's directory under the projects root.
    pub path: String,
    /// The directory's own (encoded) name.
    pub encoded_path: String,
    /// The filesystem path the project stands for.
    pub original_path: String,
    pub last_modified: Timestamp,
}

/// One session: one primary JSONL log.
pub struct Session {
    pub id: String,
    pub project_path: String,
    pub log_path: String,
    pub summary: Option<String>,
    pub last_modified: Timestamp,
}

/// The main agent of a session or one of its sub-agents.
pub struct Agent {
    /// `main` for the main agent, else the id read from the file name.
    pub id: String,
    pub display_name: String,
    pub log_path: String,
    pub last_modified: Timestamp,
    /// The main agent, pinned first.
    pub is_main: bool,
}

/// Id and display name read from a sub-agent's file name.
pub struct AgentInfo {
    pub id: String,
    pub display_name: String,
}

/// Something ranked by recency.
pub trait Ranked {
    spec fn rank(&self) -> Timestamp;

    fn recency(&self) -> (r: Timestamp)
        ensures
            r == self.rank(),
    ;
}

impl Ranked for Project {
    open spec fn rank(&self) -> Timestamp {
        self.last_modified
    }

    fn recency(&self) -> (r: Timestamp) {
        self.last_modified
    }
}

impl Ranked for Session {
    open spec fn rank(&self) -> Timestamp {
        self.last_modified
    }

    fn recency(&self) -> (r: Timestamp) {
        self.last_modified
    }
}

impl Ranked for Agent {
    open spec fn rank(&self) -> Timestamp {
        self.last_modified
    }

    fn recency(&self) -> (r: Timestamp) {
        self.last_modified
    }
}

/// Most recent first: no item is strictly more recent than one before it.
pub open spec fn most_recent_first<T: Ranked>(s: Seq<T>) -> bool {
    forall|i: int, j: int| 0 <= i < j < s.len() ==> !later(#[trigger] s[j].rank(), #[trigger] s[i].rank())
}

/// Orders items most recent first; items of equal recency keep their order.
pub fn sort_by_recency<T: Ranked>(items: Vec<T>) -> (r: Vec<T>)
    ensures
        r@.to_multiset() == items@.to_multiset(),
        most_recent_first(r@),
{
    let ghost all = items@;
    let mut out: Vec<T> = Vec::new();
    for item in it: items
        invariant
            it.seq() == all,
            out@.to_multiset() == all.take(it.index() as int).to_multiset(),
            most_recent_first(out@),
    {
        let ghost idx = it.index();
        let k = item.recency();
        let mut j: usize = 0;
        while j < out.len() && !k.is_later_than(&out[j].recency())
            invariant
                0 <= j <= out@.len(),
                k == item.rank(),
                forall|m: int| 0 <= m < j ==> !later(k, #[trigger] out@[m].rank()),
            decreases out@.len() - j,
        {
            j += 1;
        }
        let ghost before = out@;
        out.insert(j, item);
        proof {
            assert(all.take(idx + 1) =~= all.take(idx as int).push(all[idx as int]));
            assert(out@ == before.insert(j as int, item));
            assert forall|a: int, b: int| 0 <= a < b < out@.len() implies !later(
                #[trigger] out@[b].rank(),
                #[trigger] out@[a].rank(),
            ) by {
                if b < j {
                    assert(out@[a] == before[a] && out@[b] == before[b]);
                } else if b == j {
                    assert(out@[a] == before[a]);
                } else if a == j {
                    assert(out@[b] == before[b - 1]);
                    if later(out@[b].rank(), k) {
                        assert(later(k, before[j as int].rank()));
                        if b - 1 > j {
                            assert(!later(before[b - 1].rank(), before[j as int].rank()));
                        }
                    }
                } else if a < j {
                    assert(out@[a] == before[a] && out@[b] == before[b - 1]);
                } else {
                    assert(out@[a] == before[a - 1] && out@[b] == before[b - 1]);
                }
            }
        }
    }
    proof {
        assert(all.take(all.len() as int) =~= all);
    }
    out
}

/// Projects, most recently active first.
pub fn rank_projects(projects: Vec<Project>) -> (r: Vec<Project>)
    ensures
        r@.to_multiset() == projects@.to_multiset(),
        most_recent_first(r@),
{
    sort_by_recency(projects)
}

/// Sessions, most recently active first.
pub fn rank_sessions(sessions: Vec<Session>) -> (r: Vec<Session>)
    ensures
        r@.to_multiset() == sessions@.to_multiset(),
        most_recent_first(r@),
{
    sort_by_recency(sessions)
}

/// The agent list: the main agent pinned first, then the sub-agents most
/// recently active first.
pub fn rank_agents(main: Agent, subagents: Vec<Agent>) -> (r: Vec<Agent>)
    ensures
        r@.len() == subagents@.len() + 1,
        r@[0] == main,
        r@.drop_first().to_multiset() == subagents@.to_multiset(),
        most_recent_first(r@.drop_first()),
{
    let ghost subs = subagents@;
    let sorted = sort_by_recency(subagents);
    proof {
        assert(sorted@.to_multiset().len() == sorted@.len());
        assert(subs.to_multiset().len() == subs.len());
    }
    let mut r: Vec<Agent> = Vec::new();
    r.push(main);
    let mut sorted = sorted;
    let ghost tail = sorted@;
    r.append(&mut sorted);
    proof {
        assert(r@.drop_first() =~= tail);
    }
    r
}

/// With pairwise distinct recencies, most-recent-first order is strictly
/// descending.
pub proof fn lemma_distinct_recency_strict<T: Ranked>(s: Seq<T>)
    requires
        most_recent_first(s),
        forall|i: int, j: int| 0 <= i < j < s.len() ==> s[i].rank() != s[j].rank(),
    ensures
        forall|i: int, j: int| 0 <= i < j < s.len() ==> later(s[i].rank(), s[j].rank()),
{
    assert forall|i: int, j: int| 0 <= i < j < s.len() implies later(s[i].rank(), s[j].rank()) by {
        assert(!later(s[j].rank(), s[i].rank()));
        assert(s[i].rank() != s[j].rank());
    }
}

// ----- agent file names -----
/// The last index of `c` in `s`.
pub open spec fn last_index_of(s: Seq<char>, c: char) -> Option<int>
    decreases s.len(),
{
    if s.len() == 0 {
        None
    } else if s.last() == c {
        Some(s.len() - 1)
    } else {
        last_index_of(s.drop_last(), c)
    }
}

/// Id and display name of `agent-{id}` or `agent-{type}-{id}`: the type is
/// what stands before the last `-` when it is non-empty and holds a letter,
/// and the id after it is non-empty.
pub open spec fn agent_info_of(name: Seq<char>) -> Option<(Seq<char>, Seq<char>)> {
    if name.len() >= 6 && name.subrange(0, 6) == "agent-"@ {
        let rest = name.subrange(6, name.len() as int);
        match last_index_of(rest, '-') {
            Some(p) => {
                let ty = rest.subrange(0, p);
                let id = rest.subrange(p + 1, rest.len() as int);
                if ty.len() > 0 && (exists|k: int| 0 <= k < ty.len() && alphabetic(ty[k])) && id.len() > 0 {
                    Some((id, ty))
                } else {
                    Some((rest, rest))
                }
            },
            None => Some((rest, rest)),
        }
    } else {
        None
    }
}

fn find_last(cs: &Vec<char>, from: usize, c: char) -> (r: Option<usize>)
    requires
        from <= cs@.len(),
    ensures
        match r {
            Some(p) => last_index_of(cs@.subrange(from as int, cs@.len() as int), c) == Some(p - from)
                && from <= p < cs@.len(),
            None => last_index_of(cs@.subrange(from as int, cs@.len() as int), c) is None,
        },
{
    let mut i = cs.len();
    while i > from
        invariant
            from <= i <= cs@.len(),
            last_index_of(cs@.subrange(from as int, cs@.len() as int), c) == last_index_of(
                cs@.subrange(from as int, i as int),
                c,
            ),
        decreases i - from,
    {
        if cs[i - 1] == c {
            return Some(i - 1);
        }
        assert(cs@.subrange(from as int, i as int).drop_last() =~= cs@.subrange(from as int, i - 1));
        i -= 1;
    }
    None
}

fn any_alphabetic(cs: &Vec<char>, from: usize, to: usize) -> (r: bool)
    requires
        from <= to <= cs@.len(),
    ensures
        r == exists|k: int| 0 <= k < to - from && alphabetic(cs@.subrange(from as int, to as int)[k]),
{
    let mut i = from;
    while i < to
        invariant
            from <= i <= to <= cs@.len(),
            forall|m: int| from <= m < i ==> !alphabetic(cs@[m]),
        decreases to - i,
    {
        if is_alphabetic(cs[i]) {
            assert(alphabetic(cs@.subrange(from as int, to as int)[i - from]));
            return true;
        }
        i += 1;
    }
    assert forall|k: int| 0 <= k < to - from implies !alphabetic(cs@.subrange(from as int, to as int)[k]) by {
        assert(cs@.subrange(from as int, to as int)[k] == cs@[from + k]);
    }
    false
}

/// Reads a sub-agent's id and display name from its file stem.
pub fn parse_agent_filename(filename: &str) -> (r: Option<AgentInfo>)
    ensures
        match r {
            Some(info) => agent_info_of(filename@) == Some((info.id@, info.display_name@)),
            None => agent_info_of(filename@) is None,
        },
{
    let cs = chars_of(filename);
    let prefix = chars_of("agent-");
    proof {
        reveal_strlit("agent-");
        assert("agent-"@.len() == 6);
    }
    if cs.len() < 6 {
        return None;
    }
    let mut i: usize = 0;
    while i < 6
        invariant
            i <= 6 <= cs@.len(),
            prefix@ == "agent-"@,
            prefix@.len() == 6,
            cs@ == filename@,
            forall|m: int| 0 <= m < i ==> cs@[m] == prefix@[m],
        decreases 6 - i,
    {
        if cs[i] != prefix[i] {
            assert(cs@.subrange(0, 6)[i as int] != "agent-"@[i as int]);
            return None;
        }
        i += 1;
    }
    assert(cs@.subrange(0, 6) =~= "agent-"@);
    let n = cs.len();
    let rest = string_of(&cs, 6, n);
    let ghost rs = cs@.subrange(6, n as int);
    assert(rs == filename@.subrange(6, filename@.len() as int));
    match find_last(&cs, 6, '-') {
        Some(p) => {
            let ghost ty = rs.subrange(0, p - 6);
            let ghost id = rs.subrange(p - 6 + 1, rs.len() as int);
            assert(ty =~= cs@.subrange(6, p as int));
            assert(id =~= cs@.subrange(p + 1, n as int));
            let typed = p > 6 && any_alphabetic(&cs, 6, p) && p + 1 < n;
            assert(typed == (ty.len() > 0 && (exists|k: int| 0 <= k < ty.len() && alphabetic(ty[k])) && id.len() > 0));
            if typed {
                Some(AgentInfo { id: string_of(&cs, p + 1, n), display_name: string_of(&cs, 6, p) })
            } else {
                let rest2 = string_of(&cs, 6, n);
                Some(AgentInfo { id: rest, display_name: rest2 })
            }
        },
        None => {
            let rest2 = string_of(&cs, 6, n);
            Some(AgentInfo { id: rest, display_name: rest2 })
        },
    }
}

// ----- project paths -----
/// The last component of a `/`-separated path, as `Path::file_name` reads
/// it: trailing separators and `.` components are skipped; a path ending in
/// `..`, or with no component, has none.
pub open spec fn file_name_of(p: Seq<char>) -> Option<Seq<char>>
    decreases p.len(),
{
    if p.len() == 0 {
        None
    } else if p.last() == '/' {
        file_name_of(p.drop_last())
    } else {
        let start = match last_index_of(p, '/') {
            Some(i) => i + 1,
            None => 0,
        };
        let seg = p.subrange(start, p.len() as int);
        if seg == "."@ {
            if start <= 0 || start >= p.len() {
                None
            } else {
                file_name_of(p.subrange(0, start))
            }
        } else if seg == ".."@ {
            None
        } else {
            Some(seg)
        }
    }
}

proof fn lemma_last_index_bounds(s: Seq<char>, c: char)
    ensures
        match last_index_of(s, c) {
            Some(i) => 0 <= i < s.len() && s[i] == c && forall|j: int| i < j < s.len() ==> s[j] != c,
            None => forall|j: int| 0 <= j < s.len() ==> s[j] != c,
        },
    decreases s.len(),
{
    if s.len() > 0 && s.last() != c {
        let t = s.drop_last();
        lemma_last_index_bounds(t, c);
        match last_index_of(t, c) {
            Some(i) => {
                assert(s[i] == t[i]);
                assert forall|j: int| i < j < s.len() implies s[j] != c by {
                    if j < t.len() {
                        assert(s[j] == t[j]);
                    }
                }
            },
            None => {
                assert forall|j: int| 0 <= j < s.len() implies s[j] != c by {
                    if j < t.len() {
                        assert(s[j] == t[j]);
                    }
                }
            },
        }
    }
}

/// Bounds of the file name of `cs[..]`, if it has one.
fn file_name_bounds(cs: &Vec<char>) -> (r: Option<(usize, usize)>)
    ensures
        match r {
            Some((a, b)) => a <= b <= cs@.len() && file_name_of(cs@) == Some(cs@.subrange(a as int, b as int)),
            None => file_name_of(cs@) is None,
        },
{
    proof {
        reveal_strlit(".");
        reveal_strlit("..");
    }
    let mut end = cs.len();
    assert(cs@.subrange(0, end as int) =~= cs@);
    while end > 0
        invariant
            end <= cs@.len(),
            file_name_of(cs@) == file_name_of(cs@.subrange(0, end as int)),
        decreases end,
    {
        let ghost p = cs@.subrange(0, end as int);
        if cs[end - 1] == '/' {
            assert(p.drop_last() =~= cs@.subrange(0, end - 1));
            end -= 1;
        } else {
            let mut start = end - 1;
            while start > 0 && cs[start - 1] != '/'
                invariant
                    0 <= start < end <= cs@.len(),
                    forall|j: int| start <= j < end ==> cs@[j] != '/',
                decreases start,
            {
                start -= 1;
            }
            proof {
                lemma_last_index_bounds(p, '/');
                assert forall|j: int| start <= j < end implies p[j] != '/' by {
                    assert(p[j] == cs@[j]);
                }
                if start > 0 {
                    assert(p[start - 1] == cs@[start - 1]);
                    assert(p[start - 1] == '/');
                }
                match last_index_of(p, '/') {
                    Some(i) => {
                        if i < start - 1 {
                            assert(p[start - 1] != '/');
                        }
                        if i >= start {
                            assert(p[i] != '/');
                        }
                        assert(i + 1 == start);
                    },
                    None => {
                        if start > 0 {
                            assert(p[start - 1] != '/');
                        }
                        assert(start == 0);
                    },
                }
                assert(p.subrange(start as int, end as int) =~= cs@.subrange(start as int, end as int));
            }
            let len = end - start;
            proof {
                reveal_strlit(".");
                reveal_strlit("..");
                assert("."@ =~= seq!['.']);
                assert(".."@ =~= seq!['.', '.']);
            }
            if len == 1 && cs[start] == '.' {
                assert(cs@.subrange(start as int, end as int) =~= "."@);
                if start == 0 {
                    return None;
                }
                assert(p.subrange(0, start as int) =~= cs@.subrange(0, start as int));
                end = start;
            } else if len == 2 && cs[start] == '.' && cs[start + 1] == '.' {
                assert(cs@.subrange(start as int, end as int) =~= ".."@);
                return None;
            } else {
                assert(cs@.subrange(start as int, end as int) != "."@) by {
                    if len == 1 {
                        assert(cs@.subrange(start as int, end as int)[0] != "."@[0]);
                    }
                }
                assert(cs@.subrange(start as int, end as int) != ".."@) by {
                    if len == 2 {
                        if cs[start as int] != '.' {
                            assert(cs@.subrange(start as int, end as int)[0] != ".."@[0]);
                        } else {
                            assert(cs@.subrange(start as int, end as int)[1] != ".."@[1]);
                        }
                    }
                }
                return Some((start, end));
            }
        }
    }
    None
}

/// The display name of a project: the file name of its original path, or
/// its encoded directory name when that path has none.
pub open spec fn project_name_of(original: Seq<char>, encoded: Seq<char>) -> Seq<char> {
    match file_name_of(original) {
        Some(n) => n,
        None => encoded,
    }
}

pub fn project_name(original_path: &str, encoded: &str) -> (r: String)
    ensures
        r@ == project_name_of(original_path@, encoded@),
{
    let cs = chars_of(original_path);
    match file_name_bounds(&cs) {
        Some((a, b)) => string_of(&cs, a, b),
        None => String::from_str(encoded),
    }
}

/// An encoded project directory name read back as a path: every `-` stands
/// for a `/` (lossy for names that hold dashes).
pub open spec fn decoded_path(encoded: Seq<char>) -> Seq<char> {
    Seq::new(encoded.len(), |i: int| if encoded[i] == '-' { '/' } else { encoded[i] })
}

/// Reads an encoded project directory name back as (name, path).
pub fn decode_project_path(encoded: &str) -> (r: (String, String))
    ensures
        r.1@ == decoded_path(encoded@),
        r.0@ == project_name_of(decoded_path(encoded@), encoded@),
{
    let cs = chars_of(encoded);
    let mut out: Vec<char> = Vec::new();
    let mut i: usize = 0;
    while i < cs.len()
        invariant
            i <= cs@.len(),
            cs@ == encoded@,
            out@ =~= decoded_path(encoded@).subrange(0, i as int),
        decreases cs@.len() - i,
    {
        if cs[i] == '-' {
            out.push('/');
        } else {
            out.push(cs[i]);
        }
        i += 1;
    }
    assert(out@ =~= decoded_path(encoded@));
    let path = string_of(&out, 0, out.len());
    assert(out@.subrange(0, out@.len() as int) =~= out@);
    let name = match file_name_bounds(&out) {
        Some((a, b)) => string_of(&out, a, b),
        None => String::from_str(encoded),
    };
    (name, path)
}

// ----- content-derived recency -----
/// Where the line that ends at byte `end` begins.
pub open spec fn line_start(s: Seq<u8>, end: int) -> int
    decreases end,
{
    if end <= 0 {
        0
    } else if s[end - 1] == 0x0Au8 {
        end
    } else {
        line_start(s, end - 1)
    }
}

/// The instant that a line's `timestamp` member names, when the line is a
/// JSON object whose timestamp reads as an instant not before the epoch.
pub open spec fn line_timestamp(line: Seq<u8>) -> Option<Timestamp> {
    match json_parse(trim(line)) {
        Ok(JsonValue::Object(f)) => match opt_timestamp(member(f@, "timestamp"@)) {
            Some(Some(t)) => if t.seconds >= 0 {
                Some(t)
            } else {
                None
            },
            _ => None,
        },
        _ => None,
    }
}

/// The instant named by the last of the lines of `s[..end]` that names
/// one (blank lines name none).
pub open spec fn last_stamp(s: Seq<u8>, end: int) -> Option<Timestamp>
    decreases end,
{
    let st = line_start(s, end);
    let line = s.subrange(st, end);
    let t = if is_blank(line) {
        None
    } else {
        line_timestamp(line)
    };
    if t is Some {
        t
    } else if st <= 0 || st > end {
        None
    } else {
        last_stamp(s, st - 1)
    }
}

/// The instant of a log's last entry that names one.
pub open spec fn content_timestamp(s: Seq<u8>) -> Option<Timestamp> {
    last_stamp(s, s.len() as int)
}

proof fn lemma_line_start_bounds(s: Seq<u8>, end: int)
    requires
        0 <= end <= s.len(),
    ensures
        0 <= line_start(s, end) <= end,
        forall|j: int| line_start(s, end) <= j < end ==> s[j] != 0x0Au8,
        line_start(s, end) > 0 ==> s[line_start(s, end) - 1] == 0x0Au8,
    decreases end,
{
    if end > 0 && s[end - 1] != 0x0Au8 {
        lemma_line_start_bounds(s, end - 1);
    }
}

/// The instant that one line names, if it names one.
fn stamp_of_line(content: &[u8], a: usize, b: usize) -> (r: Option<Timestamp>)
    requires
        a <= b <= content@.len(),
    ensures
        r == if is_blank(content@.subrange(a as int, b as int)) {
            None
        } else {
            line_timestamp(content@.subrange(a as int, b as int))
        },
{
    let (lo, hi) = trim_bounds(content, a, b);
    if lo == b {
        return None;
    }
    let line = &content[lo..hi];
    assert(line@ =~= trim(content@.subrange(a as int, b as int)));
    match parse_json(line) {
        Ok(JsonValue::Object(f)) => {
            let mut f = f;
            match take_member(&mut f, "timestamp") {
                Some(JsonValue::Str(t)) => match parse_timestamp(t.as_str()) {
                    Some(t) => if t.seconds >= 0 {
                        Some(t)
                    } else {
                        None
                    },
                    None => None,
                },
                _ => None,
            }
        },
        _ => None,
    }
}

/// The instant named by the last entry of a log's content that names one,
/// read from the end backwards.
pub fn last_entry_timestamp(content: &[u8]) -> (r: Option<Timestamp>)
    ensures
        r == content_timestamp(content@),
{
    let ghost s = content@;
    let mut end = content.len();
    loop
        invariant
            s == content@,
            end <= content@.len(),
            content_timestamp(s) == last_stamp(s, end as int),
        decreases end,
    {
        let mut st = end;
        while st > 0 && content[st - 1] != 0x0Au8
            invariant
                s == content@,
                st <= end <= content@.len(),
                line_start(s, end as int) == line_start(s, st as int),
            decreases st,
        {
            st -= 1;
        }
        proof {
            lemma_line_start_bounds(s, st as int);
        }
        assert(line_start(s, st as int) == st);
        let t = stamp_of_line(content, st, end);
        if t.is_some() {
            return t;
        }
        if st == 0 {
            return None;
        }
        end = st - 1;
    }
}

/// A log's recency: the instant of its last entry, or its modification
/// time when no entry names one.
pub fn recency_of(content: &[u8], modified: Timestamp) -> (r: Timestamp)
    ensures
        r == match content_timestamp(content@) {
            Some(t) => t,
            None => modified,
        },
{
    match last_entry_timestamp(content) {
        Some(t) => t,
        None => modified,
    }
}

/// The latest of `ts`, starting from the epoch.
pub open spec fn latest(ts: Seq<Timestamp>) -> Timestamp
    decreases ts.len(),
{
    if ts.len() == 0 {
        Timestamp { seconds: 0, nanos: 0 }
    } else {
        let m = latest(ts.drop_last());
        if later(ts.last(), m) {
            ts.last()
        } else {
            m
        }
    }
}

/// A project's recency: the latest recency of its session logs, or the
/// directory's own modification time when none is after the epoch.
pub open spec fn project_recency_of(sessions: Seq<Timestamp>, dir_modified: Option<Timestamp>) -> Timestamp {
    let m = latest(sessions);
    if m == (Timestamp { seconds: 0, nanos: 0 }) && dir_modified is Some {
        dir_modified->0
    } else {
        m
    }
}

pub fn project_recency(sessions: &Vec<Timestamp>, dir_modified: Option<Timestamp>) -> (r: Timestamp)
    ensures
        r == project_recency_of(sessions@, dir_modified),
{
    let mut m = Timestamp::epoch();
    let mut i: usize = 0;
    while i < sessions.len()
        invariant
            i <= sessions@.len(),
            m == latest(sessions@.subrange(0, i as int)),
        decreases sessions@.len() - i,
    {
        assert(sessions@.subrange(0, i + 1).drop_last() =~= sessions@.subrange(0, i as int));
        if sessions[i].is_later_than(&m) {
            m = sessions[i];
        }
        i += 1;
    }
    assert(sessions@.subrange(0, i as int) =~= sessions@);
    if m.seconds == 0 && m.nanos == 0 {
        match dir_modified {
            Some(d) => d,
            None => m,
        }
    } else {
        m
    }
}

/// The summary that a session index gives a session id: the last entry
/// for that id wins.
pub open spec fn summary_in(index: Seq<(String, Option<String>)>, id: Seq<char>) -> Option<Seq<char>>
    decreases index.len(),
{
    if index.len() == 0 {
        None
    } else if index.last().0@ == id {
        crate::raw::opt_str_view(index.last().1)
    } else {
        summary_in(index.drop_last(), id)
    }
}

pub fn summary_for(index: &Vec<(String, Option<String>)>, id: &str) -> (r: Option<String>)
    ensures
        crate::raw::opt_str_view(r) == summary_in(index@, id@),
{
    let mut i = index.len();
    assert(index@.subrange(0, i as int) =~= index@);
    while i > 0
        invariant
            i <= index@.len(),
            summary_in(index@, id@) == summary_in(index@.subrange(0, i as int), id@),
        decreases i,
    {
        assert(index@.subrange(0, i as int).drop_last() =~= index@.subrange(0, i - 1));
        if crate::json::str_eq(index[i - 1].0.as_str(), id) {
            return match &index[i - 1].1 {
                Some(s) => Some(s.clone()),
                None => None,
            };
        }
        i -= 1;
    }
    None
}

// ----- display -----
/// Relies on chrono: the instant as local wall-clock time, `HH:MM:SS`. The
/// text depends on the machine's time zone. The instant is kept between the
/// epoch and the end of year 9999, where chrono's local-offset lookup finds
/// a time type.
#[verifier::external_body]
pub(crate) fn local_clock(t: Timestamp) -> (r: String)
    requires
        0 <= t.seconds <= LATEST_CLOCK_SECONDS,
{
    chrono::DateTime::from_timestamp(t.seconds, t.nanos)
        .map(|d| d.with_timezone(&chrono::Local).format("%H:%M:%S").to_string())
        .unwrap_or_default()
}

/// 9999-12-31T23:59:59Z.
pub const LATEST_CLOCK_SECONDS: i64 = 253402300799;

/// The local time of day of an instant, or the empty text for an instant
/// before the epoch or after year 9999.
pub fn clock_text(t: Timestamp) -> (r: String)
    ensures
        !(0 <= t.seconds <= LATEST_CLOCK_SECONDS) ==> r@.len() == 0,
{
    if 0 <= t.seconds && t.seconds <= LATEST_CLOCK_SECONDS {
        local_clock(t)
    } else {
        String::new()
    }
}

/// How many bytes UTF-8 takes for the character.
pub open spec fn char_len(c: char) -> nat {
    let v = c as u32;
    if v < 0x80 {
        1
    } else if v < 0x800 {
        2
    } else if v < 0x10000 {
        3
    } else {
        4
    }
}

/// The length of the text in UTF-8 bytes (what `str::len` counts).
pub open spec fn utf8_len(s: Seq<char>) -> nat
    decreases s.len(),
{
    if s.len() == 0 {
        0
    } else {
        utf8_len(s.drop_last()) + char_len(s.last())
    }
}

/// How many leading characters lie wholly within the first `b` bytes.
pub open spec fn chars_within(s: Seq<char>, b: int) -> nat
    decreases s.len(),
{
    if s.len() > 0 && char_len(s[0]) <= b {
        1 + chars_within(s.drop_first(), b - char_len(s[0]))
    } else {
        0
    }
}

/// How many characters start before byte `b`.
pub open spec fn chars_starting_before(s: Seq<char>, b: int) -> nat
    decreases s.len(),
{
    if s.len() > 0 && b > 0 {
        1 + chars_starting_before(s.drop_first(), b - char_len(s[0]))
    } else {
        0
    }
}

/// A session id as listed: longer than 8 bytes, its first 8 bytes and
/// `...`; when byte 8 falls inside a character, that character is left out
/// too (the cut goes back to the character boundary before it).
pub open spec fn short_id_of(id: Seq<char>) -> Seq<char> {
    if utf8_len(id) > 8 {
        id.take(chars_within(id, 8) as int) + "..."@
    } else {
        id
    }
}

/// A session's label: a summary longer than 40 bytes is cut at the end of
/// the last character that starts before byte 37, then `...` added;
/// without a summary, the short id.
pub open spec fn session_label_of(summary: Option<Seq<char>>, id: Seq<char>) -> Seq<char> {
    match summary {
        Some(s) => if utf8_len(s) > 40 {
            s.take(chars_starting_before(s, 37) as int) + "..."@
        } else {
            s
        },
        None => short_id_of(id),
    }
}

fn char_utf8_len(c: char) -> (r: usize)
    ensures
        r == char_len(c),
{
    let v = c as u32;
    if v < 0x80 {
        1
    } else if v < 0x800 {
        2
    } else if v < 0x10000 {
        3
    } else {
        4
    }
}

proof fn lemma_utf8_len_prefix(s: Seq<char>, i: int)
    requires
        0 <= i <= s.len(),
    ensures
        utf8_len(s.take(i)) <= utf8_len(s),
    decreases s.len() - i,
{
    if i < s.len() {
        assert(s.take(i + 1).drop_last() =~= s.take(i));
        lemma_utf8_len_prefix(s, i + 1);
    } else {
        assert(s.take(i) =~= s);
    }
}

/// Whether the text takes more than `limit` bytes.
fn longer_than(cs: &Vec<char>, limit: usize) -> (r: bool)
    requires
        limit <= 64,
    ensures
        r == (utf8_len(cs@) > limit),
{
    let mut acc: usize = 0;
    let mut i: usize = 0;
    assert(cs@.take(0) =~= Seq::<char>::empty());
    while i < cs.len()
        invariant
            i <= cs@.len(),
            acc == utf8_len(cs@.take(i as int)),
            acc <= limit <= 64,
        decreases cs@.len() - i,
    {
        assert(cs@.take(i + 1).drop_last() =~= cs@.take(i as int));
        acc = acc + char_utf8_len(cs[i]);
        i += 1;
        if acc > limit {
            proof {
                lemma_utf8_len_prefix(cs@, i as int);
            }
            return true;
        }
    }
    assert(cs@.take(i as int) =~= cs@);
    false
}

fn count_within(cs: &Vec<char>, b: usize) -> (r: usize)
    ensures
        r == chars_within(cs@, b as int),
        r <= cs@.len(),
{
    let mut i: usize = 0;
    let mut rem = b;
    assert(cs@.subrange(0, cs@.len() as int) =~= cs@);
    while i < cs.len() && char_utf8_len(cs[i]) <= rem
        invariant
            i <= cs@.len(),
            chars_within(cs@, b as int) == i + chars_within(cs@.subrange(i as int, cs@.len() as int), rem as int),
        decreases cs@.len() - i,
    {
        let ghost rest = cs@.subrange(i as int, cs@.len() as int);
        assert(rest[0] == cs@[i as int]);
        assert(rest.drop_first() =~= cs@.subrange(i + 1, cs@.len() as int));
        rem = rem - char_utf8_len(cs[i]);
        i += 1;
    }
    proof {
        let rest = cs@.subrange(i as int, cs@.len() as int);
        if i < cs.len() {
            assert(rest[0] == cs@[i as int]);
        }
    }
    i
}

fn count_starting_before(cs: &Vec<char>, b: usize) -> (r: usize)
    ensures
        r == chars_starting_before(cs@, b as int),
        r <= cs@.len(),
{
    let mut i: usize = 0;
    let mut rem = b;
    assert(cs@.subrange(0, cs@.len() as int) =~= cs@);
    while i < cs.len() && rem > 0
        invariant
            i <= cs@.len(),
            chars_starting_before(cs@, b as int) == i + chars_starting_before(
                cs@.subrange(i as int, cs@.len() as int),
                rem as int,
            ),
        decreases cs@.len() - i,
    {
        let ghost rest = cs@.subrange(i as int, cs@.len() as int);
        assert(rest[0] == cs@[i as int]);
        assert(rest.drop_first() =~= cs@.subrange(i + 1, cs@.len() as int));
        let c = char_utf8_len(cs[i]);
        proof {
            if c >= rem {
                let r1 = cs@.subrange(i + 1, cs@.len() as int);
                assert(chars_starting_before(r1, rem - c) == 0);
                assert(chars_starting_before(r1, 0) == 0);
            }
        }
        rem = if c >= rem {
            0
        } else {
            rem - c
        };
        i += 1;
    }
    i
}

fn cut_with_ellipsis(cs: &Vec<char>, n: usize) -> (r: String)
    requires
        n <= cs@.len(),
    ensures
        r@ == cs@.take(n as int) + "..."@,
{
    let mut r = string_of(cs, 0, n);
    r.append("...");
    assert(cs@.subrange(0, n as int) =~= cs@.take(n as int));
    r
}

impl Session {
    /// The last activity as local time of day.
    pub fn timestamp_str(&self) -> String {
        clock_text(self.last_modified)
    }

    pub fn short_id(&self) -> (r: String)
        ensures
            r@ == short_id_of(self.id@),
    {
        let cs = chars_of(self.id.as_str());
        if longer_than(&cs, 8) {
            let n = count_within(&cs, 8);
            cut_with_ellipsis(&cs, n)
        } else {
            self.id.clone()
        }
    }

    /// The label without its time.
    pub fn label(&self) -> (r: String)
        ensures
            r@ == session_label_of(crate::raw::opt_str_view(self.summary), self.id@),
    {
        match &self.summary {
            Some(s) => {
                let cs = chars_of(s.as_str());
                if longer_than(&cs, 40) {
                    let n = count_starting_before(&cs, 37);
                    cut_with_ellipsis(&cs, n)
                } else {
                    s.clone()
                }
            },
            None => self.short_id(),
        }
    }

    /// `label (HH:MM:SS)`.
    pub fn display_name(&self) -> (r: String)
        ensures
            exists|t: Seq<char>| r@ == with_time(session_label_of(crate::raw::opt_str_view(self.summary), self.id@), t),
    {
        let label = self.label();
        let t = self.timestamp_str();
        label_with_time(label.as_str(), t.as_str())
    }
}

impl Agent {
    /// The last activity as local time of day.
    pub fn timestamp_str(&self) -> String {
        clock_text(self.last_modified)
    }

    /// `name (HH:MM:SS)`.
    pub fn display_with_timestamp(&self) -> (r: String)
        ensures
            exists|t: Seq<char>| r@ == with_time(self.display_name@, t),
    {
        let t = self.timestamp_str();
        label_with_time(self.display_name.as_str(), t.as_str())
    }
}

/// Relies on dirs::home_dir: the current user's home directory, read from
/// the environment; `None` when it cannot be found.
#[verifier::external_body]
pub(crate) fn home_dir() -> (r: Option<String>) {
    dirs::home_dir().map(|h| h.to_string_lossy().to_string())
}

impl Project {
    /// The last activity as local time of day.
    pub fn timestamp_str(&self) -> String {
        clock_text(self.last_modified)
    }

    /// The original path shortened for display, relative to the home
    /// directory that the environment names (none: no home prefix).
    pub fn abbreviated_path(&self) -> (r: String)
        ensures
            exists|home: Seq<char>| r@ == abbreviated_project_path(self.original_path@, home),
    {
        let home = match home_dir() {
            Some(h) => h,
            None => String::new(),
        };
        abbreviate_project_path(self.original_path.as_str(), home.as_str())
    }

    /// `abbreviated path (HH:MM:SS)`.
    pub fn display_name_with_timestamp(&self) -> (r: String)
        ensures
            exists|home: Seq<char>, t: Seq<char>| r@ == with_time(abbreviated_project_path(self.original_path@, home), t),
    {
        let p = self.abbreviated_path();
        let t = self.timestamp_str();
        label_with_time(p.as_str(), t.as_str())
    }
}

} // verus!
