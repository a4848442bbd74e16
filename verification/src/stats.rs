//! Reading a container's cgroup files: the counters in `memory.current`,
//! `memory.max` and `pids.current`, and the CPU time in `cpu.stat`.
use vstd::prelude::*;
use crate::text::{parse_u64, parse_u64_spec, str_equal};

verus! {

/// Why a cgroup file could not be read.
#[derive(Debug, PartialEq, Eq, Structural, Clone, Copy)]
pub enum StatsError {
    /// The field is not an unsigned 64-bit integer.
    InvalidNumber,
}

/// Unicode white space (the `White_Space` property, as `char::is_whitespace` tests it).
pub open spec fn is_whitespace(c: char) -> bool {
    ('\u{9}' <= c && c <= '\u{d}') || c == ' ' || c == '\u{85}' || c == '\u{a0}' || c == '\u{1680}'
        || ('\u{2000}' <= c && c <= '\u{200a}') || c == '\u{2028}' || c == '\u{2029}' || c
        == '\u{202f}' || c == '\u{205f}' || c == '\u{3000}'
}

/// Whether `c` is white space.
pub fn is_whitespace_char(c: char) -> (r: bool)
    ensures
        r == is_whitespace(c),
{
    ('\u{9}' <= c && c <= '\u{d}') || c == ' ' || c == '\u{85}' || c == '\u{a0}' || c == '\u{1680}'
        || ('\u{2000}' <= c && c <= '\u{200a}') || c == '\u{2028}' || c == '\u{2029}' || c
        == '\u{202f}' || c == '\u{205f}' || c == '\u{3000}'
}

/// `s` without its leading white space.
pub open spec fn trim_start_spec(s: Seq<char>) -> Seq<char>
    decreases s.len(),
{
    if s.len() > 0 && is_whitespace(s[0]) {
        trim_start_spec(s.drop_first())
    } else {
        s
    }
}

/// `s` without its trailing white space.
pub open spec fn trim_end_spec(s: Seq<char>) -> Seq<char>
    decreases s.len(),
{
    if s.len() > 0 && is_whitespace(s.last()) {
        trim_end_spec(s.drop_last())
    } else {
        s
    }
}

/// `s` without leading and trailing white space, as `str::trim` gives it.
pub open spec fn trim_spec(s: Seq<char>) -> Seq<char> {
    trim_end_spec(trim_start_spec(s))
}

/// The position of the first non-blank character of `s` at or after `from`.
fn skip_whitespace(s: &str, n: usize, from: usize) -> (r: usize)
    requires
        n == s@.len(),
        from <= n,
    ensures
        from <= r <= n,
        trim_start_spec(s@.skip(from as int)) == s@.skip(r as int),
        r < n ==> !is_whitespace(s@[r as int]),
        forall|j: int| from <= j < r ==> is_whitespace(s@[j]),
{
    let mut i = from;
    while i < n && is_whitespace_char(s.get_char(i))
        invariant
            from <= i <= n,
            n == s@.len(),
            trim_start_spec(s@.skip(from as int)) == trim_start_spec(s@.skip(i as int)),
            forall|j: int| from <= j < i ==> is_whitespace(s@[j]),
        decreases n - i,
    {
        assert(s@.skip(i as int).drop_first() =~= s@.skip(i + 1));
        i = i + 1;
    }
    proof {
        if i < n {
            assert(s@.skip(i as int)[0] == s@[i as int]);
        } else {
            assert(s@.skip(i as int) =~= Seq::<char>::empty());
        }
    }
    i
}

/// `s` without leading and trailing white space.
pub fn trim(s: &str) -> (r: &str)
    ensures
        r@ == trim_spec(s@),
{
    let n = s.unicode_len();
    let i = skip_whitespace(s, n, 0);
    assert(s@.skip(0) =~= s@);
    let ghost t = s@.skip(i as int);
    let mut j = n;
    assert(t.take((j - i) as int) =~= t);
    while j > i && is_whitespace_char(s.get_char(j - 1))
        invariant
            i <= j <= n,
            n == s@.len(),
            t == s@.skip(i as int),
            trim_end_spec(t) == trim_end_spec(t.take((j - i) as int)),
        decreases j,
    {
        assert(t.take((j - i) as int).drop_last() =~= t.take((j - 1 - i) as int));
        assert(t.take((j - i) as int).last() == s@[j - 1]);
        j = j - 1;
    }
    proof {
        if j > i {
            assert(t.take((j - i) as int).last() == s@[j - 1]);
        } else {
            assert(t.take(0) =~= Seq::<char>::empty());
        }
    }
    let r = s.substring_char(i, j);
    assert(r@ =~= t.take((j - i) as int));
    r
}

/// A counter file (`memory.current`, `pids.current`): an unsigned integer, with white
/// space around it.
pub fn parse_counter(raw: &str) -> (r: Option<u64>)
    ensures
        r == parse_u64_spec(trim_spec(raw@)),
{
    parse_u64(trim(raw))
}

/// The value `memory.max` stands for: 0 for `max` (no limit), otherwise the byte count.
pub open spec fn memory_max_spec(raw: Seq<char>) -> Option<u64> {
    if trim_spec(raw) == "max"@ {
        Some(0)
    } else {
        parse_u64_spec(trim_spec(raw))
    }
}

/// The memory limit in the `memory.max` file: 0 for `max` (no limit).
pub fn parse_memory_max(raw: &str) -> (r: Option<u64>)
    ensures
        r == memory_max_spec(raw@),
{
    let t = trim(raw);
    if str_equal(t, "max") {
        Some(0)
    } else {
        parse_u64(t)
    }
}

/// The position of the first `\n` in `s`, or -1.
pub open spec fn newline_index(s: Seq<char>) -> int
    decreases s.len(),
{
    if s.len() == 0 {
        -1
    } else if s[0] == '\n' {
        0
    } else {
        let k = newline_index(s.drop_first());
        if k < 0 {
            -1
        } else {
            k + 1
        }
    }
}

/// The first `\n` of `s` is at `m`; or there is none and `m` is the length.
pub proof fn lemma_newline_index(s: Seq<char>, m: int)
    requires
        0 <= m <= s.len(),
        forall|j: int| 0 <= j < m ==> s[j] != '\n',
        m < s.len() ==> s[m] == '\n',
    ensures
        newline_index(s) == (if m < s.len() { m } else { -1 }),
    decreases s.len(),
{
    if s.len() > 0 && s[0] != '\n' {
        lemma_newline_index(s.drop_first(), m - 1);
    }
}

/// The newline position is -1 or inside `s`.
pub proof fn lemma_newline_index_bound(s: Seq<char>)
    ensures
        -1 <= newline_index(s) < s.len(),
    decreases s.len(),
{
    if s.len() > 0 && s[0] != '\n' {
        lemma_newline_index_bound(s.drop_first());
    }
}

/// A line without the `\r` of a `\r\n` ending.
pub open spec fn strip_cr(l: Seq<char>) -> Seq<char> {
    if l.len() > 0 && l.last() == '\r' {
        l.drop_last()
    } else {
        l
    }
}

/// The lines of `s`, as `str::lines` gives them: split at `\n`, each line without its
/// `\n` or `\r\n`; a final line ending adds no empty line.
pub open spec fn lines_spec(s: Seq<char>) -> Seq<Seq<char>>
    decreases s.len(),
{
    if s.len() == 0 {
        seq![]
    } else {
        let k = newline_index(s);
        if k < 0 {
            seq![s]
        } else {
            proof {
                lemma_newline_index_bound(s);
            }
            seq![strip_cr(s.take(k))] + lines_spec(s.skip(k + 1))
        }
    }
}

/// `s` begins with `p`.
pub open spec fn starts_with_spec(s: Seq<char>, p: Seq<char>) -> bool {
    p.len() <= s.len() && s.take(p.len() as int) == p
}

/// The first line that begins with `usage_usec`.
pub open spec fn usage_line(lines: Seq<Seq<char>>) -> Option<Seq<char>>
    decreases lines.len(),
{
    if lines.len() == 0 {
        None
    } else if starts_with_spec(lines[0], "usage_usec"@) {
        Some(lines[0])
    } else {
        usage_line(lines.drop_first())
    }
}

/// How many characters `s` begins with before the first white space.
pub open spec fn word_len(s: Seq<char>) -> nat
    decreases s.len(),
{
    if s.len() > 0 && !is_whitespace(s[0]) {
        1 + word_len(s.drop_first())
    } else {
        0
    }
}

/// The second white-space-separated field of a line (`split_whitespace().nth(1)`).
pub open spec fn second_field(line: Seq<char>) -> Option<Seq<char>> {
    let t1 = trim_start_spec(line);
    let rest = t1.skip(word_len(t1) as int);
    let t2 = trim_start_spec(rest);
    if t1.len() == 0 || t2.len() == 0 {
        None
    } else {
        Some(t2.take(word_len(t2) as int))
    }
}

/// The CPU time, in microseconds, that `cpu.stat` reports: the second field of its
/// first `usage_usec` line, 0 when there is no such line.
pub open spec fn cpu_usage_spec(content: Seq<char>) -> Result<u64, StatsError> {
    match usage_line(lines_spec(content)) {
        None => Ok(0),
        Some(l) => match parse_u64_spec(second_field(l)->Some_0) {
            Some(v) => Ok(v),
            None => Err(StatsError::InvalidNumber),
        },
    }
}

/// Whether `s` begins with `p`.
pub fn starts_with_str(s: &str, p: &str) -> (r: bool)
    ensures
        r == starts_with_spec(s@, p@),
{
    let n = s.unicode_len();
    let m = p.unicode_len();
    if m > n {
        return false;
    }
    let head = s.substring_char(0, m);
    assert(head@ =~= s@.take(m as int));
    str_equal(head, p)
}

/// The end of the word that starts at `from`.
fn word_end(s: &str, n: usize, from: usize) -> (r: usize)
    requires
        n == s@.len(),
        from <= n,
    ensures
        from <= r <= n,
        r - from == word_len(s@.skip(from as int)),
{
    let mut i = from;
    while i < n && !is_whitespace_char(s.get_char(i))
        invariant
            from <= i <= n,
            n == s@.len(),
            word_len(s@.skip(from as int)) == (i - from) + word_len(s@.skip(i as int)),
        decreases n - i,
    {
        assert(s@.skip(i as int).drop_first() =~= s@.skip(i + 1));
        i = i + 1;
    }
    proof {
        if i < n {
            assert(s@.skip(i as int)[0] == s@[i as int]);
        }
    }
    i
}

/// The second field of a line.
pub fn second_field_of(line: &str) -> (r: Option<&str>)
    ensures
        match r {
            Some(f) => second_field(line@) == Some(f@),
            None => second_field(line@) is None,
        },
{
    let n = line.unicode_len();
    let a = skip_whitespace(line, n, 0);
    assert(line@.skip(0) =~= line@);
    let ghost t1 = line@.skip(a as int);
    let b = word_end(line, n, a);
    assert(t1.skip(word_len(t1) as int) =~= line@.skip(b as int));
    let c = skip_whitespace(line, n, b);
    let ghost t2 = line@.skip(c as int);
    if a == n || c == n {
        return None;
    }
    let d = word_end(line, n, c);
    let f = line.substring_char(c, d);
    assert(f@ =~= t2.take(word_len(t2) as int));
    Some(f)
}

/// The first line of `content` that begins with `usage_usec`.
pub fn find_usage_line(content: &str) -> (r: Option<&str>)
    ensures
        match r {
            Some(l) => usage_line(lines_spec(content@)) == Some(l@),
            None => usage_line(lines_spec(content@)) is None,
        },
{
    let n = content.unicode_len();
    let mut i: usize = 0;
    assert(content@.skip(0) =~= content@);
    while i < n
        invariant
            i <= n,
            n == content@.len(),
            usage_line(lines_spec(content@)) == usage_line(lines_spec(content@.skip(i as int))),
        decreases n - i,
    {
        let ghost t = content@.skip(i as int);
        let mut k = i;
        while k < n && content.get_char(k) != '\n'
            invariant
                i <= k <= n,
                n == content@.len(),
                forall|j: int| i <= j < k ==> content@[j] != '\n',
            decreases n - k,
        {
            k = k + 1;
        }
        proof {
            lemma_newline_index(t, (k - i) as int);
        }
        let raw = content.substring_char(i, k);
        assert(raw@ =~= t.take((k - i) as int));
        let line = if k < n && k > i && content.get_char(k - 1) == '\r' {
            content.substring_char(i, k - 1)
        } else {
            raw
        };
        let ghost rest = if k < n { content@.skip(k + 1) } else { Seq::<char>::empty() };
        proof {
            assert(t.len() > 0);
            if k < n {
                assert(line@ =~= strip_cr(t.take((k - i) as int)));
                assert(t.skip((k - i) + 1) =~= content@.skip(k + 1));
                assert(lines_spec(t) == seq![line@] + lines_spec(rest));
            } else {
                assert(t.take((k - i) as int) =~= t);
                assert(lines_spec(t) == seq![line@]);
                assert(lines_spec(rest) =~= Seq::<Seq<char>>::empty());
                assert(seq![line@] + lines_spec(rest) =~= seq![line@]);
            }
            let ls = seq![line@] + lines_spec(rest);
            assert(ls[0] == line@);
            assert(ls.drop_first() =~= lines_spec(rest));
            assert(usage_line(lines_spec(t)) == if starts_with_spec(line@, "usage_usec"@) {
                Some(line@)
            } else {
                usage_line(lines_spec(rest))
            });
        }
        if starts_with_str(line, "usage_usec") {
            return Some(line);
        }
        if k < n {
            i = k + 1;
        } else {
            i = n;
            assert(content@.skip(n as int) =~= rest);
        }
    }
    assert(content@.skip(n as int) =~= Seq::<char>::empty());
    None
}

/// The CPU time in `cpu.stat`, in microseconds: the second field of the first
/// `usage_usec` line, or 0 when there is none. The line must have a second field.
pub fn cpu_usage_usec(content: &str) -> (r: Result<u64, StatsError>)
    requires
        usage_line(lines_spec(content@)) matches Some(l) ==> second_field(l) is Some,
    ensures
        r == cpu_usage_spec(content@),
{
    match find_usage_line(content) {
        None => Ok(0),
        Some(line) => match second_field_of(line) {
            Some(f) => match parse_u64(f) {
                Some(v) => Ok(v),
                None => Err(StatsError::InvalidNumber),
            },
            None => Ok(0),
        },
    }
}

/// `cpu_usage_usec` where the `usage_usec` line has a second field; `None` where it
/// has none (there `cpu_usage_usec` is not defined).
pub fn cpu_usage_checked(content: &str) -> (r: Option<Result<u64, StatsError>>)
    ensures
        r is None <==> (usage_line(lines_spec(content@)) matches Some(l) && second_field(l) is None),
        r matches Some(x) ==> x == cpu_usage_spec(content@),
{
    match find_usage_line(content) {
        Some(line) => {
            if second_field_of(line).is_none() {
                return None;
            }
        },
        None => {},
    }
    Some(cpu_usage_usec(content))
}

/// What the usage display does after trying to read a container's usage.
#[derive(Debug, PartialEq, Eq, Structural, Clone, Copy)]
pub enum StatsStep {
    /// Show the usage; read again after a pause when `again`, otherwise finish.
    Show { again: bool },
    /// The container has gone: say so and finish successfully.
    Stopped,
    /// Finish with the read error.
    Fail,
}

/// The display's next move: a successful read is shown (and repeated when streaming);
/// a failed read ends a stream quietly (the container stopped) and is an error otherwise.
pub open spec fn stats_step_spec(stream: bool, sampled: bool) -> StatsStep {
    if sampled {
        StatsStep::Show { again: stream }
    } else if stream {
        StatsStep::Stopped
    } else {
        StatsStep::Fail
    }
}

/// The display's next move after a read that succeeded (`sampled`) or failed.
pub fn stats_step(stream: bool, sampled: bool) -> (r: StatsStep)
    ensures
        r == stats_step_spec(stream, sampled),
{
    if sampled {
        StatsStep::Show { again: stream }
    } else if stream {
        StatsStep::Stopped
    } else {
        StatsStep::Fail
    }
}

} // verus!
