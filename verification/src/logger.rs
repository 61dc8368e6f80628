//! The log buffer the web UI reads: the latest lines of the log, without
//! their terminal colour codes.
use std::collections::VecDeque;
use vstd::prelude::*;
use crate::text::{chars_of, string_of};

verus! {

/// The most lines the buffer keeps.
pub const MAX_LOG_LINES: usize = 500;

/// The latest log lines, oldest first.
pub struct LogBuffer {
    lines: VecDeque<String>,
}

/// The plain views of log lines.
pub open spec fn line_views(s: Seq<String>) -> Seq<Seq<char>> {
    s.map_values(|l: String| l@)
}

impl View for LogBuffer {
    type V = Seq<Seq<char>>;

    closed spec fn view(&self) -> Seq<Seq<char>> {
        line_views(self.lines@)
    }
}

/// The buffer after `line` is appended: when it is full, the oldest line
/// goes.
pub open spec fn pushed(lines: Seq<Seq<char>>, line: Seq<char>) -> Seq<Seq<char>> {
    if lines.len() >= MAX_LOG_LINES {
        lines.drop_first().push(line)
    } else {
        lines.push(line)
    }
}

impl LogBuffer {
    /// The buffer never holds more than `MAX_LOG_LINES` lines.
    #[verifier::type_invariant]
    spec fn inv(&self) -> bool {
        self.lines@.len() <= MAX_LOG_LINES
    }

    /// The number of lines held, which never exceeds `MAX_LOG_LINES`.
    pub fn len(&self) -> (n: usize)
        ensures
            n == self@.len(),
            n <= MAX_LOG_LINES,
    {
        proof {
            use_type_invariant(self);
        }
        self.lines.len()
    }

    /// An empty buffer.
    pub fn new() -> (b: LogBuffer)
        ensures
            b@ == Seq::<Seq<char>>::empty(),
    {
        let b = LogBuffer { lines: VecDeque::new() };
        assert(b@ =~= Seq::<Seq<char>>::empty());
        b
    }

    /// Appends a line, dropping the oldest when the buffer is full.
    pub fn push_line(&mut self, line: String)
        ensures
            final(self)@ == pushed(old(self)@, line@),
    {
        proof {
            use_type_invariant(&*self);
        }
        let ghost before = self.lines@;
        let ghost lv = line@;
        let mut lines = VecDeque::new();
        std::mem::swap(&mut lines, &mut self.lines);
        if lines.len() >= MAX_LOG_LINES {
            lines.pop_front();
            assert(line_views(lines@) =~= line_views(before).drop_first());
        }
        lines.push_back(line);
        assert(line_views(lines@) =~= pushed(line_views(before), lv));
        self.lines = lines;
    }

    /// A copy of the lines, oldest first.
    pub fn lines(&self) -> (r: Vec<String>)
        ensures
            line_views(r@) == self@,
    {
        let mut out: Vec<String> = Vec::new();
        let mut i: usize = 0;
        while i < self.lines.len()
            invariant
                i <= self.lines@.len(),
                line_views(out@) == line_views(self.lines@).take(i as int),
            decreases self.lines.len() - i,
        {
            let ghost before = out@;
            let l = self.lines[i].clone();
            assert(l@ == self.lines@[i as int]@);
            out.push(l);
            assert(line_views(out@) =~= line_views(before).push(l@));
            assert(line_views(self.lines@).take(i + 1) =~= line_views(self.lines@).take(i as int).push(
                l@,
            ));
            i = i + 1;
        }
        assert(line_views(self.lines@).take(i as int) =~= line_views(self.lines@));
        out
    }
}

/// Appends a line to the buffer, dropping the oldest when it is full.
pub fn push_log(buffer: &mut LogBuffer, line: String)
    ensures
        final(buffer)@ == pushed(old(buffer)@, line@),
{
    buffer.push_line(line);
}

/// A copy of the buffer's lines, oldest first.
pub fn get_logs(buffer: &LogBuffer) -> (r: Vec<String>)
    ensures
        line_views(r@) == buffer@,
{
    buffer.lines()
}

/// The text with its escape sequences (from `ESC` through the next `m`)
/// removed; `in_escape` says whether one is open at the start.
pub open spec fn strip_from(s: Seq<char>, in_escape: bool) -> Seq<char>
    decreases s.len(),
{
    if s.len() == 0 {
        Seq::empty()
    } else if in_escape {
        strip_from(s.skip(1), s[0] != 'm')
    } else if s[0] == '\x1b' {
        strip_from(s.skip(1), true)
    } else {
        seq![s[0]] + strip_from(s.skip(1), false)
    }
}

/// Removes the terminal colour codes (`ESC[...m`) from a line.
pub fn strip_ansi(s: &str) -> (r: String)
    ensures
        r@ == strip_from(s@, false),
{
    let cs = chars_of(s);
    let mut out: Vec<char> = Vec::new();
    let mut in_escape = false;
    let mut i: usize = 0;
    assert(cs@.skip(0) =~= cs@);
    while i < cs.len()
        invariant
            i <= cs@.len(),
            out@ + strip_from(cs@.skip(i as int), in_escape) == strip_from(cs@, false),
        decreases cs.len() - i,
    {
        let c = cs[i];
        let ghost rest = cs@.skip(i as int);
        assert(rest.skip(1) =~= cs@.skip(i + 1));
        if in_escape {
            if c == 'm' {
                in_escape = false;
            }
        } else if c == '\x1b' {
            in_escape = true;
        } else {
            let ghost before = out@;
            out.push(c);
            assert(before + (seq![c] + strip_from(rest.skip(1), false)) =~= out@ + strip_from(
                cs@.skip(i + 1),
                false,
            ));
        }
        i = i + 1;
    }
    assert(out@ + strip_from(cs@.skip(i as int), in_escape) =~= out@);
    string_of(out.as_slice())
}

/// The lines after the first `after` (all of them when `after` is absent),
/// and the total count.
pub fn logs_after(all: Vec<String>, after: Option<usize>) -> (r: (Vec<String>, usize))
    ensures
        r.1 == all@.len(),
        line_views(r.0@) == match after {
            Some(a) => if a < all@.len() {
                line_views(all@).skip(a as int)
            } else {
                Seq::empty()
            },
            None => line_views(all@),
        },
{
    let total = all.len();
    let start = match after {
        Some(a) => a,
        None => 0,
    };
    if start < total {
        let mut all = all;
        let ghost full = all@;
        let tail = all.split_off(start);
        assert(line_views(tail@) =~= line_views(full).skip(start as int));
        (tail, total)
    } else {
        (Vec::new(), total)
    }
}

/// Keeping at most `MAX_LOG_LINES`, the buffer always ends with the line
/// last pushed, after the lines that were there.
pub proof fn law_push_keeps_latest(lines: Seq<Seq<char>>, line: Seq<char>)
    requires
        lines.len() <= MAX_LOG_LINES,
    ensures
        pushed(lines, line).len() <= MAX_LOG_LINES,
        pushed(lines, line).last() == line,
        pushed(lines, line).drop_last() == if lines.len() == MAX_LOG_LINES {
            lines.drop_first()
        } else {
            lines
        },
{
    assert(pushed(lines, line).drop_last() =~= if lines.len() == MAX_LOG_LINES {
        lines.drop_first()
    } else {
        lines
    });
}

/// A line without escape characters is kept as it is.
pub proof fn law_strip_plain_text(s: Seq<char>)
    requires
        forall|i: int| 0 <= i < s.len() ==> s[i] != '\x1b',
    ensures
        strip_from(s, false) == s,
    decreases s.len(),
{
    if s.len() > 0 {
        law_strip_plain_text(s.skip(1));
        assert(seq![s[0]] + s.skip(1) =~= s);
    }
}

} // verus!
