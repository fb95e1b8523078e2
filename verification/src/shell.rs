//! Text decisions behind the shell commands: substring search for `grep`,
//! whitespace trimming, decimal parsing and the `psend` argument check, and
//! the line-assembly automaton that `grep` runs over its input stream.
//! Reading keys and printing stay with the embedding program; everything
//! here is a function from plain values to plain values.

use vstd::prelude::*;

verus! {

/// The ASCII whitespace this module trims: space, tab, line feed, carriage
/// return.
pub open spec fn spec_is_space(b: u8) -> bool {
    b == 32 || b == 9 || b == 10 || b == 13
}

/// `pattern` occurs in `line` starting at `i`.
pub open spec fn spec_match_at(line: Seq<u8>, pattern: Seq<u8>, i: int) -> bool {
    0 <= i && i + pattern.len() <= line.len() && line.subrange(i, i + pattern.len()) == pattern
}

/// `pattern` occurs somewhere in `line`.
pub open spec fn spec_contains(line: Seq<u8>, pattern: Seq<u8>) -> bool {
    exists|i: int| spec_match_at(line, pattern, i)
}

/// Decides whether `pattern` occurs in `line` (the empty pattern occurs
/// everywhere).
pub fn line_contains(line: &[u8], pattern: &[u8]) -> (r: bool)
    ensures
        r == spec_contains(line@, pattern@),
{
    let n: usize = line.len();
    let m: usize = pattern.len();
    if m > n {
        proof {
            assert(forall|i: int| !spec_match_at(line@, pattern@, i));
        }
        return false;
    }
    let mut i: usize = 0;
    while i <= n - m
        invariant
            m <= n,
            n == line@.len(),
            m == pattern@.len(),
            i <= n - m + 1,
            forall|k: int| 0 <= k < i ==> !spec_match_at(line@, pattern@, k),
        decreases n - m + 1 - i,
    {
        let mut j: usize = 0;
        let mut ok: bool = true;
        while j < m && ok
            invariant
                m <= n,
                n == line@.len(),
                m == pattern@.len(),
                i <= n - m,
                j <= m,
                ok ==> forall|t: int| 0 <= t < j ==> line@[i + t] == pattern@[t],
                !ok ==> !spec_match_at(line@, pattern@, i as int),
            decreases m - j + (if ok {
                1int
            } else {
                0int
            }),
        {
            if line[i + j] != pattern[j] {
                proof {
                    assert(line@.subrange(i as int, i + m)[j as int] == line@[i + j]);
                }
                ok = false;
            } else {
                j = j + 1;
            }
        }
        if ok {
            proof {
                assert(line@.subrange(i as int, i + m) =~= pattern@);
                assert(spec_match_at(line@, pattern@, i as int));
            }
            return true;
        }
        proof {
            assert(m > 0) by {
                if m == 0 {
                    assert(line@.subrange(i as int, i as int) =~= pattern@);
                }
            }
        }
        i = i + 1;
    }
    proof {
        assert forall|k: int| !spec_match_at(line@, pattern@, k) by {
            if 0 <= k && k + pattern@.len() <= line@.len() {
                assert(k < i);
            }
        }
    }
    false
}

/// Index of the first byte that is not whitespace (the length if there is
/// none).
pub open spec fn spec_trim_start(s: Seq<u8>) -> int
    decreases s.len(),
{
    if s.len() == 0 {
        0
    } else if spec_is_space(s[0]) {
        1 + spec_trim_start(s.skip(1))
    } else {
        0
    }
}

/// Index one past the last byte that is not whitespace (0 if there is
/// none).
pub open spec fn spec_trim_end(s: Seq<u8>) -> int
    decreases s.len(),
{
    if s.len() == 0 {
        0
    } else if spec_is_space(s[s.len() - 1]) {
        spec_trim_end(s.take(s.len() - 1))
    } else {
        s.len() as int
    }
}

/// `s` with leading and trailing whitespace removed.
pub open spec fn spec_trim(s: Seq<u8>) -> Seq<u8> {
    if spec_trim_start(s) == s.len() {
        Seq::empty()
    } else {
        s.subrange(spec_trim_start(s), spec_trim_end(s))
    }
}

/// `spec_trim_start` is the unique index with only whitespace before it and
/// none at it.
proof fn lemma_trim_start_props(s: Seq<u8>)
    ensures
        0 <= spec_trim_start(s) <= s.len(),
        forall|j: int| 0 <= j < spec_trim_start(s) ==> spec_is_space(s[j]),
        spec_trim_start(s) < s.len() ==> !spec_is_space(s[spec_trim_start(s)]),
    decreases s.len(),
{
    if s.len() == 0 {
    } else if spec_is_space(s[0]) {
        lemma_trim_start_props(s.skip(1));
        assert forall|j: int| 0 <= j < spec_trim_start(s) implies spec_is_space(s[j]) by {
            if j >= 1 {
                assert(s.skip(1)[j - 1] == s[j]);
                assert(spec_is_space(s.skip(1)[j - 1]));
            }
        }
    } else {
    }
}

/// `spec_trim_end` is the unique index with only whitespace from it on and
/// none just before it.
proof fn lemma_trim_end_props(s: Seq<u8>)
    ensures
        0 <= spec_trim_end(s) <= s.len(),
        forall|j: int| spec_trim_end(s) <= j < s.len() ==> spec_is_space(s[j]),
        spec_trim_end(s) > 0 ==> !spec_is_space(s[spec_trim_end(s) - 1]),
    decreases s.len(),
{
    if s.len() == 0 {
    } else if spec_is_space(s[s.len() - 1]) {
        lemma_trim_end_props(s.take(s.len() - 1));
        assert(forall|j: int|
            0 <= j < s.len() - 1 ==> s.take(s.len() - 1)[j] == s[j]);
    } else {
    }
}

/// Copies `s` without its leading and trailing whitespace.
pub fn trim(s: &[u8]) -> (r: Vec<u8>)
    ensures
        r@ == spec_trim(s@),
{
    proof {
        lemma_trim_start_props(s@);
        lemma_trim_end_props(s@);
    }
    let n: usize = s.len();
    let mut start: usize = 0;
    while start < n && (s[start] == 32 || s[start] == 9 || s[start] == 10 || s[start] == 13)
        invariant
            start <= n,
            n == s@.len(),
            forall|j: int| 0 <= j < start ==> spec_is_space(s@[j]),
        decreases n - start,
    {
        start = start + 1;
    }
    proof {
        assert(start == spec_trim_start(s@)) by {
            if start < spec_trim_start(s@) {
                assert(spec_is_space(s@[start as int]));
            }
            if start > spec_trim_start(s@) {
                assert(spec_is_space(s@[spec_trim_start(s@)]));
            }
        }
    }
    if start == n {
        let r: Vec<u8> = Vec::new();
        proof {
            assert(r@ =~= spec_trim(s@));
        }
        return r;
    }
    let mut end: usize = n;
    while end > start && (s[end - 1] == 32 || s[end - 1] == 9 || s[end - 1] == 10 || s[end - 1]
        == 13)
        invariant
            start <= end <= n,
            n == s@.len(),
            forall|j: int| end <= j < n ==> spec_is_space(s@[j]),
        decreases end,
    {
        end = end - 1;
    }
    proof {
        assert(!spec_is_space(s@[start as int]));
        assert(end > start);
        assert(end == spec_trim_end(s@)) by {
            if end < spec_trim_end(s@) {
                assert(spec_is_space(s@[spec_trim_end(s@) - 1]));
            }
            if end > spec_trim_end(s@) {
                assert(spec_is_space(s@[end - 1]));
            }
        }
    }
    let mut r: Vec<u8> = Vec::new();
    let mut i: usize = start;
    while i < end
        invariant
            start <= i <= end <= n,
            n == s@.len(),
            r@.len() == i - start,
            forall|j: int| 0 <= j < r@.len() ==> r@[j] == s@[start + j],
        decreases end - i,
    {
        r.push(s[i]);
        i = i + 1;
    }
    proof {
        assert(r@ =~= s@.subrange(start as int, end as int));
    }
    r
}


/// The numeric value of a digit string, by place value.
pub open spec fn spec_digits_value(s: Seq<u8>) -> int
    decreases s.len(),
{
    if s.len() == 0 {
        0
    } else {
        spec_digits_value(s.take(s.len() - 1)) * 10 + (s[s.len() - 1] - 48)
    }
}

/// Every byte is an ASCII digit.
pub open spec fn spec_all_digits(s: Seq<u8>) -> bool {
    forall|i: int| 0 <= i < s.len() ==> 48 <= #[trigger] s[i] <= 57
}

/// The digits of a decimal number: everything after an optional leading
/// plus sign.
pub open spec fn spec_number_body(s: Seq<u8>) -> Seq<u8> {
    if s.len() > 0 && s[0] == 43 {
        s.skip(1)
    } else {
        s
    }
}

/// `s` parses as a `usize`: an optional plus sign, then at least one
/// digit, and the value fits.
pub open spec fn spec_parse_usize_ok(s: Seq<u8>) -> bool {
    &&& spec_number_body(s).len() > 0
    &&& spec_all_digits(spec_number_body(s))
    &&& spec_digits_value(spec_number_body(s)) <= usize::MAX
}

/// Appending one digit multiplies the value by ten and adds the digit.
proof fn lemma_digits_value_step(s: Seq<u8>, i: int)
    requires
        0 <= i < s.len(),
    ensures
        spec_digits_value(s.take(i + 1)) == spec_digits_value(s.take(i)) * 10 + (s[i] - 48),
{
    assert(s.take(i + 1).take(i) =~= s.take(i));
    assert(s.take(i + 1)[i] == s[i]);
}

/// A digit string's value is nonnegative.
proof fn lemma_digits_value_nonneg(s: Seq<u8>)
    requires
        spec_all_digits(s),
    ensures
        spec_digits_value(s) >= 0,
    decreases s.len(),
{
    if s.len() > 0 {
        assert(spec_all_digits(s.take(s.len() - 1)));
        lemma_digits_value_nonneg(s.take(s.len() - 1));
    }
}

/// A digit string is worth at least any of its prefixes.
proof fn lemma_digits_value_prefix_le(s: Seq<u8>, i: int)
    requires
        spec_all_digits(s),
        0 <= i <= s.len(),
    ensures
        spec_digits_value(s.take(i)) <= spec_digits_value(s),
    decreases s.len() - i,
{
    if i == s.len() {
        assert(s.take(i) =~= s);
    } else {
        lemma_digits_value_step(s, i);
        assert(spec_all_digits(s.take(i)));
        lemma_digits_value_nonneg(s.take(i));
        lemma_digits_value_prefix_le(s, i + 1);
    }
}

/// Parses a decimal `usize`: an optional plus sign, then digits.  Returns
/// the value exactly when `spec_parse_usize_ok` holds of the input, and
/// nothing on an empty digit part, a non-digit, or a value too large.
pub fn parse_usize(s: &[u8]) -> (r: Option<usize>)
    ensures
        spec_parse_usize_ok(s@) ==> r == Some(
            spec_digits_value(spec_number_body(s@)) as usize,
        ),
        !spec_parse_usize_ok(s@) ==> r == None::<usize>,
{
    let n: usize = s.len();
    let mut idx: usize = 0;
    if n > 0 && s[0] == 43 {
        idx = 1;
    }
    proof {
        assert(spec_number_body(s@) =~= s@.skip(idx as int));
    }
    if idx == n {
        return None;
    }
    let ghost body = spec_number_body(s@);
    let mut val: usize = 0;
    let mut i: usize = idx;
    while i < n
        invariant
            idx <= i <= n,
            n == s@.len(),
            body == spec_number_body(s@),
            body =~= s@.skip(idx as int),
            spec_all_digits(body.take(i - idx)),
            val == spec_digits_value(body.take(i - idx)),
        decreases n - i,
    {
        let c = s[i];
        if c < 48 || c > 57 {
            proof {
                assert(body[i - idx] == s@[i as int]);
                assert(!spec_all_digits(body));
            }
            return None;
        }
        let d: usize = (c - 48) as usize;
        proof {
            lemma_digits_value_step(body, i - idx);
            assert(body[i - idx] == s@[i as int]);
        }
        if val > (usize::MAX - d) / 10 {
            proof {
                assert((usize::MAX - d) / 10 * 10 + (usize::MAX - d) % 10 == usize::MAX - d);
                assert(val * 10 + d > usize::MAX) by {
                    assert(val >= (usize::MAX - d) / 10 + 1);
                    assert(val * 10 >= ((usize::MAX - d) / 10 + 1) * 10) by (nonlinear_arith)
                        requires
                            val >= (usize::MAX - d) / 10 + 1,
                    ;
                }
                assert(spec_digits_value(body.take(i - idx + 1)) > usize::MAX);
                if spec_all_digits(body) {
                    lemma_digits_value_prefix_le(body, i - idx + 1);
                }
                assert(!spec_parse_usize_ok(s@));
            }
            return None;
        }
        proof {
            assert(val * 10 + d <= usize::MAX) by {
                assert(val <= (usize::MAX - d) / 10);
                assert(val * 10 <= (usize::MAX - d) / 10 * 10) by (nonlinear_arith)
                    requires
                        val <= (usize::MAX - d) / 10,
                ;
                assert((usize::MAX - d) / 10 * 10 <= usize::MAX - d);
            }
            assert(spec_all_digits(body.take(i - idx + 1)));
        }
        val = val * 10 + d;
        i = i + 1;
    }
    proof {
        assert(body.take(n - idx) =~= body);
        lemma_digits_value_nonneg(body);
    }
    Some(val)
}

/// What the `psend` command decides to do with its argument.
#[derive(Debug, Clone, Copy, PartialEq, Eq, Structural)]
pub enum PsendAction {
    /// The argument is not a decimal number.
    InvalidFormat,
    /// The argument names PID 0, which may not be terminated.
    ZeroPid,
    /// Terminate the process with this PID.
    Terminate(usize),
}

/// The `psend` decision on an argument string: trim it, parse it as a
/// decimal PID, and refuse PID 0.
pub open spec fn spec_psend_decision(s: Seq<u8>) -> PsendAction {
    let t = spec_trim(s);
    if !spec_parse_usize_ok(t) {
        PsendAction::InvalidFormat
    } else if spec_digits_value(spec_number_body(t)) == 0 {
        PsendAction::ZeroPid
    } else {
        PsendAction::Terminate(spec_digits_value(spec_number_body(t)) as usize)
    }
}

/// Decides what `psend` does with its argument; actually finding and
/// terminating the process stays with the embedding program.
pub fn psend_decision(pid_str: &[u8]) -> (r: PsendAction)
    ensures
        r == spec_psend_decision(pid_str@),
{
    let t = trim(pid_str);
    proof {
        if spec_parse_usize_ok(spec_trim(pid_str@)) {
            lemma_digits_value_nonneg(spec_number_body(spec_trim(pid_str@)));
        }
    }
    match parse_usize(t.as_slice()) {
        Option::None => PsendAction::InvalidFormat,
        Option::Some(pid) => {
            if pid == 0 {
                PsendAction::ZeroPid
            } else {
                PsendAction::Terminate(pid)
            }
        },
    }
}


/// Longest line `grep` keeps; bytes past this are echoed but not stored.
pub const GREP_LINE_MAX: usize = 1023;

/// What one input byte made the `grep` line automaton do.
#[derive(Debug)]
pub enum GrepEvent {
    /// An ordinary byte was stored; echo it.
    Buffered,
    /// An ordinary byte arrived with the line full; echo it, nothing
    /// stored.
    Discarded,
    /// A line ended: its bytes, and whether they contain the pattern (print
    /// the line exactly when they do); echo the line break.
    Line(Vec<u8>, bool),
    /// A line break arrived with nothing buffered; echo it.
    EmptyLine,
    /// The interrupt byte arrived; stop reading.
    Interrupt,
}

/// The `grep` line automaton: assembles input bytes into lines and decides,
/// at each line break, whether the finished line contains the pattern.
pub struct GrepState {
    line: Vec<u8>,
}

impl GrepState {
    /// The bytes buffered for the current, unfinished line.
    pub closed spec fn spec_line(&self) -> Seq<u8> {
        self.line@
    }

    /// The automaton's invariant: the buffered line never exceeds the cap.
    pub open spec fn wf(&self) -> bool {
        self.spec_line().len() <= GREP_LINE_MAX
    }

    /// A fresh automaton with nothing buffered.
    pub fn new() -> (r: GrepState)
        ensures
            r.wf(),
            r.spec_line() == Seq::<u8>::empty(),
    {
        let r = GrepState { line: Vec::new() };
        proof {
            assert(r.spec_line() =~= Seq::<u8>::empty());
        }
        r
    }

    /// Hands the buffered line out and clears the buffer.
    fn take_line(&mut self) -> (r: Vec<u8>)
        ensures
            r@ == old(self).spec_line(),
            final(self).spec_line() == Seq::<u8>::empty(),
    {
        let mut done: Vec<u8> = Vec::new();
        let n: usize = self.line.len();
        let mut i: usize = 0;
        while i < n
            invariant
                i <= n,
                n == self.line@.len(),
                done@ == self.line@.take(i as int),
                self.line@ == old(self).line@,
            decreases n - i,
        {
            let b = self.line[i];
            done.push(b);
            proof {
                assert(done@ =~= self.line@.take(i + 1));
            }
            i = i + 1;
        }
        self.line.clear();
        proof {
            assert(done@ =~= old(self).spec_line());
            assert(self.spec_line() =~= Seq::<u8>::empty());
        }
        done
    }

    /// Consumes one input byte.  A carriage return or line feed finishes
    /// the line and reports whether it contains `pattern`; the interrupt
    /// byte (Ctrl-C) stops the run; any other byte is stored while the line
    /// is below the cap.
    pub fn feed(&mut self, byte: u8, pattern: &[u8]) -> (r: GrepEvent)
        requires
            old(self).wf(),
        ensures
            final(self).wf(),
            (byte == 10 || byte == 13) && old(self).spec_line().len() > 0 ==> (match r {
                GrepEvent::Line(l, m) => l@ == old(self).spec_line() && m == spec_contains(
                    old(self).spec_line(),
                    pattern@,
                ) && final(self).spec_line().len() == 0,
                _ => false,
            }),
            (byte == 10 || byte == 13) && old(self).spec_line().len() == 0 ==> (r matches
            GrepEvent::EmptyLine) && final(self).spec_line() == old(self).spec_line(),
            byte == 3 ==> (r matches GrepEvent::Interrupt) && final(self).spec_line()
                == old(self).spec_line(),
            !(byte == 10 || byte == 13 || byte == 3) && old(self).spec_line().len()
                < GREP_LINE_MAX ==> (r matches GrepEvent::Buffered) && final(self).spec_line()
                == old(self).spec_line().push(byte),
            !(byte == 10 || byte == 13 || byte == 3) && old(self).spec_line().len()
                >= GREP_LINE_MAX ==> (r matches GrepEvent::Discarded) && final(self).spec_line()
                == old(self).spec_line(),
    {
        if byte == 13 || byte == 10 {
            if self.line.len() > 0 {
                let matched = line_contains(self.line.as_slice(), pattern);
                let done = self.take_line();
                GrepEvent::Line(done, matched)
            } else {
                GrepEvent::EmptyLine
            }
        } else if byte == 3 {
            GrepEvent::Interrupt
        } else if self.line.len() < GREP_LINE_MAX {
            self.line.push(byte);
            GrepEvent::Buffered
        } else {
            GrepEvent::Discarded
        }
    }

    /// Finishes the run: hands out a still-buffered last line, with its
    /// match verdict, or nothing when the buffer is empty.
    pub fn flush(&mut self, pattern: &[u8]) -> (r: Option<(Vec<u8>, bool)>)
        requires
            old(self).wf(),
        ensures
            final(self).wf(),
            old(self).spec_line().len() == 0 ==> r == None::<(Vec<u8>, bool)>
                && final(self).spec_line() == old(self).spec_line(),
            old(self).spec_line().len() > 0 ==> (match r {
                Option::Some(p) => p.0@ == old(self).spec_line() && p.1 == spec_contains(
                    old(self).spec_line(),
                    pattern@,
                ) && final(self).spec_line().len() == 0,
                Option::None => false,
            }),
    {
        if self.line.len() > 0 {
            let matched = line_contains(self.line.as_slice(), pattern);
            let done = self.take_line();
            Some((done, matched))
        } else {
            None
        }
    }
}

} // verus!
