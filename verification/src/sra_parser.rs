//! The stateful line parser: consumes the worker's console output one line
//! at a time and produces structured log records.
//!
//! A line is *structured* when, after trimming, it has the shape
//! `HH:MM:SS[pid] | LEVEL | message` with ASCII digits and one of the six
//! level tokens; every other non-empty line is *untagged*. Untagged lines
//! accumulate and are emitted as one freeform `MSG` record at the next
//! boundary; an `ERROR`-tagged line opens a multi-line error block that runs
//! until a line containing `"Error:"` or `"Exception:"` closes it.

use vstd::prelude::*;
use crate::logger::LogLevel;
use crate::text::{
    chars_of, contains_chars, copy_range, has_substring, join_lines, join_strings, skip_spaces,
    skip_spaces_from, string_of_range, trim_bounds, trimmed,
};
use crate::clock::now_hms;

verus! {

/// ASCII decimal digits, as the line grammar reads them.
pub open spec fn is_digit(c: char) -> bool {
    '0' <= c && c <= '9'
}

pub fn is_digit_char(c: char) -> (r: bool)
    ensures
        r == is_digit(c),
{
    '0' <= c && c <= '9'
}

/// The first index at or after `i` holding a non-digit character.
pub open spec fn skip_digits(s: Seq<char>, i: int) -> int
    decreases s.len() - i,
    when 0 <= i <= s.len()
{
    if i < s.len() && is_digit(s[i]) {
        skip_digits(s, i + 1)
    } else {
        i
    }
}

fn skip_digits_from(v: &Vec<char>, from: usize) -> (r: usize)
    requires
        from <= v@.len(),
    ensures
        r == skip_digits(v@, from as int),
        from <= r <= v@.len(),
{
    let mut i = from;
    while i < v.len() && is_digit_char(v[i])
        invariant
            from <= i <= v@.len(),
            skip_digits(v@, from as int) == skip_digits(v@, i as int),
        decreases v@.len() - i,
    {
        i += 1;
    }
    i
}

/// Whether the first eight characters spell a `HH:MM:SS` clock time shape.
pub open spec fn time_shape(t: Seq<char>) -> bool {
    &&& t.len() >= 8
    &&& is_digit(t[0])
    &&& is_digit(t[1])
    &&& t[2] == ':'
    &&& is_digit(t[3])
    &&& is_digit(t[4])
    &&& t[5] == ':'
    &&& is_digit(t[6])
    &&& is_digit(t[7])
}

fn time_shape_check(v: &Vec<char>) -> (r: bool)
    ensures
        r == time_shape(v@),
{
    v.len() >= 8 && is_digit_char(v[0]) && is_digit_char(v[1]) && v[2] == ':' && is_digit_char(
        v[3],
    ) && is_digit_char(v[4]) && v[5] == ':' && is_digit_char(v[6]) && is_digit_char(v[7])
}

pub open spec fn success_token() -> Seq<char> {
    seq!['S', 'U', 'C', 'C', 'E', 'S', 'S']
}

pub open spec fn debug_token() -> Seq<char> {
    seq!['D', 'E', 'B', 'U', 'G']
}

pub open spec fn info_token() -> Seq<char> {
    seq!['I', 'N', 'F', 'O']
}

pub open spec fn warning_token() -> Seq<char> {
    seq!['W', 'A', 'R', 'N', 'I', 'N', 'G']
}

pub open spec fn error_token() -> Seq<char> {
    seq!['E', 'R', 'R', 'O', 'R']
}

pub open spec fn trace_token() -> Seq<char> {
    seq!['T', 'R', 'A', 'C', 'E']
}

/// Whether `tok` stands at position `i` of `s`.
pub open spec fn token_matches(s: Seq<char>, i: int, tok: Seq<char>) -> bool {
    0 <= i && i + tok.len() <= s.len() && s.subrange(i, i + tok.len() as int) == tok
}

/// The level token standing at position `i`, with its length, if any.
/// This is the fixed mapping table of the grammar: `WARNING` maps to `WARN`,
/// `ERROR` to `ERR`, and the other tokens to the level of the same name.
pub open spec fn level_token_at(s: Seq<char>, i: int) -> Option<(LogLevel, int)> {
    if token_matches(s, i, success_token()) {
        Some((LogLevel::SUCCESS, 7int))
    } else if token_matches(s, i, debug_token()) {
        Some((LogLevel::DEBUG, 5int))
    } else if token_matches(s, i, info_token()) {
        Some((LogLevel::INFO, 4int))
    } else if token_matches(s, i, warning_token()) {
        Some((LogLevel::WARN, 7int))
    } else if token_matches(s, i, error_token()) {
        Some((LogLevel::ERR, 5int))
    } else if token_matches(s, i, trace_token()) {
        Some((LogLevel::TRACE, 5int))
    } else {
        None
    }
}

/// The parts of a structured line: `(time, level, message)`, where `time` is
/// the leading `HH:MM:SS` text and `message` is the trimmed text after the
/// second pipe. `None` when the trimmed line does not fit the grammar.
pub open spec fn structured_parts(t: Seq<char>) -> Option<(Seq<char>, LogLevel, Seq<char>)> {
    if !(time_shape(t) && t.len() > 8 && t[8] == '[') {
        None
    } else {
        let pe = skip_digits(t, 9);
        if !(pe > 9 && pe < t.len() && t[pe] == ']') {
            None
        } else {
            let i1 = skip_spaces(t, pe + 1);
            if !(i1 < t.len() && t[i1] == '|') {
                None
            } else {
                let i2 = skip_spaces(t, i1 + 1);
                match level_token_at(t, i2) {
                    None => None,
                    Some(tok) => {
                        let i3 = skip_spaces(t, i2 + tok.1);
                        if !(i3 < t.len() && t[i3] == '|' && i3 + 1 < t.len()) {
                            None
                        } else {
                            Some(
                                (
                                    t.subrange(0, 8),
                                    tok.0,
                                    trimmed(t.subrange(i3 + 1, t.len() as int)),
                                ),
                            )
                        }
                    },
                }
            }
        }
    }
}

fn success_chars() -> (v: Vec<char>)
    ensures
        v@ == success_token(),
{
    let mut v: Vec<char> = Vec::new();
    v.push('S');
    v.push('U');
    v.push('C');
    v.push('C');
    v.push('E');
    v.push('S');
    v.push('S');
    proof {
        assert(v@ =~= success_token());
    }
    v
}

fn debug_chars() -> (v: Vec<char>)
    ensures
        v@ == debug_token(),
{
    let mut v: Vec<char> = Vec::new();
    v.push('D');
    v.push('E');
    v.push('B');
    v.push('U');
    v.push('G');
    proof {
        assert(v@ =~= debug_token());
    }
    v
}

fn info_chars() -> (v: Vec<char>)
    ensures
        v@ == info_token(),
{
    let mut v: Vec<char> = Vec::new();
    v.push('I');
    v.push('N');
    v.push('F');
    v.push('O');
    proof {
        assert(v@ =~= info_token());
    }
    v
}

fn warning_chars() -> (v: Vec<char>)
    ensures
        v@ == warning_token(),
{
    let mut v: Vec<char> = Vec::new();
    v.push('W');
    v.push('A');
    v.push('R');
    v.push('N');
    v.push('I');
    v.push('N');
    v.push('G');
    proof {
        assert(v@ =~= warning_token());
    }
    v
}

fn error_chars() -> (v: Vec<char>)
    ensures
        v@ == error_token(),
{
    let mut v: Vec<char> = Vec::new();
    v.push('E');
    v.push('R');
    v.push('R');
    v.push('O');
    v.push('R');
    proof {
        assert(v@ =~= error_token());
    }
    v
}

fn trace_chars() -> (v: Vec<char>)
    ensures
        v@ == trace_token(),
{
    let mut v: Vec<char> = Vec::new();
    v.push('T');
    v.push('R');
    v.push('A');
    v.push('C');
    v.push('E');
    proof {
        assert(v@ =~= trace_token());
    }
    v
}

/// Checks one candidate token at position `i`.
fn token_check(v: &Vec<char>, i: usize, tok: &Vec<char>) -> (r: bool)
    requires
        i <= v@.len(),
    ensures
        r == token_matches(v@, i as int, tok@),
{
    if v.len() - i < tok.len() {
        return false;
    }
    crate::text::range_equals(v, i, i + tok.len(), tok)
}

/// The level token standing at `i`, executably.
fn token_at(v: &Vec<char>, i: usize) -> (r: Option<(LogLevel, usize)>)
    requires
        i <= v@.len(),
    ensures
        match r {
            Some(p) => i + p.1 <= v@.len() && level_token_at(v@, i as int) == Some(
                (p.0, p.1 as int),
            ),
            None => level_token_at(v@, i as int) is None,
        },
{
    if token_check(v, i, &success_chars()) {
        Some((LogLevel::SUCCESS, 7))
    } else if token_check(v, i, &debug_chars()) {
        Some((LogLevel::DEBUG, 5))
    } else if token_check(v, i, &info_chars()) {
        Some((LogLevel::INFO, 4))
    } else if token_check(v, i, &warning_chars()) {
        Some((LogLevel::WARN, 7))
    } else if token_check(v, i, &error_chars()) {
        Some((LogLevel::ERR, 5))
    } else if token_check(v, i, &trace_chars()) {
        Some((LogLevel::TRACE, 5))
    } else {
        None
    }
}

/// Scans a trimmed line for the structured grammar. On a match, returns the
/// level and the bounds of the trimmed message inside `t`.
fn scan_structured(t: &Vec<char>) -> (r: Option<(LogLevel, usize, usize)>)
    ensures
        r is None <==> structured_parts(t@) is None,
        r matches Some(p) ==> 8 <= t@.len() && p.1 <= p.2 <= t@.len() && structured_parts(t@)
            == Some(
            (t@.subrange(0, 8), p.0, t@.subrange(p.1 as int, p.2 as int)),
        ),
{
    let n = t.len();
    if !(time_shape_check(t) && n > 8 && t[8] == '[') {
        return None;
    }
    let pe = skip_digits_from(t, 9);
    if !(pe > 9 && pe < n && t[pe] == ']') {
        return None;
    }
    let i1 = skip_spaces_from(t, pe + 1);
    if !(i1 < n && t[i1] == '|') {
        return None;
    }
    let i2 = skip_spaces_from(t, i1 + 1);
    match token_at(t, i2) {
        None => None,
        Some((lvl, tl)) => {
            let i3 = skip_spaces_from(t, i2 + tl);
            if !(i3 < n && t[i3] == '|' && i3 + 1 < n) {
                return None;
            }
            let rest = copy_range(t, i3 + 1, n);
            let (mlo, mhi) = trim_bounds(&rest);
            proof {
                assert(t@.subrange(i3 + 1, n as int).subrange(mlo as int, mhi as int)
                    =~= t@.subrange(i3 + 1 + mlo, i3 + 1 + mhi));
            }
            Some((lvl, i3 + 1 + mlo, i3 + 1 + mhi))
        },
    }
}

/// The text that closes a multi-line error block.
pub open spec fn error_marker() -> Seq<char> {
    seq!['E', 'r', 'r', 'o', 'r', ':']
}

/// The other text that closes a multi-line error block.
pub open spec fn exception_marker() -> Seq<char> {
    seq!['E', 'x', 'c', 'e', 'p', 't', 'i', 'o', 'n', ':']
}

/// Whether a trimmed line ends an error block: it contains `"Error:"` or
/// `"Exception:"`. This is a deliberate, pattern-based heuristic for
/// traceback-style output; ordinary text holding either substring ends the
/// block too.
pub open spec fn is_terminal_line(t: Seq<char>) -> bool {
    has_substring(t, error_marker()) || has_substring(t, exception_marker())
}

fn error_marker_chars() -> (v: Vec<char>)
    ensures
        v@ == error_marker(),
{
    let mut v: Vec<char> = Vec::new();
    v.push('E');
    v.push('r');
    v.push('r');
    v.push('o');
    v.push('r');
    v.push(':');
    proof {
        assert(v@ =~= error_marker());
    }
    v
}

fn exception_marker_chars() -> (v: Vec<char>)
    ensures
        v@ == exception_marker(),
{
    let mut v: Vec<char> = Vec::new();
    v.push('E');
    v.push('x');
    v.push('c');
    v.push('e');
    v.push('p');
    v.push('t');
    v.push('i');
    v.push('o');
    v.push('n');
    v.push(':');
    proof {
        assert(v@ =~= exception_marker());
    }
    v
}

/// Mathematical image of a [`ParsedLog`].
pub ghost struct LogRecord {
    pub level: LogLevel,
    pub message: Seq<char>,
    pub time: Seq<char>,
}

/// One structured record produced by the parser.
#[derive(Debug)]
pub struct ParsedLog {
    pub level: LogLevel,
    pub message: String,
    /// `HH:MM:SS`: the time captured from a structured line, or the clock
    /// reading at which an accumulated block was emitted.
    pub time: String,
}

impl View for ParsedLog {
    type V = LogRecord;

    open spec fn view(&self) -> LogRecord {
        LogRecord { level: self.level, message: self.message@, time: self.time@ }
    }
}

impl DeepView for ParsedLog {
    type V = LogRecord;

    open spec fn deep_view(&self) -> LogRecord {
        self.view()
    }
}

impl Clone for ParsedLog {
    fn clone(&self) -> (r: Self)
        ensures
            r == *self,
    {
        ParsedLog {
            level: self.level,
            message: self.message.clone(),
            time: self.time.clone(),
        }
    }
}

/// Mathematical image of a [`SraLogParser`]: the accumulated untagged lines,
/// whether an error block is open, and the queue of records already produced
/// but not yet handed out.
pub ghost struct ParserModel {
    pub pending: Seq<Seq<char>>,
    pub in_error: bool,
    pub queue: Seq<LogRecord>,
}

/// The state of a freshly initialized parser.
pub open spec fn empty_model() -> ParserModel {
    ParserModel { pending: Seq::empty(), in_error: false, queue: Seq::empty() }
}

/// One step of the parser on one raw line, given the clock reading `ts` that
/// stamps any block emitted by this step. Returns the state after the step
/// and everything the step hands out (the drained queue first).
pub open spec fn parse_step(m: ParserModel, line: Seq<char>, ts: Seq<char>) -> (
    ParserModel,
    Seq<LogRecord>,
) {
    let t = trimmed(line);
    if t.len() == 0 {
        (ParserModel { pending: m.pending, in_error: m.in_error, queue: Seq::empty() }, m.queue)
    } else if m.in_error {
        let pending2 = m.pending.push(t);
        if is_terminal_line(t) {
            (
                empty_model(),
                m.queue.push(
                    LogRecord { level: LogLevel::ERR, message: join_lines(pending2), time: ts },
                ),
            )
        } else {
            (ParserModel { pending: pending2, in_error: true, queue: Seq::empty() }, m.queue)
        }
    } else {
        match structured_parts(t) {
            Some(parts) => {
                if parts.1 == LogLevel::ERR {
                    (
                        ParserModel {
                            pending: m.pending.push(parts.2),
                            in_error: true,
                            queue: Seq::empty(),
                        },
                        m.queue,
                    )
                } else if m.pending.len() > 0 {
                    (
                        empty_model(),
                        m.queue + seq![
                            LogRecord {
                                level: LogLevel::MSG,
                                message: join_lines(m.pending),
                                time: ts,
                            },
                            LogRecord { level: parts.1, message: parts.2, time: parts.0 },
                        ],
                    )
                } else {
                    (
                        ParserModel { pending: m.pending, in_error: false, queue: Seq::empty() },
                        m.queue.push(
                            LogRecord { level: parts.1, message: parts.2, time: parts.0 },
                        ),
                    )
                }
            },
            None => {
                (
                    ParserModel { pending: m.pending.push(t), in_error: false, queue: Seq::empty() },
                    m.queue,
                )
            },
        }
    }
}

/// A flush, given the clock reading `ts` that stamps the emitted block: any
/// pending lines leave as one `MSG` record and the state returns to idle.
pub open spec fn flush_step(m: ParserModel, ts: Seq<char>) -> (ParserModel, Seq<LogRecord>) {
    if m.pending.len() > 0 {
        (
            empty_model(),
            m.queue.push(
                LogRecord { level: LogLevel::MSG, message: join_lines(m.pending), time: ts },
            ),
        )
    } else {
        (
            ParserModel { pending: m.pending, in_error: m.in_error, queue: Seq::empty() },
            m.queue,
        )
    }
}

/// The stateful parser for one supervised worker session. Its accumulation
/// state must not be shared across two concurrently supervised processes.
pub struct SraLogParser {
    pending_lines: Vec<String>,
    in_multiline: bool,
    output_queue: Vec<ParsedLog>,
}

impl View for SraLogParser {
    type V = ParserModel;

    closed spec fn view(&self) -> ParserModel {
        ParserModel {
            pending: self.pending_lines.deep_view(),
            in_error: self.in_multiline,
            queue: self.output_queue.deep_view(),
        }
    }
}

impl SraLogParser {
    pub fn new() -> (p: Self)
        ensures
            p@ == empty_model(),
    {
        let p = SraLogParser {
            pending_lines: Vec::new(),
            in_multiline: false,
            output_queue: Vec::new(),
        };
        proof {
            assert(p.pending_lines.deep_view() =~= Seq::<Seq<char>>::empty());
            assert(p.output_queue.deep_view() =~= Seq::<LogRecord>::empty());
        }
        p
    }

    /// Empties the output queue into a fresh vector.
    fn drain_queue(&mut self) -> (out: Vec<ParsedLog>)
        ensures
            final(self)@.pending == old(self)@.pending,
            final(self)@.in_error == old(self)@.in_error,
            final(self)@.queue == Seq::<LogRecord>::empty(),
            out.deep_view() == old(self)@.queue,
    {
        let mut out: Vec<ParsedLog> = Vec::new();
        core::mem::swap(&mut self.output_queue, &mut out);
        proof {
            assert(self.output_queue.deep_view() =~= Seq::<LogRecord>::empty());
        }
        out
    }

    /// Consumes one raw output line and returns every record that becomes
    /// due: first anything still queued, then what this line resolves.
    pub fn parse_line(&mut self, line: &str) -> (out: Vec<ParsedLog>)
        ensures
            exists|ts: Seq<char>|
                #![trigger parse_step(old(self)@, line@, ts)]
                {
                    &&& ts.len() == 8
                    &&& final(self)@ == parse_step(old(self)@, line@, ts).0
                    &&& out.deep_view() == parse_step(old(self)@, line@, ts).1
                },
    {
        let ghost pre = self@;
        let mut out = self.drain_queue();
        let ghost drained = out.deep_view();
        let v = chars_of(line);
        let (lo, hi) = trim_bounds(&v);
        let ghost t = trimmed(line@);
        if lo == hi {
            proof {
                let ts = seq!['0', '0', ':', '0', '0', ':', '0', '0'];
                assert(ts.len() == 8);
                assert(self@ == parse_step(pre, line@, ts).0);
                assert(out.deep_view() == parse_step(pre, line@, ts).1);
            }
            return out;
        }
        assert(t.len() > 0);
        if self.in_multiline {
            let tstr = string_of_range(line, lo, hi);
            let ghost pending_pre = self.pending_lines.deep_view();
            self.pending_lines.push(tstr);
            proof {
                assert(self.pending_lines.deep_view() =~= pending_pre.push(t));
            }
            let tv = copy_range(&v, lo, hi);
            let terminal = contains_chars(&tv, &error_marker_chars()) || contains_chars(
                &tv,
                &exception_marker_chars(),
            );
            if terminal {
                let message = join_strings(&self.pending_lines);
                self.pending_lines = Vec::new();
                self.in_multiline = false;
                let time = now_hms();
                let ghost ts = time@;
                let ghost rec = LogRecord {
                    level: LogLevel::ERR,
                    message: join_lines(pending_pre.push(t)),
                    time: ts,
                };
                let ghost out_pre = out.deep_view();
                out.push(ParsedLog { level: LogLevel::ERR, message, time });
                proof {
                    assert(self.pending_lines.deep_view() =~= Seq::<Seq<char>>::empty());
                    assert(out.deep_view() =~= out_pre.push(rec));
                    assert(self@ == parse_step(pre, line@, ts).0);
                    assert(out.deep_view() == parse_step(pre, line@, ts).1);
                }
            } else {
                proof {
                    let ts = seq!['0', '0', ':', '0', '0', ':', '0', '0'];
                    assert(ts.len() == 8);
                    assert(self@ == parse_step(pre, line@, ts).0);
                    assert(out.deep_view() == parse_step(pre, line@, ts).1);
                }
            }
            return out;
        }
        let tv = copy_range(&v, lo, hi);
        match scan_structured(&tv) {
            Some((lvl, a, b)) => {
                let time = string_of_range(line, lo, lo + 8);
                let msg = string_of_range(line, lo + a, lo + b);
                proof {
                    assert(time@ =~= t.subrange(0, 8));
                    assert(msg@ =~= t.subrange(a as int, b as int));
                    assert(structured_parts(t) == Some((time@, lvl, msg@)));
                }
                if lvl == LogLevel::ERR {
                    let ghost pending_pre = self.pending_lines.deep_view();
                    self.pending_lines.push(msg);
                    self.in_multiline = true;
                    proof {
                        let ts = seq!['0', '0', ':', '0', '0', ':', '0', '0'];
                        assert(ts.len() == 8);
                        assert(self.pending_lines.deep_view() =~= pending_pre.push(
                            structured_parts(t)->Some_0.2,
                        ));
                        assert(self@ == parse_step(pre, line@, ts).0);
                        assert(out.deep_view() == parse_step(pre, line@, ts).1);
                    }
                } else if self.pending_lines.len() > 0 {
                    let block = join_strings(&self.pending_lines);
                    self.pending_lines = Vec::new();
                    let block_time = now_hms();
                    let ghost ts = block_time@;
                    let ghost out_pre = out.deep_view();
                    let ghost block_rec = LogRecord {
                        level: LogLevel::MSG,
                        message: join_lines(pre.pending),
                        time: ts,
                    };
                    let ghost line_rec = LogRecord { level: lvl, message: msg@, time: time@ };
                    out.push(ParsedLog { level: LogLevel::MSG, message: block, time: block_time });
                    out.push(ParsedLog { level: lvl, message: msg, time });
                    proof {
                        assert(self.pending_lines.deep_view() =~= Seq::<Seq<char>>::empty());
                        assert(out.deep_view() =~= out_pre.push(block_rec).push(line_rec));
                        assert(out_pre.push(block_rec).push(line_rec) =~= pre.queue + seq![
                            block_rec,
                            line_rec,
                        ]);
                        assert(self@ == parse_step(pre, line@, ts).0);
                        assert(out.deep_view() == parse_step(pre, line@, ts).1);
                    }
                } else {
                    let ghost out_pre = out.deep_view();
                    let ghost line_rec = LogRecord { level: lvl, message: msg@, time: time@ };
                    out.push(ParsedLog { level: lvl, message: msg, time });
                    proof {
                        let ts = seq!['0', '0', ':', '0', '0', ':', '0', '0'];
                        assert(ts.len() == 8);
                        assert(out.deep_view() =~= out_pre.push(line_rec));
                        assert(self@ == parse_step(pre, line@, ts).0);
                        assert(out.deep_view() == parse_step(pre, line@, ts).1);
                    }
                }
            },
            None => {
                let tstr = string_of_range(line, lo, hi);
                let ghost pending_pre = self.pending_lines.deep_view();
                self.pending_lines.push(tstr);
                proof {
                    let ts = seq!['0', '0', ':', '0', '0', ':', '0', '0'];
                    assert(ts.len() == 8);
                    assert(self.pending_lines.deep_view() =~= pending_pre.push(t));
                    assert(self@ == parse_step(pre, line@, ts).0);
                    assert(out.deep_view() == parse_step(pre, line@, ts).1);
                }
            },
        }
        out
    }

    /// Forces out anything still accumulated: queued records first, then any
    /// pending lines as one `MSG` record. Never fails.
    pub fn flush(&mut self) -> (out: Vec<ParsedLog>)
        ensures
            exists|ts: Seq<char>|
                #![trigger flush_step(old(self)@, ts)]
                {
                    &&& ts.len() == 8
                    &&& final(self)@ == flush_step(old(self)@, ts).0
                    &&& out.deep_view() == flush_step(old(self)@, ts).1
                },
    {
        let ghost pre = self@;
        let mut out = self.drain_queue();
        if self.pending_lines.len() > 0 {
            let message = join_strings(&self.pending_lines);
            self.pending_lines = Vec::new();
            self.in_multiline = false;
            let time = now_hms();
            let ghost ts = time@;
            let ghost rec = LogRecord {
                level: LogLevel::MSG,
                message: join_lines(pre.pending),
                time: ts,
            };
            let ghost out_pre = out.deep_view();
            out.push(ParsedLog { level: LogLevel::MSG, message, time });
            proof {
                assert(self.pending_lines.deep_view() =~= Seq::<Seq<char>>::empty());
                assert(out.deep_view() =~= out_pre.push(rec));
                assert(self@ == flush_step(pre, ts).0);
                assert(out.deep_view() == flush_step(pre, ts).1);
            }
        } else {
            proof {
                let ts = seq!['0', '0', ':', '0', '0', ':', '0', '0'];
                assert(ts.len() == 8);
                assert(self@ == flush_step(pre, ts).0);
                assert(out.deep_view() == flush_step(pre, ts).1);
            }
        }
        out
    }
}

/// Puts a freshly initialized parser into the session slot, discarding any
/// previous session's accumulation state.
pub fn init_parser(slot: &mut Option<SraLogParser>)
    ensures
        (*final(slot)) matches Some(p) && p@ == empty_model(),
{
    *slot = Some(SraLogParser::new());
}

/// Parses one line through the session slot; an uninitialized slot stays
/// untouched and yields nothing.
pub fn parse_line(slot: &mut Option<SraLogParser>, line: &str) -> (out: Vec<ParsedLog>)
    ensures
        (*old(slot)) is None ==> (*final(slot)) is None && out@.len() == 0,
        (*old(slot)) matches Some(p) ==> (*final(slot)) matches Some(q) && exists|ts: Seq<char>|
            #![trigger parse_step(p@, line@, ts)]
            {
                &&& ts.len() == 8
                &&& q@ == parse_step(p@, line@, ts).0
                &&& out.deep_view() == parse_step(p@, line@, ts).1
            },
{
    match slot {
        Some(parser) => parser.parse_line(line),
        None => Vec::new(),
    }
}

/// Flushes the session slot; an uninitialized slot stays untouched and
/// yields nothing.
pub fn flush_parser(slot: &mut Option<SraLogParser>) -> (out: Vec<ParsedLog>)
    ensures
        (*old(slot)) is None ==> (*final(slot)) is None && out@.len() == 0,
        (*old(slot)) matches Some(p) ==> (*final(slot)) matches Some(q) && exists|ts: Seq<char>|
            #![trigger flush_step(p@, ts)]
            {
                &&& ts.len() == 8
                &&& q@ == flush_step(p@, ts).0
                &&& out.deep_view() == flush_step(p@, ts).1
            },
{
    match slot {
        Some(parser) => parser.flush(),
        None => Vec::new(),
    }
}

/// The parser fed several raw lines in order; every block emitted along the
/// way is stamped with the same clock text `ts`.
pub open spec fn feed_lines(m: ParserModel, lines: Seq<Seq<char>>, ts: Seq<char>) -> (
    ParserModel,
    Seq<LogRecord>,
)
    decreases lines.len(),
{
    if lines.len() == 0 {
        (m, Seq::empty())
    } else {
        let first = parse_step(m, lines[0], ts);
        let rest = feed_lines(first.0, lines.drop_first(), ts);
        (rest.0, first.1 + rest.1)
    }
}

pub proof fn lemma_feed_lines_append(
    m: ParserModel,
    xs: Seq<Seq<char>>,
    ys: Seq<Seq<char>>,
    ts: Seq<char>,
)
    ensures
        feed_lines(m, xs + ys, ts).0 == feed_lines(feed_lines(m, xs, ts).0, ys, ts).0,
        feed_lines(m, xs + ys, ts).1 == feed_lines(m, xs, ts).1 + feed_lines(
            feed_lines(m, xs, ts).0,
            ys,
            ts,
        ).1,
    decreases xs.len(),
{
    if xs.len() == 0 {
        assert(xs + ys =~= ys);
        assert(feed_lines(m, xs, ts).1 + feed_lines(feed_lines(m, xs, ts).0, ys, ts).1
            =~= feed_lines(m, ys, ts).1);
    } else {
        let first = parse_step(m, xs[0], ts);
        assert((xs + ys)[0] == xs[0]);
        assert((xs + ys).drop_first() =~= xs.drop_first() + ys);
        lemma_feed_lines_append(first.0, xs.drop_first(), ys, ts);
        assert(feed_lines(m, xs + ys, ts).1 =~= feed_lines(m, xs, ts).1 + feed_lines(
            feed_lines(m, xs, ts).0,
            ys,
            ts,
        ).1);
    }
}

/// Law: a line matching the structured grammar is mapped deterministically
/// by the fixed level table, and its message text is never dropped. Outside
/// an error block, a non-`ERROR` line yields a record carrying exactly the
/// mapped level, the trimmed message and the captured time as the last
/// record handed out; an `ERROR` line is held whole as the first line of the
/// opened error block.
pub proof fn lemma_structured_line_parsed(m: ParserModel, line: Seq<char>, ts: Seq<char>)
    requires
        !m.in_error,
        structured_parts(trimmed(line)) is Some,
    ensures
        ({
            let parts = structured_parts(trimmed(line))->Some_0;
            let r = parse_step(m, line, ts);
            &&& parts.1 != LogLevel::ERR ==> r.1.len() > 0 && r.1.last() == LogRecord {
                level: parts.1,
                message: parts.2,
                time: parts.0,
            }
            &&& parts.1 == LogLevel::ERR ==> r.0.pending == m.pending.push(parts.2)
                && r.0.in_error && r.1 == m.queue
        }),
{
    let t = trimmed(line);
    assert(time_shape(t));
    assert(t.len() >= 8);
}

/// Untagged lines accumulate silently: feeding lines that trim non-empty and
/// miss the grammar, from an idle state with an empty queue, extends the
/// pending block in order and emits nothing.
pub proof fn lemma_untagged_feed(p: Seq<Seq<char>>, lines: Seq<Seq<char>>, ts: Seq<char>)
    requires
        forall|i: int|
            0 <= i < lines.len() ==> trimmed(#[trigger] lines[i]).len() > 0 && structured_parts(
                trimmed(lines[i]),
            ) is None,
    ensures
        ({
            let m0 = ParserModel { pending: p, in_error: false, queue: Seq::empty() };
            let r = feed_lines(m0, lines, ts);
            &&& r.0 == ParserModel {
                pending: p + lines.map_values(|l: Seq<char>| trimmed(l)),
                in_error: false,
                queue: Seq::<LogRecord>::empty(),
            }
            &&& r.1 == Seq::<LogRecord>::empty()
        }),
    decreases lines.len(),
{
    let f = |l: Seq<char>| trimmed(l);
    let m0 = ParserModel { pending: p, in_error: false, queue: Seq::empty() };
    if lines.len() == 0 {
        assert(p + lines.map_values(f) =~= p);
    } else {
        let t0 = trimmed(lines[0]);
        let first = parse_step(m0, lines[0], ts);
        assert(first.0 == ParserModel {
            pending: p.push(t0),
            in_error: false,
            queue: Seq::<LogRecord>::empty(),
        });
        assert(first.1 =~= Seq::<LogRecord>::empty());
        assert(forall|i: int|
            0 <= i < lines.drop_first().len() ==> trimmed(
                #[trigger] lines.drop_first()[i],
            ).len() > 0 && structured_parts(trimmed(lines.drop_first()[i])) is None);
        lemma_untagged_feed(p.push(t0), lines.drop_first(), ts);
        assert(p.push(t0) + lines.drop_first().map_values(f) =~= p + lines.map_values(f));
        assert(feed_lines(m0, lines, ts).1 =~= Seq::<LogRecord>::empty());
    }
}

/// Law: a run of untagged lines followed by a flush, with no tagged line in
/// between, produces exactly one `MSG` record whose text is the trimmed
/// lines joined by newline in their original order — and nothing else.
pub proof fn lemma_untagged_block_flush(lines: Seq<Seq<char>>, ts: Seq<char>, fts: Seq<char>)
    requires
        lines.len() > 0,
        forall|i: int|
            0 <= i < lines.len() ==> trimmed(#[trigger] lines[i]).len() > 0 && structured_parts(
                trimmed(lines[i]),
            ) is None,
    ensures
        ({
            let fed = feed_lines(empty_model(), lines, ts);
            let fl = flush_step(fed.0, fts);
            &&& fed.1 == Seq::<LogRecord>::empty()
            &&& fl.1 == seq![
                LogRecord {
                    level: LogLevel::MSG,
                    message: join_lines(lines.map_values(|l: Seq<char>| trimmed(l))),
                    time: fts,
                },
            ]
            &&& fl.0 == empty_model()
        }),
{
    let f = |l: Seq<char>| trimmed(l);
    lemma_untagged_feed(Seq::empty(), lines, ts);
    let fed = feed_lines(empty_model(), lines, ts);
    assert(Seq::<Seq<char>>::empty() + lines.map_values(f) =~= lines.map_values(f));
    assert(fed.0.pending.len() == lines.len());
    let fl = flush_step(fed.0, fts);
    assert(fl.1 =~= seq![
        LogRecord { level: LogLevel::MSG, message: join_lines(lines.map_values(f)), time: fts },
    ]);
}

/// Inside an error block, lines that trim non-empty and do not carry a
/// terminal marker accumulate silently, whatever else they contain.
pub proof fn lemma_error_feed(p: Seq<Seq<char>>, lines: Seq<Seq<char>>, ts: Seq<char>)
    requires
        forall|i: int|
            0 <= i < lines.len() ==> trimmed(#[trigger] lines[i]).len() > 0 && !is_terminal_line(
                trimmed(lines[i]),
            ),
    ensures
        ({
            let m0 = ParserModel { pending: p, in_error: true, queue: Seq::empty() };
            let r = feed_lines(m0, lines, ts);
            &&& r.0 == ParserModel {
                pending: p + lines.map_values(|l: Seq<char>| trimmed(l)),
                in_error: true,
                queue: Seq::<LogRecord>::empty(),
            }
            &&& r.1 == Seq::<LogRecord>::empty()
        }),
    decreases lines.len(),
{
    let f = |l: Seq<char>| trimmed(l);
    let m0 = ParserModel { pending: p, in_error: true, queue: Seq::empty() };
    if lines.len() == 0 {
        assert(p + lines.map_values(f) =~= p);
    } else {
        let t0 = trimmed(lines[0]);
        let first = parse_step(m0, lines[0], ts);
        assert(first.0 == ParserModel {
            pending: p.push(t0),
            in_error: true,
            queue: Seq::<LogRecord>::empty(),
        });
        assert(first.1 =~= Seq::<LogRecord>::empty());
        assert(forall|i: int|
            0 <= i < lines.drop_first().len() ==> trimmed(
                #[trigger] lines.drop_first()[i],
            ).len() > 0 && !is_terminal_line(trimmed(lines.drop_first()[i])));
        lemma_error_feed(p.push(t0), lines.drop_first(), ts);
        assert(p.push(t0) + lines.drop_first().map_values(f) =~= p + lines.map_values(f));
        assert(feed_lines(m0, lines, ts).1 =~= Seq::<LogRecord>::empty());
    }
}

/// Law: an `ERROR`-tagged line, any number of non-terminal lines, and
/// finally a line containing `"Error:"` or `"Exception:"` produce exactly
/// one `ERR` record holding every line of the block joined by newline — the
/// error message first, the terminal line last — and no record is emitted
/// before the terminal line arrives.
pub proof fn lemma_error_block(
    first: Seq<char>,
    middles: Seq<Seq<char>>,
    last: Seq<char>,
    ts: Seq<char>,
)
    requires
        structured_parts(trimmed(first)) is Some,
        structured_parts(trimmed(first))->Some_0.1 == LogLevel::ERR,
        forall|i: int|
            0 <= i < middles.len() ==> trimmed(#[trigger] middles[i]).len() > 0
                && !is_terminal_line(trimmed(middles[i])),
        trimmed(last).len() > 0,
        is_terminal_line(trimmed(last)),
    ensures
        ({
            let msg0 = structured_parts(trimmed(first))->Some_0.2;
            let block = seq![msg0] + middles.map_values(|l: Seq<char>| trimmed(l)) + seq![
                trimmed(last),
            ];
            let fed = feed_lines(empty_model(), seq![first] + middles + seq![last], ts);
            &&& feed_lines(empty_model(), seq![first] + middles, ts).1
                == Seq::<LogRecord>::empty()
            &&& fed.1 == seq![
                LogRecord { level: LogLevel::ERR, message: join_lines(block), time: ts },
            ]
            &&& fed.0 == empty_model()
        }),
{
    let f = |l: Seq<char>| trimmed(l);
    let msg0 = structured_parts(trimmed(first))->Some_0.2;
    let m0 = empty_model();
    let t_first = trimmed(first);
    assert(time_shape(t_first));
    assert(t_first.len() >= 8);
    // Feeding the first line opens the error block.
    let m1 = parse_step(m0, first, ts).0;
    assert(seq![first].len() == 1);
    assert(seq![first][0] == first);
    assert(seq![first].drop_first() =~= Seq::<Seq<char>>::empty());
    assert(feed_lines(m0, seq![first], ts).0 == feed_lines(m1, Seq::empty(), ts).0);
    assert(m1 == ParserModel {
        pending: Seq::<Seq<char>>::empty().push(msg0),
        in_error: true,
        queue: Seq::<LogRecord>::empty(),
    });
    assert(parse_step(m0, first, ts).1 =~= Seq::<LogRecord>::empty());
    assert(feed_lines(m0, seq![first], ts).1 =~= Seq::<LogRecord>::empty());
    // The middle lines accumulate silently.
    lemma_feed_lines_append(m0, seq![first], middles, ts);
    lemma_error_feed(seq![msg0], middles, ts);
    assert(Seq::<Seq<char>>::empty().push(msg0) =~= seq![msg0]);
    let m2 = feed_lines(m0, seq![first] + middles, ts).0;
    assert(m2 == ParserModel {
        pending: seq![msg0] + middles.map_values(f),
        in_error: true,
        queue: Seq::<LogRecord>::empty(),
    });
    assert(feed_lines(m0, seq![first] + middles, ts).1 =~= Seq::<LogRecord>::empty());
    // The terminal line closes the block with a single ERR record.
    lemma_feed_lines_append(m0, seq![first] + middles, seq![last], ts);
    let block = seq![msg0] + middles.map_values(f) + seq![trimmed(last)];
    assert((seq![msg0] + middles.map_values(f)).push(trimmed(last)) =~= block);
    let fin = parse_step(m2, last, ts);
    assert(fin.0 == empty_model());
    assert(fin.1 =~= seq![
        LogRecord { level: LogLevel::ERR, message: join_lines(block), time: ts },
    ]);
    assert(seq![last].len() == 1);
    assert(seq![last][0] == last);
    assert(seq![last].drop_first() =~= Seq::<Seq<char>>::empty());
    assert(feed_lines(fin.0, Seq::<Seq<char>>::empty(), ts) == (
        fin.0,
        Seq::<LogRecord>::empty(),
    ));
    assert(feed_lines(m2, seq![last], ts).0 == fin.0);
    assert(feed_lines(m2, seq![last], ts).1 =~= fin.1 + Seq::<LogRecord>::empty());
    assert(fin.1 + Seq::<LogRecord>::empty() =~= fin.1);
    assert((seq![first] + middles) + seq![last] =~= seq![first] + middles + seq![last]);
    assert(feed_lines(m0, seq![first] + middles + seq![last], ts).1 =~= seq![
        LogRecord { level: LogLevel::ERR, message: join_lines(block), time: ts },
    ]);
}

} // verus!

