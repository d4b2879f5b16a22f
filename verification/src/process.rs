//! The process supervisor's decision logic: the lifecycle state machine for
//! start, stop and stream end, the validation of lines sent to the worker,
//! and the handling of each line the worker prints. The caller performs the
//! actual spawning, pipe traffic and waiting, and reports the outcomes back
//! as plain values.

use vstd::prelude::*;
use crate::sra_parser::{flush_step, parse_step, ParsedLog, ParserModel, SraLogParser};
use crate::text::{
    chars_of, contains_chars, has_substring, range_equals, string_of_range, trim_bounds, trimmed,
};
use crate::types::{SraError, SraProcess, SraStatus};

verus! {

/// Whether a `start` request must spawn a new worker: only a state that
/// holds a child handle confirmed alive lets the request pass as a no-op.
pub open spec fn start_needs_spawn(p: Option<SraProcess>, alive: bool) -> bool {
    !(p matches Some(q) && q.has_child && alive)
}

/// The whole of one `start` request: `alive` is the non-blocking liveness
/// check of an existing child, `spawn_ok` the outcome of the spawn if one
/// was needed. Returns the state after the request, whether a spawn
/// happened, and whether the request succeeded.
pub open spec fn start_transition(p: Option<SraProcess>, alive: bool, spawn_ok: bool) -> (
    Option<SraProcess>,
    bool,
    bool,
) {
    if !start_needs_spawn(p, alive) {
        (p, false, true)
    } else if spawn_ok {
        (Some(SraProcess { has_child: true, status: SraStatus::Running }), true, true)
    } else {
        (Some(SraProcess { has_child: false, status: SraStatus::Error }), true, false)
    }
}

/// Decides whether `start` has to spawn. Must be evaluated and acted upon
/// under the same exclusion that guards the state, or two concurrent starts
/// could each decide to spawn.
pub fn plan_start(p: &Option<SraProcess>, alive: bool) -> (spawn: bool)
    ensures
        spawn == start_needs_spawn(*p, alive),
{
    match p {
        Some(q) => !(q.has_child && alive),
        None => true,
    }
}

/// Records the outcome of a spawn: success holds the new handle and runs;
/// failure releases everything and marks the recoverable error state.
pub fn apply_start(p: &mut Option<SraProcess>, spawn_ok: bool)
    ensures
        spawn_ok ==> (*final(p)) == Some(
            SraProcess { has_child: true, status: SraStatus::Running },
        ),
        !spawn_ok ==> (*final(p)) == Some(
            SraProcess { has_child: false, status: SraStatus::Error },
        ),
{
    if spawn_ok {
        *p = Some(SraProcess { has_child: true, status: SraStatus::Running });
    } else {
        *p = Some(SraProcess { has_child: false, status: SraStatus::Error });
    }
}

/// Law: `start` is idempotent while the worker lives. With a live child
/// confirmed, a start request spawns nothing, succeeds, and leaves the state
/// unchanged — and so does a second request issued right after it, so two
/// starts in immediate succession leave exactly the one original child.
pub proof fn lemma_start_idempotent(p: Option<SraProcess>, ok1: bool, ok2: bool)
    requires
        p matches Some(q) && q.has_child,
    ensures
        start_transition(p, true, ok1) == (p, false, true),
        start_transition(start_transition(p, true, ok1).0, true, ok2) == (p, false, true),
{
}

/// The whole of one `stop` request: any held child handle is released and
/// the state becomes `NotRunning`; without a child the request is a no-op.
pub open spec fn stop_transition(p: Option<SraProcess>) -> Option<SraProcess> {
    match p {
        None => None,
        Some(q) => if q.has_child {
            Some(SraProcess { has_child: false, status: SraStatus::NotRunning })
        } else {
            Some(q)
        },
    }
}

/// Whether a live child must be asked to stop (gracefully first, then by
/// force). `false` means `stop` is a no-op success.
pub fn plan_stop(p: &Option<SraProcess>) -> (live: bool)
    ensures
        live == (p matches Some(q) && q.has_child),
{
    match p {
        Some(q) => q.has_child,
        None => false,
    }
}

/// Records the end of a `stop` request, whatever way the child went.
pub fn finish_stop(p: &mut Option<SraProcess>)
    ensures
        *final(p) == stop_transition(*old(p)),
{
    match p {
        Some(q) => {
            if q.has_child {
                *p = Some(SraProcess { has_child: false, status: SraStatus::NotRunning });
            }
        },
        None => {},
    }
}

/// Law: `stop` does not depend on the worker heeding the graceful request.
/// Whenever a child handle exists, the state after `stop` is `NotRunning`
/// with the handle released — whether the child exited on its own or had to
/// be terminated by force.
pub proof fn lemma_stop_forces_not_running(p: Option<SraProcess>)
    requires
        p matches Some(q) && q.has_child,
    ensures
        stop_transition(p) == Some(
            SraProcess { has_child: false, status: SraStatus::NotRunning },
        ),
{
}

/// Records that the worker's output stream ended: the handle is released,
/// the state becomes `NotRunning`, and the exit deserves a warning entry
/// exactly when the supervisor had not already stopped the child itself.
pub fn handle_stream_end(p: &mut Option<SraProcess>) -> (warn: bool)
    ensures
        *final(p) == stop_transition(*old(p)),
        warn == ((*old(p)) matches Some(q) && q.has_child),
{
    let warn = plan_stop(p);
    finish_stop(p);
    warn
}

/// Whether the periodic flush task keeps running: it halts once the
/// lifecycle state shows no live worker.
pub fn flush_task_continues(p: &Option<SraProcess>) -> (r: bool)
    ensures
        r == (p matches Some(q) && q.has_child),
{
    match p {
        Some(q) => q.has_child,
        None => false,
    }
}

/// The queryable label of each lifecycle state.
pub open spec fn status_label(s: SraStatus) -> Seq<char> {
    match s {
        SraStatus::NotRunning => "not-running"@,
        SraStatus::Running => "running"@,
        SraStatus::TaskRunning => "task-running"@,
        SraStatus::Error => "error"@,
    }
}

/// The label reported for the whole supervisor state; an empty slot reads
/// as not running.
pub open spec fn status_of(p: Option<SraProcess>) -> Seq<char> {
    match p {
        None => "not-running"@,
        Some(q) => status_label(q.status),
    }
}

/// The status label of one lifecycle state, as text.
pub fn status_label_str(s: SraStatus) -> (r: &'static str)
    ensures
        r@ == status_label(s),
{
    match s {
        SraStatus::NotRunning => "not-running",
        SraStatus::Running => "running",
        SraStatus::TaskRunning => "task-running",
        SraStatus::Error => "error",
    }
}

/// A pure read of the current lifecycle state, as its label.
pub fn get_sra_status(p: &Option<SraProcess>) -> (r: String)
    ensures
        r@ == status_of(*p),
{
    match p {
        Some(q) => String::from_str(status_label_str(q.status)),
        None => String::from_str("not-running"),
    }
}

/// Validates one line of input for the worker and, when it may be sent,
/// returns the wire form: the line with a newline terminator. Empty or
/// whitespace-only input is rejected before the process is even considered;
/// without a live worker nothing is written.
pub fn validate_send_input(p: &Option<SraProcess>, alive: bool, input: &str) -> (r: Result<
    String,
    SraError,
>)
    ensures
        trimmed(input@).len() == 0 ==> r == Err::<String, SraError>(SraError::InvalidArgument),
        trimmed(input@).len() > 0 && !(p matches Some(q) && q.has_child && alive) ==> r
            == Err::<String, SraError>(SraError::NotRunning),
        trimmed(input@).len() > 0 && (p matches Some(q) && q.has_child && alive) ==> (r matches Ok(
            w,
        ) && w@ == input@.push('\n')),
{
    let v = chars_of(input);
    let (lo, hi) = trim_bounds(&v);
    if lo == hi {
        return Err(SraError::InvalidArgument);
    }
    let live = match p {
        Some(q) => q.has_child && alive,
        None => false,
    };
    if !live {
        return Err(SraError::NotRunning);
    }
    let mut w = String::from_str(input);
    w.append("\n");
    proof {
        reveal_strlit("\n");
        assert(w@ =~= input@.push('\n'));
    }
    Ok(w)
}

/// The audit entry recorded for a successfully submitted command: the text
/// prefixed so replay can tell submitted input from worker output.
pub fn input_echo(input: &str) -> (r: String)
    ensures
        r@ == ">>> "@ + input@,
{
    let mut r = String::from_str(">>> ");
    r.append(input);
    r
}

/// The command line that asks the worker to run a task: the bare command
/// for no (or an empty) configuration name, else the name appended.
pub fn task_run_command(config_name: &Option<String>) -> (r: String)
    ensures
        (*config_name) is None ==> r@ == "task run"@,
        (*config_name) matches Some(c) ==> {
            &&& c@.len() == 0 ==> r@ == "task run"@
            &&& c@.len() > 0 ==> r@ == "task run "@ + c@
        },
{
    match config_name {
        Some(c) => {
            if c.as_str().is_empty() {
                String::from_str("task run")
            } else {
                let mut r = String::from_str("task run ");
                r.append(c.as_str());
                r
            }
        },
        None => String::from_str("task run"),
    }
}

/// The command line that asks the worker to stop the running task.
pub fn task_stop_command() -> (r: String)
    ensures
        r@ == "task stop"@,
{
    String::from_str("task stop")
}

/// The line written to the worker's input to request a graceful exit.
pub fn graceful_stop_command() -> (r: String)
    ensures
        r@ == "exit\n"@,
{
    String::from_str("exit\n")
}

/// How the worker is launched: the fixed silencing flag, then the caller's
/// whitespace-delimited extra arguments, with the two environment variables
/// that force unbuffered UTF-8 text output.
pub struct LaunchPlan {
    pub args: Vec<String>,
    pub env: Vec<(String, String)>,
}

/// Builds the launch plan for the worker from the optional argument text.
pub fn plan_launch(arguments: &Option<String>) -> (plan: LaunchPlan)
    ensures
        (*arguments) is None ==> plan.args.deep_view() == seq!["--inline"@],
        (*arguments) matches Some(a) ==> plan.args.deep_view() == seq!["--inline"@]
            + crate::text::split_ws(a@),
        plan.env@.len() == 2,
        plan.env@[0].0@ == "PYTHONUNBUFFERED"@,
        plan.env@[0].1@ == "1"@,
        plan.env@[1].0@ == "PYTHONIOENCODING"@,
        plan.env@[1].1@ == "utf-8"@,
{
    let mut args: Vec<String> = Vec::new();
    args.push(String::from_str("--inline"));
    proof {
        assert(args.deep_view() =~= seq!["--inline"@]);
    }
    match arguments {
        Some(a) => {
            let ghost base = args.deep_view();
            let mut words = crate::text::split_whitespace_words(a.as_str());
            let ghost words_view = words.deep_view();
            let mut i: usize = 0;
            while i < words.len()
                invariant
                    i <= words@.len(),
                    words.deep_view() == words_view,
                    args.deep_view() =~= base + words_view.subrange(0, i as int),
                decreases words@.len() - i,
            {
                let ghost prev = args.deep_view();
                let w = words[i].clone();
                args.push(w);
                proof {
                    assert(args.deep_view() =~= prev.push(words_view[i as int]));
                    assert(prev.push(words_view[i as int]) =~= base + words_view.subrange(
                        0,
                        i + 1,
                    ));
                }
                i += 1;
            }
            proof {
                assert(words_view.subrange(0, words_view.len() as int) =~= words_view);
            }
        },
        None => {},
    }
    let mut env: Vec<(String, String)> = Vec::new();
    env.push((String::from_str("PYTHONUNBUFFERED"), String::from_str("1")));
    env.push((String::from_str("PYTHONIOENCODING"), String::from_str("utf-8")));
    LaunchPlan { args, env }
}

/// The lines of `s[i..]` completed by a newline, with `cur` the partial
/// line read so far, and the remainder after the last newline.
pub open spec fn split_nl_acc(s: Seq<char>, i: int, cur: Seq<char>) -> (Seq<Seq<char>>, Seq<char>)
    decreases s.len() - i,
    when 0 <= i <= s.len()
{
    if i >= s.len() {
        (Seq::empty(), cur)
    } else if s[i] == '\n' {
        let rest = split_nl_acc(s, i + 1, Seq::empty());
        (seq![cur] + rest.0, rest.1)
    } else {
        split_nl_acc(s, i + 1, cur.push(s[i]))
    }
}

/// The newline-completed lines of `s` and the trailing remainder.
pub open spec fn split_complete_lines(s: Seq<char>) -> (Seq<Seq<char>>, Seq<char>) {
    split_nl_acc(s, 0, Seq::empty())
}

/// Reassembles the raw byte chunks of one stream into lines: text is added
/// as it arrives, complete lines come out, and the tail after the last
/// newline stays buffered until more text or the end of the stream.
pub struct LineAssembler {
    buffer: String,
}

impl View for LineAssembler {
    type V = Seq<char>;

    closed spec fn view(&self) -> Seq<char> {
        self.buffer@
    }
}

impl LineAssembler {
    pub fn new() -> (r: Self)
        ensures
            r@ == Seq::<char>::empty(),
    {
        LineAssembler { buffer: String::new() }
    }

    /// Adds one decoded chunk and returns every line it completes, in
    /// order and without their newline terminators.
    pub fn push_chunk(&mut self, chunk: &str) -> (lines: Vec<String>)
        ensures
            lines.deep_view() == split_complete_lines(old(self)@ + chunk@).0,
            final(self)@ == split_complete_lines(old(self)@ + chunk@).1,
    {
        self.buffer.append(chunk);
        let ghost all = self.buffer@;
        let v = chars_of(self.buffer.as_str());
        let n = v.len();
        let mut lines: Vec<String> = Vec::new();
        let mut i: usize = 0;
        let mut ls: usize = 0;
        proof {
            assert(lines.deep_view() =~= Seq::<Seq<char>>::empty());
            assert(v@.subrange(0, 0) =~= Seq::<char>::empty());
            assert(Seq::<Seq<char>>::empty() + split_nl_acc(v@, 0, Seq::<char>::empty()).0
                =~= split_nl_acc(v@, 0, Seq::<char>::empty()).0);
        }
        while i < n
            invariant
                ls <= i <= n,
                n == v@.len(),
                v@ == all,
                self.buffer@ == all,
                split_complete_lines(all).0 == lines.deep_view() + split_nl_acc(
                    v@,
                    i as int,
                    v@.subrange(ls as int, i as int),
                ).0,
                split_complete_lines(all).1 == split_nl_acc(
                    v@,
                    i as int,
                    v@.subrange(ls as int, i as int),
                ).1,
            decreases n - i,
        {
            if v[i] == '\n' {
                let ghost prev = lines.deep_view();
                let line = string_of_range(self.buffer.as_str(), ls, i);
                lines.push(line);
                proof {
                    assert(lines.deep_view() =~= prev.push(v@.subrange(ls as int, i as int)));
                    assert(prev.push(v@.subrange(ls as int, i as int)) =~= prev + seq![
                        v@.subrange(ls as int, i as int),
                    ]);
                }
                i += 1;
                ls = i;
                proof {
                    assert(v@.subrange(ls as int, i as int) =~= Seq::<char>::empty());
                }
            } else {
                proof {
                    assert(v@.subrange(ls as int, i + 1) =~= v@.subrange(ls as int, i as int).push(
                        v@[i as int],
                    ));
                }
                i += 1;
            }
        }
        let rest = string_of_range(self.buffer.as_str(), ls, n);
        self.buffer = rest;
        proof {
            assert(lines.deep_view() + Seq::<Seq<char>>::empty() =~= lines.deep_view());
        }
        lines
    }

    /// Hands out whatever trails the last newline and leaves the assembler
    /// empty; used when the stream ends.
    pub fn take_remainder(&mut self) -> (r: String)
        ensures
            r@ == old(self)@,
            final(self)@ == Seq::<char>::empty(),
    {
        let mut r = String::new();
        core::mem::swap(&mut self.buffer, &mut r);
        r
    }
}

/// The marker with which the worker announces a started task.
pub open spec fn start_marker() -> Seq<char> {
    seq!['[', 'S', 't', 'a', 'r', 't', ']']
}

/// The marker with which the worker announces a finished task.
pub open spec fn done_marker() -> Seq<char> {
    seq!['[', 'D', 'o', 'n', 'e', ']']
}

/// The prompt line with which the worker signals it awaits input.
pub open spec fn prompt_marker() -> Seq<char> {
    seq!['s', 'r', 'a', '>']
}

/// The advisory state signalled by a raw output line, if any: a `[Start]`
/// marker outranks a `[Done]` marker on the same line.
pub open spec fn marker_status(line: Seq<char>) -> Option<SraStatus> {
    if has_substring(line, start_marker()) {
        Some(SraStatus::TaskRunning)
    } else if has_substring(line, done_marker()) {
        Some(SraStatus::Running)
    } else {
        None
    }
}

fn start_marker_chars() -> (v: Vec<char>)
    ensures
        v@ == start_marker(),
{
    let mut v: Vec<char> = Vec::new();
    v.push('[');
    v.push('S');
    v.push('t');
    v.push('a');
    v.push('r');
    v.push('t');
    v.push(']');
    proof {
        assert(v@ =~= start_marker());
    }
    v
}

fn done_marker_chars() -> (v: Vec<char>)
    ensures
        v@ == done_marker(),
{
    let mut v: Vec<char> = Vec::new();
    v.push('[');
    v.push('D');
    v.push('o');
    v.push('n');
    v.push('e');
    v.push(']');
    proof {
        assert(v@ =~= done_marker());
    }
    v
}

fn prompt_marker_chars() -> (v: Vec<char>)
    ensures
        v@ == prompt_marker(),
{
    let mut v: Vec<char> = Vec::new();
    v.push('s');
    v.push('r');
    v.push('a');
    v.push('>');
    proof {
        assert(v@ =~= prompt_marker());
    }
    v
}

/// Reads the advisory status markers off one raw output line.
pub fn scan_status_markers(line: &str) -> (r: Option<SraStatus>)
    ensures
        r == marker_status(line@),
{
    let v = chars_of(line);
    if contains_chars(&v, &start_marker_chars()) {
        Some(SraStatus::TaskRunning)
    } else if contains_chars(&v, &done_marker_chars()) {
        Some(SraStatus::Running)
    } else {
        None
    }
}

/// One step of the output-stream pump on one line: empty lines pass, the
/// idle prompt triggers a flush without being recorded itself, and every
/// other line is parsed and scanned for status markers.
pub open spec fn pump_step(m: ParserModel, line: Seq<char>, ts: Seq<char>) -> (
    ParserModel,
    Seq<crate::sra_parser::LogRecord>,
    Option<SraStatus>,
) {
    let t = trimmed(line);
    if t.len() == 0 {
        (m, Seq::empty(), None)
    } else if t == prompt_marker() {
        let f = flush_step(m, ts);
        (f.0, f.1, None)
    } else {
        let p = parse_step(m, line, ts);
        (p.0, p.1, marker_status(line))
    }
}

/// Handles one line read from the worker's output stream; see [`pump_step`].
pub fn pump_output_line(parser: &mut SraLogParser, line: &str) -> (r: (
    Vec<ParsedLog>,
    Option<SraStatus>,
))
    ensures
        exists|ts: Seq<char>|
            #![trigger pump_step(old(parser)@, line@, ts)]
            {
                &&& ts.len() == 8
                &&& final(parser)@ == pump_step(old(parser)@, line@, ts).0
                &&& r.0.deep_view() == pump_step(old(parser)@, line@, ts).1
                &&& r.1 == pump_step(old(parser)@, line@, ts).2
            },
{
    let ghost pre = parser@;
    let v = chars_of(line);
    let (lo, hi) = trim_bounds(&v);
    if lo == hi {
        let out: Vec<ParsedLog> = Vec::new();
        proof {
            let ts = seq!['0', '0', ':', '0', '0', ':', '0', '0'];
            assert(ts.len() == 8);
            assert(out.deep_view() =~= Seq::<crate::sra_parser::LogRecord>::empty());
            assert(parser@ == pump_step(pre, line@, ts).0);
            assert(out.deep_view() == pump_step(pre, line@, ts).1);
        }
        return (out, None);
    }
    if range_equals(&v, lo, hi, &prompt_marker_chars()) {
        let out = parser.flush();
        proof {
            let ts = choose|ts: Seq<char>|
                #![trigger flush_step(pre, ts)]
                {
                    &&& ts.len() == 8
                    &&& parser@ == flush_step(pre, ts).0
                    &&& out.deep_view() == flush_step(pre, ts).1
                };
            assert(parser@ == pump_step(pre, line@, ts).0);
            assert(out.deep_view() == pump_step(pre, line@, ts).1);
        }
        return (out, None);
    }
    let out = parser.parse_line(line);
    let markers = scan_status_markers(line);
    proof {
        let ts = choose|ts: Seq<char>|
            #![trigger parse_step(pre, line@, ts)]
            {
                &&& ts.len() == 8
                &&& parser@ == parse_step(pre, line@, ts).0
                &&& out.deep_view() == parse_step(pre, line@, ts).1
            };
        assert(parser@ == pump_step(pre, line@, ts).0);
        assert(out.deep_view() == pump_step(pre, line@, ts).1);
        assert(markers == pump_step(pre, line@, ts).2);
    }
    (out, markers)
}

/// Handles one line read from the worker's error stream: empty lines pass,
/// everything else is parsed; the error stream carries no markers.
pub fn pump_error_line(parser: &mut SraLogParser, line: &str) -> (out: Vec<ParsedLog>)
    ensures
        trimmed(line@).len() == 0 ==> final(parser)@ == old(parser)@ && out@.len() == 0,
        trimmed(line@).len() > 0 ==> exists|ts: Seq<char>|
            #![trigger parse_step(old(parser)@, line@, ts)]
            {
                &&& ts.len() == 8
                &&& final(parser)@ == parse_step(old(parser)@, line@, ts).0
                &&& out.deep_view() == parse_step(old(parser)@, line@, ts).1
            },
{
    let v = chars_of(line);
    let (lo, hi) = trim_bounds(&v);
    if lo == hi {
        return Vec::new();
    }
    parser.parse_line(line)
}

} // verus!
