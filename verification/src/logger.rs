//! The log record sink: structured log entries, a bounded in-memory buffer
//! of the most recent entries, and the formatting of the line that mirrors
//! each entry into the backing log file. Writing that line to disk, and
//! handing entries to a live listener, happen outside the library.

use vstd::prelude::*;
use crate::clock::{now_file_stamp, now_rfc3339};
use crate::text::range_equals;

verus! {

/// Fixed capacity of the in-memory log buffer: the sink keeps this many of
/// the most recent entries, evicting the oldest first.
pub const LOG_BUFFER_CAPACITY: usize = 1000;

/// Severity of a log entry. `MSG` marks freeform text blocks assembled from
/// untagged worker output or submitted commands.
#[derive(Debug, Clone, Copy, PartialEq, Eq, Structural)]
pub enum LogLevel {
    INFO,
    WARN,
    ERR,
    TRACE,
    DEBUG,
    SUCCESS,
    MSG,
}

/// The fixed label under which each level appears in the log file.
pub open spec fn level_label(l: LogLevel) -> Seq<char> {
    match l {
        LogLevel::INFO => "INFO"@,
        LogLevel::WARN => "WARN"@,
        LogLevel::ERR => "ERR"@,
        LogLevel::TRACE => "TRACE"@,
        LogLevel::DEBUG => "DEBUG"@,
        LogLevel::SUCCESS => "SUCCESS"@,
        LogLevel::MSG => "MSG"@,
    }
}

impl LogLevel {
    pub fn as_str(&self) -> (r: &'static str)
        ensures
            r@ == level_label(*self),
    {
        match self {
            LogLevel::INFO => "INFO",
            LogLevel::WARN => "WARN",
            LogLevel::ERR => "ERR",
            LogLevel::TRACE => "TRACE",
            LogLevel::DEBUG => "DEBUG",
            LogLevel::SUCCESS => "SUCCESS",
            LogLevel::MSG => "MSG",
        }
    }
}

/// Which producer an entry came from: the supervisor itself, the worker
/// process, or the user interface.
#[derive(Debug, Clone, Copy, PartialEq, Eq, Structural)]
pub enum LogSource {
    Backend,
    Process,
    Frontend,
}

/// The fixed label under which each source is shown.
pub open spec fn source_label(s: LogSource) -> Seq<char> {
    match s {
        LogSource::Backend => "后端"@,
        LogSource::Process => "进程端"@,
        LogSource::Frontend => "前端"@,
    }
}

impl LogSource {
    pub fn as_str(&self) -> (r: &'static str)
        ensures
            r@ == source_label(*self),
    {
        match self {
            LogSource::Backend => "后端",
            LogSource::Process => "进程端",
            LogSource::Frontend => "前端",
        }
    }
}

/// Mathematical image of a [`LogMessage`].
pub ghost struct LogMessageModel {
    pub source: LogSource,
    pub level: LogLevel,
    pub message: Seq<char>,
    pub time: Seq<char>,
}

/// One structured log entry. Immutable once created.
#[derive(Debug)]
pub struct LogMessage {
    pub source: LogSource,
    pub level: LogLevel,
    pub message: String,
    /// Creation time as an RFC 3339 text.
    pub time: String,
}

impl View for LogMessage {
    type V = LogMessageModel;

    open spec fn view(&self) -> LogMessageModel {
        LogMessageModel {
            source: self.source,
            level: self.level,
            message: self.message@,
            time: self.time@,
        }
    }
}

impl DeepView for LogMessage {
    type V = LogMessageModel;

    open spec fn deep_view(&self) -> LogMessageModel {
        self.view()
    }
}

impl Clone for LogMessage {
    fn clone(&self) -> (r: Self)
        ensures
            r == *self,
    {
        LogMessage {
            source: self.source,
            level: self.level,
            message: self.message.clone(),
            time: self.time.clone(),
        }
    }
}

/// The buffer after `e` is appended: the oldest entry leaves first whenever
/// the fixed capacity would be exceeded.
pub open spec fn sink_append(
    buf: Seq<LogMessageModel>,
    e: LogMessageModel,
) -> Seq<LogMessageModel> {
    if buf.len() < LOG_BUFFER_CAPACITY {
        buf.push(e)
    } else {
        buf.push(e).drop_first()
    }
}

/// The model of the entry that `log` stores for the given arguments and
/// creation time.
pub open spec fn entry_model(
    source: LogSource,
    level: LogLevel,
    message: Seq<char>,
    time: Seq<char>,
) -> LogMessageModel {
    LogMessageModel { source, level, message, time }
}

/// The line mirrored into the log file for one entry.
pub open spec fn file_line_text(stamp: Seq<char>, level: LogLevel, message: Seq<char>) -> Seq<
    char,
> {
    stamp + " ["@ + level_label(level) + "] "@ + message + "\n"@
}

/// Law: the sink never grows beyond its fixed capacity, the newest entry is
/// always the last one kept, and appending to a full sink evicts exactly the
/// oldest entry.
pub proof fn lemma_sink_bounded(buf: Seq<LogMessageModel>, e: LogMessageModel)
    requires
        buf.len() <= LOG_BUFFER_CAPACITY,
    ensures
        sink_append(buf, e).len() <= LOG_BUFFER_CAPACITY,
        sink_append(buf, e).last() == e,
        buf.len() < LOG_BUFFER_CAPACITY ==> sink_append(buf, e) == buf.push(e),
        buf.len() == LOG_BUFFER_CAPACITY ==> sink_append(buf, e) =~= buf.drop_first().push(e),
{
}

/// The log record sink. Owns the bounded in-memory window of recent entries;
/// the backing file and any live listener are the caller's.
pub struct LogManager {
    log_buffer: Vec<LogMessage>,
}

impl View for LogManager {
    type V = Seq<LogMessageModel>;

    closed spec fn view(&self) -> Seq<LogMessageModel> {
        self.log_buffer.deep_view()
    }
}

impl LogManager {
    /// The buffer never holds more than the fixed capacity.
    pub open spec fn wf(&self) -> bool {
        self@.len() <= LOG_BUFFER_CAPACITY
    }

    pub fn new() -> (r: Self)
        ensures
            r.wf(),
            r@ == Seq::<LogMessageModel>::empty(),
    {
        let r = LogManager { log_buffer: Vec::new() };
        proof {
            assert(r.log_buffer.deep_view() =~= Seq::<LogMessageModel>::empty());
        }
        r
    }

    /// Appends one entry to the bounded buffer, evicting the oldest entry if
    /// the buffer is full, and returns the line that mirrors the entry into
    /// the backing log file. The buffer update comes first, so the entry is
    /// visible in memory even if the caller then fails to write the line.
    pub fn log(&mut self, source: LogSource, level: LogLevel, message: String) -> (line: String)
        requires
            old(self).wf(),
        ensures
            final(self).wf(),
            exists|iso: Seq<char>|
                final(self)@ == sink_append(
                    old(self)@,
                    #[trigger] entry_model(source, level, message@, iso),
                ),
            exists|stamp: Seq<char>|
                stamp.len() >= 19 && line@ == #[trigger] file_line_text(stamp, level, message@),
    {
        let iso = now_rfc3339();
        let ghost iso_view = iso@;
        let entry = LogMessage { source, level, message: message.clone(), time: iso };
        let ghost pre = self.log_buffer.deep_view();
        self.log_buffer.push(entry);
        proof {
            assert(self.log_buffer.deep_view() =~= pre.push(
                entry_model(source, level, message@, iso_view),
            ));
        }
        if self.log_buffer.len() > LOG_BUFFER_CAPACITY {
            self.log_buffer.remove(0);
            proof {
                assert(self.log_buffer.deep_view() =~= pre.push(
                    entry_model(source, level, message@, iso_view),
                ).drop_first());
            }
        }
        assert(self@ == sink_append(pre, entry_model(source, level, message@, iso_view)));
        let stamp = now_file_stamp();
        let ghost stamp_view = stamp@;
        let mut line = stamp;
        line.append(" [");
        line.append(level.as_str());
        line.append("] ");
        line.append(message.as_str());
        line.append("\n");
        proof {
            assert(line@ == file_line_text(stamp_view, level, message@));
        }
        line
    }

    /// How many entries the buffer currently holds.
    pub fn len(&self) -> (n: usize)
        ensures
            n == self@.len(),
    {
        self.log_buffer.len()
    }

    /// A copy of the buffer contents in insertion order.
    pub fn get_all_logs(&self) -> (r: Vec<LogMessage>)
        ensures
            r.deep_view() == self@,
    {
        let mut r: Vec<LogMessage> = Vec::new();
        let mut i: usize = 0;
        while i < self.log_buffer.len()
            invariant
                i <= self.log_buffer@.len(),
                r.deep_view() =~= self.log_buffer.deep_view().subrange(0, i as int),
            decreases self.log_buffer@.len() - i,
        {
            let ghost prev = r.deep_view();
            let c = self.log_buffer[i].clone();
            let ghost cm = c.deep_view();
            r.push(c);
            proof {
                assert(r.deep_view() =~= prev.push(cm));
                assert(prev.push(cm) =~= self.log_buffer.deep_view().subrange(0, i + 1));
            }
            i += 1;
        }
        proof {
            assert(self.log_buffer.deep_view().subrange(0, self.log_buffer@.len() as int)
                =~= self@);
        }
        r
    }
}

/// Records one entry through the given sink; see [`LogManager::log`].
pub fn log(manager: &mut LogManager, source: LogSource, level: LogLevel, message: String) -> (line:
    String)
    requires
        old(manager).wf(),
    ensures
        final(manager).wf(),
        exists|iso: Seq<char>|
            final(manager)@ == sink_append(
                old(manager)@,
                #[trigger] entry_model(source, level, message@, iso),
            ),
        exists|stamp: Seq<char>|
            stamp.len() >= 19 && line@ == #[trigger] file_line_text(stamp, level, message@),
{
    manager.log(source, level, message)
}

/// A copy of the sink's buffered entries, in insertion order.
pub fn get_all_logs(manager: &LogManager) -> (r: Vec<LogMessage>)
    ensures
        r.deep_view() == manager@,
{
    manager.get_all_logs()
}

/// The source named by a label from the user interface; unknown labels fall
/// back to the interface itself.
pub open spec fn spec_source_from_label(s: Seq<char>) -> LogSource {
    if s == "前端"@ {
        LogSource::Frontend
    } else if s == "后端"@ {
        LogSource::Backend
    } else if s == "进程端"@ {
        LogSource::Process
    } else {
        LogSource::Frontend
    }
}

pub fn log_source_from_label(label: &str) -> (r: LogSource)
    ensures
        r == spec_source_from_label(label@),
{
    let v = crate::text::chars_of(label);
    let n = v.len();
    if range_equals(&v, 0, n, &crate::text::chars_of("前端")) {
        proof {
            assert(v@.subrange(0, n as int) =~= v@);
        }
        LogSource::Frontend
    } else if range_equals(&v, 0, n, &crate::text::chars_of("后端")) {
        proof {
            assert(v@.subrange(0, n as int) =~= v@);
        }
        LogSource::Backend
    } else if range_equals(&v, 0, n, &crate::text::chars_of("进程端")) {
        proof {
            assert(v@.subrange(0, n as int) =~= v@);
        }
        LogSource::Process
    } else {
        proof {
            assert(v@.subrange(0, n as int) =~= v@);
        }
        LogSource::Frontend
    }
}

/// The level named by a label from the user interface; unknown labels fall
/// back to `INFO`.
pub open spec fn spec_level_from_label(s: Seq<char>) -> LogLevel {
    if s == "INFO"@ {
        LogLevel::INFO
    } else if s == "WARN"@ {
        LogLevel::WARN
    } else if s == "ERR"@ {
        LogLevel::ERR
    } else if s == "TRACE"@ {
        LogLevel::TRACE
    } else if s == "DEBUG"@ {
        LogLevel::DEBUG
    } else if s == "SUCCESS"@ {
        LogLevel::SUCCESS
    } else if s == "MSG"@ {
        LogLevel::MSG
    } else {
        LogLevel::INFO
    }
}

pub fn log_level_from_label(label: &str) -> (r: LogLevel)
    ensures
        r == spec_level_from_label(label@),
{
    let v = crate::text::chars_of(label);
    let n = v.len();
    proof {
        assert(v@.subrange(0, n as int) =~= v@);
    }
    if range_equals(&v, 0, n, &crate::text::chars_of("INFO")) {
        LogLevel::INFO
    } else if range_equals(&v, 0, n, &crate::text::chars_of("WARN")) {
        LogLevel::WARN
    } else if range_equals(&v, 0, n, &crate::text::chars_of("ERR")) {
        LogLevel::ERR
    } else if range_equals(&v, 0, n, &crate::text::chars_of("TRACE")) {
        LogLevel::TRACE
    } else if range_equals(&v, 0, n, &crate::text::chars_of("DEBUG")) {
        LogLevel::DEBUG
    } else if range_equals(&v, 0, n, &crate::text::chars_of("SUCCESS")) {
        LogLevel::SUCCESS
    } else if range_equals(&v, 0, n, &crate::text::chars_of("MSG")) {
        LogLevel::MSG
    } else {
        LogLevel::INFO
    }
}

} // verus!
