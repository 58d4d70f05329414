//! The diagnostic log of a run: its levels, and which lines a logger writes
//! where.
use crate::agent::events::TranscriptEntry;
use crate::paths::{join, join_path};
use crate::provider::sse::{lines_of, text_lines};
use crate::text::{blank, chars_of, concat, is_blank, push_str, str_eq, string_of, string_views};
use vstd::prelude::*;

verus! {

/// Appends transcript entries to a session's JSONL file.
pub struct LogWriter;

impl LogWriter {
    /// What appending an entry writes and returns: its serialised text and a
    /// newline, and the entry's id; a failed serialisation is reported.
    pub fn append(entry: &TranscriptEntry, serialized: Result<String, String>) -> (r: Result<(String, String), String>)
        ensures
            match serialized {
                Ok(text) => r matches Ok((line, id)) && line@ == text@ + "\n"@ && id@ == entry.event_id@,
                Err(e) => r matches Err(m) && m@ == "failed to serialize event: "@ + e@,
            },
    {
        match serialized {
            Ok(text) => {
                let mut line = text;
                push_str(&mut line, "\n");
                Ok((line, entry.event_id.clone()))
            },
            Err(e) => Err(concat("failed to serialize event: ", e.as_str())),
        }
    }
}

/// The lines of `lines` that are not blank, in order.
pub open spec fn non_blank(lines: Seq<Seq<char>>) -> Seq<Seq<char>>
    decreases lines.len(),
{
    if lines.len() == 0 {
        Seq::empty()
    } else if is_blank(lines.last()) {
        non_blank(lines.drop_last())
    } else {
        non_blank(lines.drop_last()).push(lines.last())
    }
}

/// Reads transcript entries back from a session's JSONL file.
pub struct LogReader;

impl LogReader {
    /// The lines of a transcript that hold entries: every line, as
    /// `BufRead::lines` yields them, that is not blank.
    pub fn entry_lines(contents: &str) -> (r: Vec<String>)
        ensures
            string_views(r@) == non_blank(text_lines(contents@)),
    {
        let lines = lines_of(&chars_of(contents));
        let ghost lv = crate::text::views_of(lines@);
        let mut out: Vec<String> = Vec::new();
        let mut i: usize = 0;
        assert(lv.take(0) =~= Seq::<Seq<char>>::empty());
        assert(string_views(out@) =~= Seq::<Seq<char>>::empty());
        while i < lines.len()
            invariant
                i <= lines@.len(),
                lv == crate::text::views_of(lines@),
                string_views(out@) == non_blank(lv.take(i as int)),
            decreases lines@.len() - i,
        {
            let line = string_of(&lines[i]);
            assert(lv.take(i + 1).drop_last() =~= lv.take(i as int));
            assert(lv.take(i + 1).last() == lines@[i as int]@);
            if !blank(line.as_str()) {
                let ghost prev = out@;
                out.push(line);
                assert(string_views(out@) =~= string_views(prev).push(out@.last()@));
            }
            i = i + 1;
        }
        assert(lv.take(i as int) =~= lv);
        out
    }
}

/// How much a diagnostic logger records.
#[derive(Debug, Clone, Copy, PartialEq, Eq, Structural)]
pub enum LogLevel {
    Debug,
    Info,
    Warn,
    Error,
}

/// The order of levels: `Debug` lowest, `Error` highest.
pub open spec fn severity(l: LogLevel) -> nat {
    match l {
        LogLevel::Debug => 0,
        LogLevel::Info => 1,
        LogLevel::Warn => 2,
        LogLevel::Error => 3,
    }
}

/// The order of levels.
fn severity_of(l: LogLevel) -> (r: u8)
    ensures
        r == severity(l),
{
    match l {
        LogLevel::Debug => 0,
        LogLevel::Info => 1,
        LogLevel::Warn => 2,
        LogLevel::Error => 3,
    }
}

impl LogLevel {
    /// The level a configuration names: `debug`, else `Info`.
    pub fn from_config_str(s: Option<&str>) -> (l: LogLevel)
        ensures
            l == (match s {
                Some(t) => if t@ == "debug"@ {
                    LogLevel::Debug
                } else {
                    LogLevel::Info
                },
                None => LogLevel::Info,
            }),
    {
        match s {
            Some(t) => if str_eq(t, "debug") {
                LogLevel::Debug
            } else {
                LogLevel::Info
            },
            None => LogLevel::Info,
        }
    }
}

/// A diagnostic logger: the file it appends to, if any, and its level.
#[derive(Debug, Clone, PartialEq, Eq)]
pub struct DiagLogger {
    pub path: Option<String>,
    pub level: LogLevel,
}

/// One line a logger writes: the file, the level label, the event and its
/// detail.
#[derive(Debug, PartialEq, Eq)]
pub struct DiagEntry {
    pub path: String,
    pub level: String,
    pub event: String,
    pub detail: String,
}

/// The line a logger with file `path` and level `level` writes for an
/// entry of severity `at`, labelled `label`: none when it has no file or
/// the entry is below its level.
pub open spec fn entry_of(
    path: Option<String>,
    level: LogLevel,
    at: LogLevel,
    label: Seq<char>,
    event: Seq<char>,
    detail: Seq<char>,
) -> Option<(Seq<char>, Seq<char>, Seq<char>, Seq<char>)> {
    match path {
        Some(p) => if severity(level) <= severity(at) {
            Some((p@, label, event, detail))
        } else {
            None
        },
        None => None,
    }
}

/// The mathematical form of a written line.
pub open spec fn entry_view(e: Option<DiagEntry>) -> Option<(Seq<char>, Seq<char>, Seq<char>, Seq<char>)> {
    match e {
        Some(d) => Some((d.path@, d.level@, d.event@, d.detail@)),
        None => None,
    }
}

impl DiagLogger {
    /// A logger that writes `orchid.log` in `session_dir`.
    pub fn for_session(session_dir: &str, level: LogLevel) -> (l: DiagLogger)
        ensures
            l.path matches Some(p) && p@ == join_path(session_dir@, "orchid.log"@),
            l.level == level,
    {
        DiagLogger { path: Some(join(session_dir, "orchid.log")), level }
    }

    /// A logger that writes nothing.
    pub fn noop() -> (l: DiagLogger)
        ensures
            l.path is None,
            l.level == LogLevel::Info,
    {
        DiagLogger { path: None, level: LogLevel::Info }
    }

    /// The line of an entry of severity `at`.
    fn write(&self, at: LogLevel, label: &str, event: &str, detail: &str) -> (r: Option<DiagEntry>)
        ensures
            entry_view(r) == entry_of(self.path, self.level, at, label@, event@, detail@),
    {
        match &self.path {
            Some(p) => if severity_of(self.level) <= severity_of(at) {
                Some(
                    DiagEntry {
                        path: p.clone(),
                        level: label.to_owned(),
                        event: event.to_owned(),
                        detail: detail.to_owned(),
                    },
                )
            } else {
                None
            },
            None => None,
        }
    }

    /// The line of a debug entry.
    pub fn debug(&self, event: &str, detail: &str) -> (r: Option<DiagEntry>)
        ensures
            entry_view(r) == entry_of(self.path, self.level, LogLevel::Debug, "DEBUG"@, event@, detail@),
    {
        self.write(LogLevel::Debug, "DEBUG", event, detail)
    }

    /// The line of an info entry.
    pub fn info(&self, event: &str, detail: &str) -> (r: Option<DiagEntry>)
        ensures
            entry_view(r) == entry_of(self.path, self.level, LogLevel::Info, "INFO"@, event@, detail@),
    {
        self.write(LogLevel::Info, "INFO", event, detail)
    }

    /// The line of a warning.
    pub fn warn(&self, event: &str, detail: &str) -> (r: Option<DiagEntry>)
        ensures
            entry_view(r) == entry_of(self.path, self.level, LogLevel::Warn, "WARN"@, event@, detail@),
    {
        self.write(LogLevel::Warn, "WARN", event, detail)
    }

    /// The line of an error, written at every level.
    pub fn error(&self, event: &str, detail: &str) -> (r: Option<DiagEntry>)
        ensures
            entry_view(r) == entry_of(self.path, self.level, LogLevel::Error, "ERROR"@, event@, detail@),
    {
        self.write(LogLevel::Error, "ERROR", event, detail)
    }
}

} // verus!
