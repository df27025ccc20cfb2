//! Log levels and the rules that turn yt-dlp's and ffmpeg's messages into records.

use vstd::prelude::*;

use crate::text::{
    find_char_from, index_from, is_whitespace, lemma_index_from, lemma_whitespace_end, strip_prefix,
    trim_start, trimmed_start, whitespace_end,
};

verus! {

/// The level of a log record, from the most to the least severe.
#[derive(Debug, Clone, Copy, PartialEq, Eq, Structural)]
pub enum Level {
    Error,
    Warn,
    Info,
    Debug,
    Trace,
}

/// A verbosity filter: `Off`, or the least severe level that is let through.
#[derive(Debug, Clone, Copy, PartialEq, Eq, Structural)]
pub enum LevelFilter {
    Off,
    Error,
    Warn,
    Info,
    Debug,
    Trace,
}

impl Level {
    /// The level's rank: 1 for `Error` up to 5 for `Trace`.
    pub open spec fn rank(self) -> int {
        match self {
            Level::Error => 1,
            Level::Warn => 2,
            Level::Info => 3,
            Level::Debug => 4,
            Level::Trace => 5,
        }
    }

    /// The level's name.
    pub fn as_str(&self) -> (r: &'static str)
        ensures
            r@ == match self {
                Level::Error => "ERROR"@,
                Level::Warn => "WARN"@,
                Level::Info => "INFO"@,
                Level::Debug => "DEBUG"@,
                Level::Trace => "TRACE"@,
            },
    {
        match self {
            Level::Error => "ERROR",
            Level::Warn => "WARN",
            Level::Info => "INFO",
            Level::Debug => "DEBUG",
            Level::Trace => "TRACE",
        }
    }
}

impl LevelFilter {
    /// The filter's rank: 0 for `Off` up to 5 for `Trace`.
    pub open spec fn rank(self) -> int {
        match self {
            LevelFilter::Off => 0,
            LevelFilter::Error => 1,
            LevelFilter::Warn => 2,
            LevelFilter::Info => 3,
            LevelFilter::Debug => 4,
            LevelFilter::Trace => 5,
        }
    }

    /// The filter of a rank from 0 to 5.
    pub open spec fn of_rank(n: int) -> LevelFilter {
        if n <= 0 {
            LevelFilter::Off
        } else if n == 1 {
            LevelFilter::Error
        } else if n == 2 {
            LevelFilter::Warn
        } else if n == 3 {
            LevelFilter::Info
        } else if n == 4 {
            LevelFilter::Debug
        } else {
            LevelFilter::Trace
        }
    }

    /// The next more verbose filter; `Trace` stays `Trace`.
    pub fn increment_severity(&self) -> (r: LevelFilter)
        ensures
            r.rank() == if self.rank() < 5 {
                self.rank() + 1
            } else {
                5
            },
    {
        match self {
            LevelFilter::Off => LevelFilter::Error,
            LevelFilter::Error => LevelFilter::Warn,
            LevelFilter::Warn => LevelFilter::Info,
            LevelFilter::Info => LevelFilter::Debug,
            LevelFilter::Debug => LevelFilter::Trace,
            LevelFilter::Trace => LevelFilter::Trace,
        }
    }

    /// The next less verbose filter; `Off` stays `Off`.
    pub fn decrement_severity(&self) -> (r: LevelFilter)
        ensures
            r.rank() == if self.rank() > 0 {
                self.rank() - 1
            } else {
                0
            },
    {
        match self {
            LevelFilter::Off => LevelFilter::Off,
            LevelFilter::Error => LevelFilter::Off,
            LevelFilter::Warn => LevelFilter::Error,
            LevelFilter::Info => LevelFilter::Warn,
            LevelFilter::Debug => LevelFilter::Info,
            LevelFilter::Trace => LevelFilter::Debug,
        }
    }

    /// Whether a record of `level` passes the filter (`level <= filter`).
    pub fn allows(&self, level: Level) -> (r: bool)
        ensures
            r == (level.rank() <= self.rank()),
    {
        let rank: u8 = match self {
            LevelFilter::Off => 0,
            LevelFilter::Error => 1,
            LevelFilter::Warn => 2,
            LevelFilter::Info => 3,
            LevelFilter::Debug => 4,
            LevelFilter::Trace => 5,
        };
        let lv: u8 = match level {
            Level::Error => 1,
            Level::Warn => 2,
            Level::Info => 3,
            Level::Debug => 4,
            Level::Trace => 5,
        };
        lv <= rank
    }
}

/// A filter is determined by its rank.
pub proof fn lemma_filter_rank(f: LevelFilter)
    ensures
        0 <= f.rank() <= 5,
        LevelFilter::of_rank(f.rank()) == f,
{
}

/// Stepping a filter one way and back returns it, except at the ends, where
/// the first step does nothing.
pub proof fn lemma_increment_decrement(f: LevelFilter, g: LevelFilter, h: LevelFilter)
    requires
        f.rank() < 5,
        g.rank() == f.rank() + 1,
        h.rank() == g.rank() - 1,
    ensures
        h == f,
{
    lemma_filter_rank(f);
    lemma_filter_rank(h);
}

/// `s` without a leading `[label]`: when `s` starts with `[` and holds a `]`
/// later, what follows the first `]` with leading whitespace removed, else `s`.
pub open spec fn without_label(s: Seq<char>) -> Seq<char> {
    if s.len() > 0 && s[0] == '[' && index_from(s, ']', 1) >= 0 {
        trimmed_start(s.skip(index_from(s, ']', 1) + 1))
    } else {
        s
    }
}

/// Removing a label keeps an end of the text: text that does not open with `[`
/// is kept whole; a text that opens with `[` closed by a later `]` loses at
/// least the label, and what is left starts with no whitespace.
pub proof fn lemma_without_label(s: Seq<char>)
    ensures
        without_label(s).len() <= s.len(),
        without_label(s) == s.skip(s.len() - without_label(s).len()),
        s.len() == 0 || s[0] != '[' ==> without_label(s) == s,
        (s.len() > 0 && s[0] == '[' && exists|j: int| 1 <= j < s.len() && s[j] == ']') ==> {
            &&& without_label(s).len() + 2 <= s.len()
            &&& without_label(s).len() == 0 || !is_whitespace(without_label(s)[0])
        },
{
    if s.len() > 0 && s[0] == '[' {
        lemma_index_from(s, ']', 1);
        let e = index_from(s, ']', 1);
        if e >= 0 {
            let t = s.skip(e + 1);
            lemma_whitespace_end(t, 0);
            let w = whitespace_end(t, 0);
            assert(trimmed_start(t) =~= s.skip(e + 1 + w));
        } else {
            if exists|j: int| 1 <= j < s.len() && s[j] == ']' {
                let j = choose|j: int| 1 <= j < s.len() && s[j] == ']';
                assert(s[j] != ']');
            }
        }
    }
    assert(s.skip(0) =~= s);
}

/// Removes a leading `[label]` and the whitespace after it.
pub fn strip_label(input: &str) -> (r: &str)
    ensures
        r@ == without_label(input@),
{
    let n = input.unicode_len();
    if n > 0 && input.get_char(0) == '[' {
        if let Some(idx) = find_char_from(input, ']', 1) {
            proof {
                crate::text::lemma_index_from(input@, ']', 1);
            }
            return trim_start(input.substring_char(idx + 1, n));
        }
    }
    input
}

/// The yt-dlp logger's methods, as the records they produce. yt-dlp's debug
/// messages go one level down: `[debug] ` ones to trace, others to debug.
pub struct MDLogger;

impl MDLogger {
    /// The record of a yt-dlp debug message: a `[debug] ` prefix makes it a trace
    /// record of the rest, else it is a debug record; either way without its label.
    pub fn debug(msg: &str) -> (r: (Level, &str))
        ensures
            "[debug] "@.is_prefix_of(msg@) ==> r.0 == Level::Trace && r.1@ == without_label(
                msg@.skip(8),
            ),
            !"[debug] "@.is_prefix_of(msg@) ==> r.0 == Level::Debug && r.1@ == without_label(
                msg@,
            ),
    {
        proof {
            reveal_strlit("[debug] ");
        }
        match strip_prefix(msg, "[debug] ") {
            Some(m) => (Level::Trace, strip_label(m)),
            None => (Level::Debug, strip_label(msg)),
        }
    }

    /// The record of a yt-dlp warning: a warning record of the message.
    pub fn warning(msg: &str) -> (r: (Level, &str))
        ensures
            r.0 == Level::Warn,
            r.1@ == msg@,
    {
        (Level::Warn, msg)
    }

    /// The record of a yt-dlp error: an error record, of the rest without its label
    /// when the message starts with `ERROR: `, else of the message.
    pub fn error(msg: &str) -> (r: (Level, &str))
        ensures
            r.0 == Level::Error,
            "ERROR: "@.is_prefix_of(msg@) ==> r.1@ == without_label(msg@.skip(7)),
            !"ERROR: "@.is_prefix_of(msg@) ==> r.1@ == msg@,
    {
        proof {
            reveal_strlit("ERROR: ");
        }
        match strip_prefix(msg, "ERROR: ") {
            Some(m) => (Level::Error, strip_label(m)),
            None => (Level::Error, msg),
        }
    }
}

} // verus!
