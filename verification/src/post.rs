//! Postprocessing with `ffmpeg`: output names, argument lists and log lines.

use vstd::prelude::*;

use crate::logger::Level;
use crate::specfile::{ext_of, track_file_name, Format, Playlist, PlaylistTrack};
use crate::text::{
    decimal, decimal_string, find_char_from, index_from, is_whitespace, lemma_decimal_injective,
    lemma_index_from, lemma_whitespace_end, all_digits, digits_value, lemma_decimal_value,
    lemma_decimal_len,
    same_text, skip_whitespace, trim_start, trimmed_start, whitespace_end,
};

verus! {

/// Postprocessing errors; paths and the causes' messages are kept as text.
#[derive(Debug)]
pub enum PostError {
    /// The file at this path cannot be checked, for this reason.
    FileNotFound(String, String),
    /// The file at this path does not exist (a broken symlink).
    BrokenPath(String),
    /// `ffmpeg` could not be run or waited for, for this reason.
    SubprocessError(String),
    /// `ffmpeg` ended with this exit status.
    SubprocessFailed(String),
}

/// One argument of an `ffmpeg` call: text, or the input or output file, whose
/// paths the caller supplies.
#[derive(Debug)]
pub enum FfmpegArg<S = String> {
    Text(S),
    InputFile,
    OutputFile,
}

impl View for FfmpegArg<String> {
    type V = FfmpegArg<Seq<char>>;

    open spec fn view(&self) -> FfmpegArg<Seq<char>> {
        match self {
            FfmpegArg::Text(s) => FfmpegArg::Text(s@),
            FfmpegArg::InputFile => FfmpegArg::InputFile,
            FfmpegArg::OutputFile => FfmpegArg::OutputFile,
        }
    }
}

/// The views of a list of arguments.
pub open spec fn arg_views(args: Seq<FfmpegArg<String>>) -> Seq<FfmpegArg<Seq<char>>> {
    args.map_values(|a: FfmpegArg<String>| a@)
}

/// The text argument `s`.
pub open spec fn text(s: Seq<char>) -> FfmpegArg<Seq<char>> {
    FfmpegArg::Text(s)
}

/// The arguments of every `ffmpeg` call: overwrite, no statistics, no banner,
/// and logs with repeated lines and levels shown.
pub open spec fn common_args() -> Seq<FfmpegArg<Seq<char>>> {
    seq![text("-y"@), text("-nostats"@), text("-hide_banner"@), text("-loglevel"@), text("repeat+level+info"@)]
}

/// The arguments from the input file on: audio only, no metadata, the target
/// codec and quality, then the output file.
pub open spec fn encode_args(target: Format) -> Seq<FfmpegArg<Seq<char>>> {
    let codec = match target {
        Format::Flac => "flac"@,
        Format::Mp3 => "libmp3lame"@,
    };
    let quality = match target {
        Format::Flac => "8"@,
        Format::Mp3 => "2"@,
    };
    seq![
        text("-i"@),
        FfmpegArg::InputFile,
        text("-ignore_unknown"@),
        text("-map"@),
        text("0:a"@),
        text("-map_metadata"@),
        text("-1"@),
        text("-c:a"@),
        text(codec),
        text("-q:a"@),
        text(quality),
        FfmpegArg::OutputFile
    ]
}

/// Appends a text argument.
fn push_text(args: &mut Vec<FfmpegArg>, s: &str)
    ensures
        arg_views(final(args)@) == arg_views(old(args)@).push(text(s@)),
{
    args.push(FfmpegArg::Text(s.to_owned()));
    proof {
        assert(arg_views(args@) =~= arg_views(old(args)@).push(text(s@)));
    }
}

/// Appends a file argument.
fn push_file(args: &mut Vec<FfmpegArg>, input: bool)
    ensures
        arg_views(final(args)@) == arg_views(old(args)@).push(
            if input {
                FfmpegArg::InputFile
            } else {
                FfmpegArg::OutputFile
            },
        ),
{
    if input {
        args.push(FfmpegArg::InputFile);
    } else {
        args.push(FfmpegArg::OutputFile);
    }
    proof {
        assert(arg_views(args@) =~= arg_views(old(args)@).push(
            if input {
                FfmpegArg::InputFile
            } else {
                FfmpegArg::OutputFile
            },
        ));
    }
}

/// Appends the common arguments.
fn push_common(args: &mut Vec<FfmpegArg>)
    ensures
        arg_views(final(args)@) == arg_views(old(args)@) + common_args(),
{
    let ghost start = arg_views(args@);
    push_text(args, "-y");
    push_text(args, "-nostats");
    push_text(args, "-hide_banner");
    push_text(args, "-loglevel");
    push_text(args, "repeat+level+info");
    proof {
        assert(arg_views(args@) =~= start + common_args());
    }
}

/// Appends the arguments from the input file on.
fn push_encode(args: &mut Vec<FfmpegArg>, target: Format)
    ensures
        arg_views(final(args)@) == arg_views(old(args)@) + encode_args(target),
{
    let ghost start = arg_views(args@);
    push_text(args, "-i");
    push_file(args, true);
    push_text(args, "-ignore_unknown");
    push_text(args, "-map");
    push_text(args, "0:a");
    push_text(args, "-map_metadata");
    push_text(args, "-1");
    push_text(args, "-c:a");
    push_text(args, target.codec());
    push_text(args, "-q:a");
    push_text(args, target.quality());
    push_file(args, false);
    proof {
        assert(arg_views(args@) =~= start + encode_args(target));
    }
}

/// The `ffmpeg` arguments that convert a whole file to `target`.
pub fn convert_args(target: Format) -> (r: Vec<FfmpegArg>)
    ensures
        arg_views(r@) == common_args() + encode_args(target),
{
    let mut args: Vec<FfmpegArg> = Vec::new();
    proof {
        assert(arg_views(args@) =~= Seq::<FfmpegArg<Seq<char>>>::empty());
    }
    push_common(&mut args);
    push_encode(&mut args, target);
    proof {
        assert(Seq::<FfmpegArg<Seq<char>>>::empty() + common_args() =~= common_args());
    }
    args
}

/// The `ffmpeg` arguments that cut the time range from `start` to `end` (in
/// seconds, as text) out of a file and convert it to `target`.
pub fn split_args(start: &str, end: &str, target: Format) -> (r: Vec<FfmpegArg>)
    ensures
        arg_views(r@) == common_args() + seq![text("-ss"@), text(start@), text("-to"@), text(end@)]
            + encode_args(target),
{
    let mut args: Vec<FfmpegArg> = Vec::new();
    proof {
        assert(arg_views(args@) =~= Seq::<FfmpegArg<Seq<char>>>::empty());
    }
    push_common(&mut args);
    push_text(&mut args, "-ss");
    push_text(&mut args, start);
    push_text(&mut args, "-to");
    push_text(&mut args, end);
    let ghost mid = arg_views(args@);
    push_encode(&mut args, target);
    proof {
        assert(mid =~= common_args() + seq![text("-ss"@), text(start@), text("-to"@), text(end@)]);
    }
    args
}

/// The name of the `index`-th (from zero) split track of a chapter album:
/// `<index + 1>_<file_id>.<ext>`.
pub open spec fn split_name(index: nat, file_id: Seq<char>, target: Format) -> Seq<char> {
    decimal(index + 1) + "_"@ + file_id + "."@ + match target {
        Format::Flac => "flac"@,
        Format::Mp3 => "mp3"@,
    }
}

/// The name of the `index`-th (from zero) split track of a chapter album.
pub fn split_file_name(index: u64, file_id: &str, target: Format) -> (r: String)
    requires
        index < u64::MAX,
    ensures
        r@ == split_name(index as nat, file_id@, target),
{
    let mut r = decimal_string(index + 1);
    r.append("_");
    r.append(file_id);
    r.append(".");
    r.append(target.ext());
    r
}

/// The name of a converted playlist track: `<track id>.<ext>`.
pub fn converted_file_name(track_id: &str, target: Format) -> (r: String)
    ensures
        r@ == track_id@ + "."@ + match target {
            Format::Flac => "flac"@,
            Format::Mp3 => "mp3"@,
        },
{
    let mut r = track_id.to_owned();
    r.append(".");
    r.append(target.ext());
    r
}

/// Scans the labels that open an `ffmpeg` log line, from `pos` on: after any
/// whitespace, a `[` that is closed by a later `]` is a label (kept as its start
/// and end positions) and the scan goes on after the `]`; anything else ends
/// the scan. Returns the last label and where the message starts.
pub open spec fn scan_labels(msg: Seq<char>, pos: nat, label: Option<(int, int)>) -> (
    Option<(int, int)>,
    int,
)
    decreases msg.len() - pos,
{
    let p = whitespace_end(msg, pos);
    if pos <= msg.len() && p < msg.len() && msg[p as int] == '[' {
        let e = index_from(msg, ']', p as int);
        if e < 0 {
            (label, pos as int)
        } else {
            proof {
                lemma_whitespace_end(msg, pos);
                lemma_index_from(msg, ']', p as int);
            }
            scan_labels(msg, (e + 1) as nat, Some(((p + 1) as int, e)))
        }
    } else {
        (label, pos as int)
    }
}

/// Scans the bracket pairs of a log line from `pos` on, wherever they stand: the
/// first `[` at or after `pos` that a later `]` closes is a label (kept as its
/// start and end positions) and the scan goes on after that `]`; a `[` that is
/// never closed, or no `[` at all, ends the scan. Returns the last label and
/// where the rest starts.
pub open spec fn scan_brackets(msg: Seq<char>, pos: nat, label: Option<(int, int)>) -> (
    Option<(int, int)>,
    int,
)
    decreases msg.len() - pos,
{
    let s = index_from(msg, '[', pos as int);
    if s < 0 {
        (label, pos as int)
    } else {
        let e = index_from(msg, ']', s);
        if e < 0 {
            (label, pos as int)
        } else {
            proof {
                lemma_index_from(msg, '[', pos as int);
                lemma_index_from(msg, ']', s);
            }
            scan_brackets(msg, (e + 1) as nat, Some((s + 1, e)))
        }
    }
}

/// The `(level, message)` of an `ffmpeg` log line: the last of the bracketed
/// labels that open the line, and what follows the labels without leading
/// whitespace. Where no label opens the line, the last bracket pair anywhere in
/// it is the level and what follows that pair the message; `None` where the
/// line holds no closed bracket pair.
pub open spec fn parsed_log_line(msg: Seq<char>) -> Option<(Seq<char>, Seq<char>)> {
    let (label, pos) = scan_labels(msg, 0, None);
    match label {
        Some((a, b)) => Some((msg.subrange(a, b), trimmed_start(msg.skip(pos)))),
        None => {
            let (found, rest) = scan_brackets(msg, 0, None);
            match found {
                None => None,
                Some((a, b)) => Some((msg.subrange(a, b), trimmed_start(msg.skip(rest)))),
            }
        },
    }
}

/// Parses an `ffmpeg` log line into `(level, message)`; the levels used are
/// `error`, `warning` and `info`. The level is the last of the bracketed labels
/// that open the line (such as `[mp3 @ 0x55] [warning]`); brackets within the
/// message stay in it. A line that opens with no label takes the last bracket
/// pair anywhere in it as its level, and what follows as its message. Returns
/// `None` where the line holds no closed bracket pair.
pub fn ffmpeg_log_parse(message: &str) -> (r: Option<(&str, &str)>)
    ensures
        match r {
            None => parsed_log_line(message@).is_none(),
            Some((level, msg)) => parsed_log_line(message@) == Some((level@, msg@)),
        },
{
    let n = message.unicode_len();
    let mut pos: usize = 0;
    let mut label: Option<(usize, usize)> = None;
    loop
        invariant
            pos <= n,
            n == message@.len(),
            label matches Some((a, b)) ==> a <= b <= n,
            scan_labels(message@, 0, None) == scan_labels(
                message@,
                pos as nat,
                match label {
                    Some((a, b)) => Some((a as int, b as int)),
                    None => None,
                },
            ),
        ensures
            pos <= n,
            label matches Some((a, b)) ==> a <= b <= n,
            scan_labels(message@, 0, None) == (
                match label {
                    Some((a, b)) => Some((a as int, b as int)),
                    None => None::<(int, int)>,
                },
                pos as int,
            ),
        decreases n - pos,
    {
        let p = skip_whitespace(message, pos);
        if p >= n || message.get_char(p) != '[' {
            break;
        }
        let end = match find_char_from(message, ']', p) {
            Some(e) => e,
            None => break,
        };
        proof {
            lemma_whitespace_end(message@, pos as nat);
            lemma_index_from(message@, ']', p as int);
            assert(end > p);
        }
        label = Some((p + 1, end));
        pos = end + 1;
    }
    if label.is_none() {
        pos = 0;
        loop
            invariant
                pos <= n,
                n == message@.len(),
                label matches Some((a, b)) ==> a <= b <= n,
                scan_brackets(message@, 0, None) == scan_brackets(
                    message@,
                    pos as nat,
                    match label {
                        Some((a, b)) => Some((a as int, b as int)),
                        None => None,
                    },
                ),
            ensures
                pos <= n,
                label matches Some((a, b)) ==> a <= b <= n,
                scan_brackets(message@, 0, None) == (
                    match label {
                        Some((a, b)) => Some((a as int, b as int)),
                        None => None::<(int, int)>,
                    },
                    pos as int,
                ),
            decreases n - pos,
        {
            let start = match find_char_from(message, '[', pos) {
                Some(s) => s,
                None => break,
            };
            proof {
                lemma_index_from(message@, '[', pos as int);
            }
            let end = match find_char_from(message, ']', start) {
                Some(e) => e,
                None => break,
            };
            proof {
                lemma_index_from(message@, ']', start as int);
            }
            label = Some((start + 1, end));
            pos = end + 1;
        }
    }
    match label {
        None => None,
        Some((a, b)) => {
            let level = message.substring_char(a, b);
            let rest = trim_start(message.substring_char(pos, n));
            proof {
                assert(message@.subrange(pos as int, n as int) =~= message@.skip(pos as int));
            }
            Some((level, rest))
        },
    }
}

/// The log record of an `ffmpeg` log line: `info` lines become trace records,
/// `warning` lines warnings and `error` lines errors, each of the message; other
/// lines and lines without a label give none.
pub fn ffmpeg_record(line: &str) -> (r: Option<(Level, &str)>)
    ensures
        match parsed_log_line(line@) {
            None => r.is_none(),
            Some((level, msg)) => if level == "info"@ {
                r matches Some((l, m)) && l == Level::Trace && m@ == msg
            } else if level == "warning"@ {
                r matches Some((l, m)) && l == Level::Warn && m@ == msg
            } else if level == "error"@ {
                r matches Some((l, m)) && l == Level::Error && m@ == msg
            } else {
                r.is_none()
            },
        },
{
    match ffmpeg_log_parse(line) {
        None => None,
        Some((level, msg)) => {
            if same_text(level, "info") {
                Some((Level::Trace, msg))
            } else if same_text(level, "warning") {
                Some((Level::Warn, msg))
            } else if same_text(level, "error") {
                Some((Level::Error, msg))
            } else {
                None
            }
        },
    }
}

/// Positions `a..b` of `m` are a bracketed label: a `[` just before, a `]` at
/// `b`, and no `]` between.
pub open spec fn bracketed_at(m: Seq<char>, a: int, b: int) -> bool {
    &&& 1 <= a <= b < m.len()
    &&& m[a - 1] == '['
    &&& m[b] == ']'
    &&& forall|j: int| a <= j < b ==> m[j] != ']'
}

/// The scan of opening labels keeps a bracketed label and ends after it.
proof fn lemma_scan_labels_shape(m: Seq<char>, pos: nat, label: Option<(int, int)>)
    requires
        pos <= m.len(),
        label matches Some((a, b)) ==> bracketed_at(m, a, b) && b < pos,
    ensures
        pos <= scan_labels(m, pos, label).1 <= m.len(),
        scan_labels(m, pos, label).0 matches Some((a, b)) ==> bracketed_at(m, a, b) && b < scan_labels(
            m,
            pos,
            label,
        ).1,
        label is Some ==> scan_labels(m, pos, label).0 is Some,
    decreases m.len() - pos,
{
    let p = whitespace_end(m, pos);
    lemma_whitespace_end(m, pos);
    if p < m.len() && m[p as int] == '[' {
        let e = index_from(m, ']', p as int);
        lemma_index_from(m, ']', p as int);
        if e >= 0 {
            lemma_scan_labels_shape(m, (e + 1) as nat, Some(((p + 1) as int, e)));
        }
    }
}

/// The scan of bracket pairs keeps a bracketed label and ends after it; it
/// finds one wherever a `[` at or after `pos` is closed later on.
proof fn lemma_scan_brackets_shape(m: Seq<char>, pos: nat, label: Option<(int, int)>)
    requires
        pos <= m.len(),
        label matches Some((a, b)) ==> bracketed_at(m, a, b) && b < pos,
    ensures
        pos <= scan_brackets(m, pos, label).1 <= m.len(),
        scan_brackets(m, pos, label).0 matches Some((a, b)) ==> bracketed_at(m, a, b) && b
            < scan_brackets(m, pos, label).1,
        label is Some ==> scan_brackets(m, pos, label).0 is Some,
        (exists|i: int, j: int| pos <= i < j < m.len() && m[i] == '[' && m[j] == ']')
            ==> scan_brackets(m, pos, label).0 is Some,
    decreases m.len() - pos,
{
    let s = index_from(m, '[', pos as int);
    lemma_index_from(m, '[', pos as int);
    if s >= 0 {
        let e = index_from(m, ']', s);
        lemma_index_from(m, ']', s);
        if e >= 0 {
            lemma_scan_brackets_shape(m, (e + 1) as nat, Some((s + 1, e)));
        } else {
            if exists|i: int, j: int| pos <= i < j < m.len() && m[i] == '[' && m[j] == ']' {
                let (i, j) = choose|i: int, j: int|
                    pos <= i < j < m.len() && m[i] == '[' && m[j] == ']';
                assert(s <= i);
                assert(m[j] != ']');
            }
        }
    } else {
        if exists|i: int, j: int| pos <= i < j < m.len() && m[i] == '[' && m[j] == ']' {
            let (i, j) = choose|i: int, j: int|
                pos <= i < j < m.len() && m[i] == '[' && m[j] == ']';
            assert(m[i] != '[');
        }
    }
}

/// What a parsed `ffmpeg` log line is made of: its level is the text of a
/// bracketed label of the line (no `]` inside), its message is what follows
/// some point after that label with its leading whitespace dropped, so it never
/// starts with whitespace; a line that holds a `[` closed by a later `]` always
/// parses, and a line without one never does. The result gives the label's
/// start and end and where the message's text starts.
pub proof fn lemma_log_line_shape(m: Seq<char>) -> (r: (int, int, int))
    ensures
        parsed_log_line(m) matches Some((level, msg)) ==> {
            &&& bracketed_at(m, r.0, r.1)
            &&& level == m.subrange(r.0, r.1)
            &&& r.1 < r.2 <= m.len()
            &&& msg == trimmed_start(m.skip(r.2))
            &&& msg.len() == 0 || !is_whitespace(msg[0])
        },
        (exists|i: int, j: int| 0 <= i < j < m.len() && m[i] == '[' && m[j] == ']') <==> parsed_log_line(
            m,
        ) is Some,
{
    lemma_scan_labels_shape(m, 0, None);
    lemma_scan_brackets_shape(m, 0, None);
    let (label, pos) = scan_labels(m, 0, None);
    let (found, rest) = scan_brackets(m, 0, None);
    let r = match label {
        Some((a, b)) => (a, b, pos),
        None => match found {
            Some((a, b)) => (a, b, rest),
            None => (0, 0, 0),
        },
    };
    if parsed_log_line(m) is Some {
        let t = m.skip(r.2);
        lemma_whitespace_end(t, 0);
        assert(m[r.0 - 1] == '[' && m[r.1] == ']');
    }
    r
}

/// Distinct tracks of one chapter album are split into distinct files.
pub proof fn lemma_split_names_distinct(i: nat, j: nat, file_id: Seq<char>, target: Format)
    requires
        i != j,
    ensures
        split_name(i, file_id, target) != split_name(j, file_id, target),
{
    let suffix = "_"@ + file_id + "."@ + match target {
        Format::Flac => "flac"@,
        Format::Mp3 => "mp3"@,
    };
    let a = decimal(i + 1);
    let b = decimal(j + 1);
    assert(split_name(i, file_id, target) =~= a + suffix);
    assert(split_name(j, file_id, target) =~= b + suffix);
    if a + suffix == b + suffix {
        assert(a.len() == b.len());
        assert(a =~= (a + suffix).take(a.len() as int));
        assert(b =~= (b + suffix).take(b.len() as int));
        lemma_decimal_injective(i + 1, j + 1);
    }
}

/// A split file's name starts with the track's number counted from one, in
/// decimal digits, then `_`, the album's file id, `.` and the target's
/// extension. The result is where the number ends.
pub proof fn lemma_split_name_parts(i: nat, file_id: Seq<char>, target: Format) -> (k: int)
    ensures
        0 < k < split_name(i, file_id, target).len(),
        all_digits(split_name(i, file_id, target).take(k)),
        digits_value(split_name(i, file_id, target).take(k)) == i + 1,
        split_name(i, file_id, target)[k] == '_',
        split_name(i, file_id, target).skip(k + 1) == file_id + "."@ + ext_of(target),
{
    reveal_strlit("_");
    let d = decimal(i + 1);
    let s = split_name(i, file_id, target);
    lemma_decimal_value(i + 1);
    lemma_decimal_len(i + 1);
    assert(s =~= d + ("_"@ + (file_id + "."@ + ext_of(target))));
    assert(s.take(d.len() as int) =~= d);
    assert(s.skip(d.len() + 1int) =~= file_id + "."@ + ext_of(target));
    d.len() as int
}

/// A conversion writes beside its input a file of the same name with the
/// target's extension added: `<input>.<ext>`.
pub proof fn lemma_convert_job_names(job: ConvertJob, t: PlaylistTrack, target: Format)
    requires
        convert_job_is(job, t, target),
    ensures
        job.output_name@ == job.input_name@ + "."@ + ext_of(target),
        job.input_name@ == track_file_name(t.url@),
{
}

/// The name of a playlist track's converted file: `<track id>.<ext>`.
pub open spec fn converted_name(url: Seq<char>, target: Format) -> Seq<char> {
    track_file_name(url) + "."@ + ext_of(target)
}

/// One conversion: the downloaded file `input_name` of the album directory is
/// converted into `output_name` beside it.
#[derive(Debug)]
pub struct ConvertJob {
    pub input_name: String,
    pub output_name: String,
}

/// Whether `job` converts the downloaded file of track `t`.
pub open spec fn convert_job_is(job: ConvertJob, t: PlaylistTrack, target: Format) -> bool {
    &&& job.input_name@ == track_file_name(t.url@)
    &&& job.output_name@ == converted_name(t.url@, target)
}

impl Playlist {
    /// The conversions, one per track in order: the file named by the track's id
    /// becomes `<id>.<ext>`.
    pub fn convert_plan(&self, target: Format) -> (r: Vec<ConvertJob>)
        ensures
            r@.len() == self.tracks@.len(),
            forall|i: int|
                0 <= i < r@.len() ==> convert_job_is(#[trigger] r@[i], self.tracks@[i], target),
    {
        let mut jobs: Vec<ConvertJob> = Vec::new();
        let mut i: usize = 0;
        while i < self.tracks.len()
            invariant
                i <= self.tracks@.len(),
                jobs@.len() == i,
                forall|j: int|
                    0 <= j < i ==> convert_job_is(#[trigger] jobs@[j], self.tracks@[j], target),
            decreases self.tracks@.len() - i,
        {
            let id = self.tracks[i].id();
            let output_name = converted_file_name(id.as_str(), target);
            jobs.push(ConvertJob { input_name: id, output_name });
            i = i + 1;
        }
        jobs
    }
}

/// Whether a downloaded file is removed after its conversion: exactly when it
/// was converted and the downloads are not kept. Missing files and failed
/// conversions are skipped and nothing is removed for them.
pub fn removes_download(converted: bool, keep: bool) -> (r: bool)
    ensures
        r == (converted && !keep),
{
    converted && !keep
}

/// The next step of splitting a chapter album into its tracks.
#[derive(Debug, Clone, Copy, PartialEq, Eq, Structural)]
pub enum SplitStep {
    /// Split out the track with this index (from zero).
    Split(usize),
    /// The last split failed: stop with its error.
    Fail,
    /// All tracks are split: remove the downloaded source file.
    RemoveSource,
    /// All tracks are split and the source is kept.
    Done,
}

/// Decides the next step of splitting a chapter album of `n` tracks, when `i`
/// tracks are split and the last split succeeded (`ok`): a failure stops the
/// album; otherwise the next track is split; after the last, the source file is
/// removed unless `keep`.
pub fn next_split(i: usize, n: usize, ok: bool, keep: bool) -> (r: SplitStep)
    ensures
        !ok ==> r == SplitStep::Fail,
        ok && i < n ==> r == SplitStep::Split(i),
        ok && i >= n ==> r == (if keep {
            SplitStep::Done
        } else {
            SplitStep::RemoveSource
        }),
{
    if !ok {
        SplitStep::Fail
    } else if i < n {
        SplitStep::Split(i)
    } else if keep {
        SplitStep::Done
    } else {
        SplitStep::RemoveSource
    }
}

} // verus!
