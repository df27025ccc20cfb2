//! Tag data common to FLAC Vorbis comments and ID3.

use vstd::prelude::*;

use crate::download::{download_step_is, DownloadStep};
use crate::post::{
    convert_job_is, converted_file_name, converted_name, split_file_name, split_name, ConvertJob,
};
use crate::specfile::{chapters_file_name, ext_of, tag_of, Chapters, Format, Playlist, PlaylistTrack};
use crate::text::{
    all_digits, decimal_pad2, decimal_pad2_string, digits_value, first_chars, join, parse_i32,
    parsed_i32, push_char, views,
};

verus! {

/// Tag data, the same whatever the target format: only what both formats support.
#[derive(Debug)]
pub struct Tag {
    /// The track title.
    pub title: String,
    /// The title of the album.
    pub album_title: String,
    /// Track index.
    pub track: u32,
    /// Total tracks in the album.
    pub track_total: u32,
    /// Genre text (never an ID3 genre index).
    pub genre: String,
    /// Contributing artists joined with commas.
    pub artists: String,
    /// Album artists joined with commas.
    pub album_artists: String,
    /// Album release year; ID3 tags get it only where it is a number.
    pub release_year: String,
}

impl Tag {
    /// The year that an ID3 tag records: the release year where it parses as an
    /// `i32`, else none, and then no date frame is written.
    pub fn id3_year(&self) -> (r: Option<i32>)
        ensures
            match r {
                Some(y) => parsed_i32(self.release_year@) == Some(y as int),
                None => parsed_i32(self.release_year@).is_none(),
            },
    {
        parse_i32(self.release_year.as_str())
    }
}

/// The name of a tagged file: `<track, two digits at least>. <title>.<ext>`.
pub open spec fn tagged_name(track: u32, title: Seq<char>, target: Format) -> Seq<char> {
    decimal_pad2(track as nat) + ". "@ + title + "."@ + ext_of(target)
}

/// A tagged file's name starts with the track number in two digits at least,
/// then `. `, the title, `.` and the target's extension. The result is where
/// the number ends.
pub proof fn lemma_tagged_name_parts(track: u32, title: Seq<char>, target: Format) -> (k: int)
    ensures
        k >= 2,
        all_digits(tagged_name(track, title, target).take(k)),
        digits_value(tagged_name(track, title, target).take(k)) == track,
        tagged_name(track, title, target).skip(k) == ". "@ + title + "."@ + ext_of(target),
{
    let d = decimal_pad2(track as nat);
    crate::text::lemma_decimal_pad2_value(track as nat);
    let s = tagged_name(track, title, target);
    assert(s =~= d + (". "@ + title + "."@ + ext_of(target)));
    assert(s.take(d.len() as int) =~= d);
    assert(s.skip(d.len() as int) =~= ". "@ + title + "."@ + ext_of(target));
    d.len() as int
}

/// The name of the tagged file of `tag`.
pub fn tagged_file_name(tag: &Tag, target: Format) -> (r: String)
    ensures
        r@ == tagged_name(tag.track, tag.title@, target),
{
    let mut r = decimal_pad2_string(tag.track as u64);
    r.append(". ");
    r.append(tag.title.as_str());
    push_char(&mut r, '.');
    r.append(target.ext());
    proof {
        reveal_strlit(".");
        assert("."@ =~= seq!['.']);
    }
    r
}

/// One file to tag: copied from `input_name` in the input directory to
/// `output_name` in the output directory, then tagged with `tag`.
#[derive(Debug)]
pub struct TagJob {
    pub input_name: String,
    pub output_name: String,
    pub tag: Tag,
}

/// Whether `job` tags the `i`-th (from zero) track of chapter album `c`: its tag
/// is track `i + 1` of all of them, its input is the `i`-th split file, and it is
/// named after its number and title.
pub open spec fn chapter_tag_job(job: TagJob, c: Chapters, i: int, target: Format) -> bool {
    &&& tag_of(
        job.tag,
        c.tracks@[i].title@,
        c.tracks@[i].artists@,
        (i + 1) as u32,
        c.tracks@.len() as u32,
        c.header.title@,
        c.header.genre@,
        c.header.album_artists@,
        c.header.release_year@,
    )
    &&& job.input_name@ == split_name(i as nat, chapters_file_name(c.header.url@), target)
    &&& job.output_name@ == tagged_name(job.tag.track, job.tag.title@, target)
}

/// Whether `job` tags the `i`-th track of playlist `p`: its tag is the track's,
/// its input is the track's converted file, and it is named after its number and title.
pub open spec fn playlist_tag_job(job: TagJob, p: Playlist, i: int, target: Format) -> bool {
    &&& tag_of(
        job.tag,
        p.tracks@[i].title@,
        p.tracks@[i].artists@,
        p.tracks@[i].track_num,
        p.header.track_total,
        p.header.title@,
        p.header.genre@,
        p.header.album_artists@,
        p.header.release_year@,
    )
    &&& job.input_name@ == converted_name(p.tracks@[i].url@, target)
    &&& job.output_name@ == tagged_name(job.tag.track, job.tag.title@, target)
}

impl Chapters {
    /// The name of the `index`-th (from zero) split track file.
    pub fn split_file(&self, index: usize, target: Format) -> (r: String)
        requires
            index < self.tracks@.len(),
        ensures
            r@ == split_name(index as nat, chapters_file_name(self.header.url@), target),
    {
        let n = self.tracks.len();
        assert(index < n);
        split_file_name(index as u64, self.file_id().as_str(), target)
    }

    /// The files to tag, one per track in order: the `i`-th split track is
    /// tagged as track `i + 1` of all of them and named after its number and title.
    pub fn tag_plan(&self, target: Format) -> (r: Vec<TagJob>)
        requires
            self.tracks@.len() <= u32::MAX,
        ensures
            r@.len() == self.tracks@.len(),
            forall|i: int| 0 <= i < r@.len() ==> chapter_tag_job(#[trigger] r@[i], *self, i, target),
            forall|i: int|
                0 <= i < r@.len() ==> (#[trigger] r@[i]).tag.track == i + 1 && r@[i].tag.track_total
                    == self.tracks@.len(),
    {
        let file_id = self.file_id();
        let len = self.tracks.len();
        let mut jobs: Vec<TagJob> = Vec::new();
        let mut i: usize = 0;
        while i < len
            invariant
                i <= len,
                len == self.tracks@.len(),
                len <= u32::MAX,
                file_id@ == chapters_file_name(self.header.url@),
                jobs@.len() == i,
                forall|j: int| 0 <= j < i ==> chapter_tag_job(#[trigger] jobs@[j], *self, j, target),
            decreases len - i,
        {
            let tag = self.tracks[i].tag((i as u32 + 1, len as u32), self);
            let output_name = tagged_file_name(&tag, target);
            let input_name = split_file_name(i as u64, file_id.as_str(), target);
            jobs.push(TagJob { input_name, output_name, tag });
            i = i + 1;
        }
        jobs
    }
}

impl Playlist {
    /// The files to tag, one per track in order: the converted track file,
    /// tagged with the track's tag and named after its number and title.
    pub fn tag_plan(&self, target: Format) -> (r: Vec<TagJob>)
        ensures
            r@.len() == self.tracks@.len(),
            forall|i: int| 0 <= i < r@.len() ==> playlist_tag_job(#[trigger] r@[i], *self, i, target),
            forall|i: int|
                0 <= i < r@.len() ==> (#[trigger] r@[i]).tag.artists@ == join(
                    views(self.tracks@[i].artists@),
                    ", "@,
                ) && r@[i].tag.track == self.tracks@[i].track_num,
    {
        let mut jobs: Vec<TagJob> = Vec::new();
        let mut i: usize = 0;
        while i < self.tracks.len()
            invariant
                i <= self.tracks@.len(),
                jobs@.len() == i,
                forall|j: int| 0 <= j < i ==> playlist_tag_job(#[trigger] jobs@[j], *self, j, target),
            decreases self.tracks@.len() - i,
        {
            let t = &self.tracks[i];
            let tag = t.tag(self);
            let output_name = tagged_file_name(&tag, target);
            let input_name = converted_file_name(t.id().as_str(), target);
            jobs.push(TagJob { input_name, output_name, tag });
            i = i + 1;
        }
        jobs
    }
}

/// Each tag job of a chapter album tags its own chapter: the chapter's title and
/// artists (joined with `, `), the album's title, genre, artists and year (four
/// characters at most), and as track number its place from one, out of as many
/// tracks as the album has (the same total in every job). Its output is named
/// after that number and the chapter's title.
pub proof fn lemma_chapter_tag_fields(job: TagJob, c: Chapters, i: int, target: Format)
    requires
        0 <= i < c.tracks@.len() <= u32::MAX,
        chapter_tag_job(job, c, i, target),
    ensures
        job.tag.track == i + 1,
        job.tag.track_total == c.tracks@.len(),
        job.tag.title@ == c.tracks@[i].title@,
        job.tag.artists@ == join(views(c.tracks@[i].artists@), ", "@),
        job.tag.album_title@ == c.header.title@,
        job.tag.genre@ == c.header.genre@,
        job.tag.album_artists@ == join(views(c.header.album_artists@), ", "@),
        job.tag.release_year@ == first_chars(c.header.release_year@, 4),
        job.output_name@ == tagged_name((i + 1) as u32, c.tracks@[i].title@, target),
{
}

/// Each tag job of a playlist tags its own track, as that track's own tag does:
/// the track's title, artists (joined with `, `) and number, and the album's
/// title, genre, artists, track total and year (four characters at most). Its
/// input is the track's converted file and its output is named after the
/// track's number and title.
pub proof fn lemma_playlist_tag_fields(job: TagJob, p: Playlist, i: int, target: Format)
    requires
        0 <= i < p.tracks@.len(),
        playlist_tag_job(job, p, i, target),
    ensures
        job.tag.title@ == p.tracks@[i].title@,
        job.tag.artists@ == join(views(p.tracks@[i].artists@), ", "@),
        job.tag.track == p.tracks@[i].track_num,
        job.tag.track_total == p.header.track_total,
        job.tag.album_title@ == p.header.title@,
        job.tag.genre@ == p.header.genre@,
        job.tag.album_artists@ == join(views(p.header.album_artists@), ", "@),
        job.tag.release_year@ == first_chars(p.header.release_year@, 4),
        job.input_name@ == converted_name(p.tracks@[i].url@, target),
        job.output_name@ == tagged_name(p.tracks@[i].track_num, p.tracks@[i].title@, target),
{
}

/// Along a playlist track's way, each step works on the file that the step
/// before it made: download writes the file that conversion reads, and
/// conversion writes the file that tagging copies.
pub proof fn lemma_playlist_files_agree(
    p: Playlist,
    i: int,
    target: Format,
    step: DownloadStep,
    convert: ConvertJob,
    tag: TagJob,
)
    requires
        0 <= i < p.tracks@.len(),
        download_step_is(step, p.tracks@[i], i),
        convert_job_is(convert, p.tracks@[i], target),
        playlist_tag_job(tag, p, i, target),
    ensures
        step matches DownloadStep::Fetch { file_name, .. } ==> file_name@ == convert.input_name@,
        convert.output_name@ == tag.input_name@,
{
}

/// A chapter album's `i`-th split file, as postprocessing names it, is the file
/// that tagging copies for its `i`-th track.
pub proof fn lemma_chapter_files_agree(
    c: Chapters,
    i: int,
    target: Format,
    split_file: Seq<char>,
    tag: TagJob,
)
    requires
        0 <= i < c.tracks@.len(),
        split_file == split_name(i as nat, chapters_file_name(c.header.url@), target),
        chapter_tag_job(tag, c, i, target),
    ensures
        tag.input_name@ == split_file,
{
}

/// The MIME type that `infer::get` detects in `data`, if any.
pub uninterp spec fn inferred_mime(data: Seq<u8>) -> Option<Seq<char>>;

/// Calls `infer::get` on `data` and keeps the MIME type of what it detects.
/// Claims: the result is `inferred_mime(data)`.
#[verifier::external_body]
fn infer_mime(data: &[u8]) -> (r: Option<&'static str>)
    ensures
        match r {
            Some(m) => inferred_mime(data@) == Some(m@),
            None => inferred_mime(data@).is_none(),
        },
{
    infer::get(data).map(|t| t.mime_type())
}

/// The MIME type of cover art read from `source`: the detected type, or an error
/// naming `source` where none is detected.
pub fn cover_mime(data: &[u8], source: &str) -> (r: Result<&'static str, String>)
    ensures
        match r {
            Ok(m) => inferred_mime(data@) == Some(m@),
            Err(e) => inferred_mime(data@).is_none() && e@ == source@,
        },
{
    match infer_mime(data) {
        Some(m) => Ok(m),
        None => Err(source.to_owned()),
    }
}

} // verus!
