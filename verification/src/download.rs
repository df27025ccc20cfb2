//! What a download does with each track, and how it ends.

use vstd::prelude::*;

use crate::specfile::{
    chapters_url_ok, track_file_name, track_url_ok, Chapters, Playlist, PlaylistTrack,
};
use crate::text::same_text;
use crate::url::{url_scheme, Url};

verus! {

/// Download errors; the causes' messages are kept as text.
#[derive(Debug)]
pub enum DownloadError {
    /// yt-dlp raised a Python exception with this message.
    Python(String),
    /// An I/O error while doing this, for this reason.
    IoError(String, String),
    /// This URL is not a former output of fetch.
    InvalidURL(Url),
    /// Some tracks could not be copied or downloaded.
    Incomplete,
}

/// How a track's file is obtained.
#[derive(Debug, Clone, Copy, PartialEq, Eq, Structural)]
pub enum DownloadAction {
    /// Copied from the local file that its `file` URL names.
    Copy,
    /// Downloaded with yt-dlp.
    Download,
}

/// What a download does with one track of a playlist.
#[derive(Debug)]
pub enum DownloadStep {
    /// The track's URL is neither a file nor a former output of fetch: skipped.
    Skip { index: usize },
    /// The track is copied or downloaded to `file_name` in the output directory.
    Fetch { index: usize, action: DownloadAction, file_name: String },
}

/// Whether `step` is what a download does with track `t`, the `i`-th.
pub open spec fn download_step_is(step: DownloadStep, t: PlaylistTrack, i: int) -> bool {
    if !track_url_ok(t.url@) {
        step matches DownloadStep::Skip { index } && index == i
    } else {
        match step {
            DownloadStep::Fetch { index, action, file_name } => index == i && action == (if url_scheme(
                t.url@,
            ) == "file"@ {
                DownloadAction::Copy
            } else {
                DownloadAction::Download
            }) && file_name@ == track_file_name(t.url@),
            _ => false,
        }
    }
}

/// What a download does with a track: it skips the track exactly when the
/// track's URL is neither a file nor a former output of fetch; otherwise it
/// copies a `file` URL and downloads any other, in both cases to the file named
/// by the track's id; the step carries the track's index.
pub proof fn lemma_download_step(step: DownloadStep, t: PlaylistTrack, i: int)
    requires
        download_step_is(step, t, i),
    ensures
        step is Skip <==> !track_url_ok(t.url@),
        step matches DownloadStep::Skip { index } ==> index == i,
        step matches DownloadStep::Fetch { index, action, file_name } ==> {
            &&& index == i
            &&& (action == DownloadAction::Copy <==> url_scheme(t.url@) == "file"@)
            &&& file_name@ == track_file_name(t.url@)
        },
{
}

impl Playlist {
    /// What a download does with each track, in order: tracks whose URL is not a
    /// file or a former output of fetch are skipped; `file` URLs are copied, the
    /// others downloaded, each to the file named by the track's id
    /// ([`track_file_name`] of its URL).
    pub fn download_plan(&self) -> (r: Vec<DownloadStep>)
        ensures
            r@.len() == self.tracks@.len(),
            forall|i: int|
                0 <= i < r@.len() ==> download_step_is(#[trigger] r@[i], self.tracks@[i], i),
    {
        let mut steps: Vec<DownloadStep> = Vec::new();
        let mut i: usize = 0;
        while i < self.tracks.len()
            invariant
                i <= self.tracks@.len(),
                steps@.len() == i,
                forall|j: int|
                    0 <= j < i ==> download_step_is(#[trigger] steps@[j], self.tracks@[j], j),
            decreases self.tracks@.len() - i,
        {
            let t = &self.tracks[i];
            if !t.is_url_ok() {
                steps.push(DownloadStep::Skip { index: i });
            } else {
                let scheme = t.url.scheme();
                let action = if same_text(scheme.as_str(), "file") {
                    DownloadAction::Copy
                } else {
                    DownloadAction::Download
                };
                steps.push(DownloadStep::Fetch { index: i, action, file_name: t.id() });
            }
            i = i + 1;
        }
        steps
    }
}

impl Chapters {
    /// Checks that the chapter video can be downloaded: its URL must be a former
    /// output of fetch.
    pub fn download_check(&self) -> (r: Result<(), DownloadError>)
        ensures
            chapters_url_ok(self.header.url@) ==> r is Ok,
            !chapters_url_ok(self.header.url@) ==> (match r {
                Err(DownloadError::InvalidURL(u)) => u@ == self.header.url@,
                _ => false,
            }),
    {
        if self.is_url_ok() {
            Ok(())
        } else {
            Err(DownloadError::InvalidURL(self.header.url.duplicate()))
        }
    }
}

/// How a playlist download ends, given whether each copied or downloaded track
/// succeeded: complete when all did, else incomplete.
pub fn download_outcome(results: &Vec<bool>) -> (r: Result<(), DownloadError>)
    ensures
        (forall|i: int| 0 <= i < results@.len() ==> results@[i]) ==> r is Ok,
        !(forall|i: int| 0 <= i < results@.len() ==> results@[i]) ==> r matches Err(
            DownloadError::Incomplete,
        ),
{
    let mut i: usize = 0;
    while i < results.len()
        invariant
            i <= results@.len(),
            forall|j: int| 0 <= j < i ==> results@[j],
        decreases results@.len() - i,
    {
        if !results[i] {
            return Err(DownloadError::Incomplete);
        }
        i = i + 1;
    }
    Ok(())
}

} // verus!
