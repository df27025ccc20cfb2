//! Command-line options as plain values, and the decisions made from them.

use vstd::prelude::*;

use crate::logger::LevelFilter;
use crate::specfile::Format;
use crate::url::Url;

verus! {

/// How often `-v` and `-q` were given.
#[derive(Debug, Clone, Copy)]
pub struct Verbosity {
    pub verbose: u8,
    pub quiet: u8,
}

/// The logger filter that `verbose` steps up from `Info` and `quiet` steps down
/// after that, each step saturating at the ends.
pub open spec fn filter_rank(verbose: int, quiet: int) -> int {
    let up = if 3 + verbose > 5 {
        5
    } else {
        3 + verbose
    };
    if up - quiet < 0 {
        0
    } else {
        up - quiet
    }
}

/// How `-v` and `-q` move the filter: with neither it is `Info`; each `-v`
/// raises it one level, up to `Trace` at most; each `-q` then lowers it exactly
/// one level from where the `-v`s left it, down to `Off` at least. So `-q` once
/// gives `Warn`, twice `Error` (errors still shown), three times `Off`.
pub proof fn lemma_filter_steps(verbose: int, quiet: int)
    requires
        0 <= verbose,
        0 <= quiet,
    ensures
        filter_rank(0, 0) == LevelFilter::Info.rank(),
        filter_rank(verbose + 1, 0) == if filter_rank(verbose, 0) < LevelFilter::Trace.rank() {
            filter_rank(verbose, 0) + 1
        } else {
            LevelFilter::Trace.rank()
        },
        filter_rank(verbose, quiet + 1) == if filter_rank(verbose, quiet)
            > LevelFilter::Off.rank() {
            filter_rank(verbose, quiet) - 1
        } else {
            LevelFilter::Off.rank()
        },
        filter_rank(0, 1) == LevelFilter::Warn.rank(),
        filter_rank(0, 2) == LevelFilter::Error.rank(),
        filter_rank(0, 3) == LevelFilter::Off.rank(),
        0 <= filter_rank(verbose, quiet) <= 5,
{
}

impl Verbosity {
    /// The filter that should be applied to the logger.
    pub fn filter(&self) -> (r: LevelFilter)
        ensures
            r.rank() == filter_rank(self.verbose as int, self.quiet as int),
    {
        let mut filter = LevelFilter::Info;
        let mut i: u8 = 0;
        while i < self.verbose
            invariant
                i <= self.verbose,
                filter.rank() == if 3 + i > 5 {
                    5
                } else {
                    3 + i
                },
            decreases self.verbose - i,
        {
            filter = filter.increment_severity();
            i = i + 1;
        }
        let ghost up = filter.rank();
        let mut j: u8 = 0;
        while j < self.quiet
            invariant
                j <= self.quiet,
                up == if 3 + self.verbose > 5 {
                    5
                } else {
                    3 + self.verbose
                },
                filter.rank() == if up - j < 0 {
                    0
                } else {
                    up - j
                },
            decreases self.quiet - j,
        {
            filter = filter.decrement_severity();
            j = j + 1;
        }
        filter
    }
}

/// Which album kind to fetch; exactly one of the two is set.
#[derive(Debug, Clone, Copy)]
pub struct FetchMode {
    /// Fetch a single video's chapters as an album.
    pub chapters: bool,
    /// Fetch a playlist as an album.
    pub playlist: bool,
}

/// What a fetch does with each URL.
#[derive(Debug, Clone, Copy, PartialEq, Eq, Structural)]
pub enum FetchEnum {
    /// One chapters spec from one video.
    Chapters,
    /// One chapters spec from each video of a playlist.
    ChaptersRecursive,
    /// One playlist spec.
    Playlist,
}

/// The fetch options that decide what is fetched.
#[derive(Debug)]
pub struct FetchArgs {
    pub mode: FetchMode,
    /// With chapters, fetch every video of the playlist.
    pub recursive: bool,
    /// IDs for the specs of the URLs, in order.
    pub id: Vec<String>,
    /// The URLs to fetch from.
    pub url: Vec<Url>,
}

/// The fetch kind of the options: chapters (recursive where asked) when chapters
/// were asked for, else a playlist.
pub open spec fn fetch_mode_of(mode: FetchMode, recursive: bool) -> FetchEnum {
    if mode.chapters {
        if recursive {
            FetchEnum::ChaptersRecursive
        } else {
            FetchEnum::Chapters
        }
    } else {
        FetchEnum::Playlist
    }
}

impl FetchArgs {
    /// What a fetch does with each URL.
    pub fn fetch_mode(&self) -> (r: FetchEnum)
        ensures
            r == fetch_mode_of(self.mode, self.recursive),
    {
        if self.mode.chapters {
            if self.recursive {
                FetchEnum::ChaptersRecursive
            } else {
                FetchEnum::Chapters
            }
        } else {
            FetchEnum::Playlist
        }
    }
}

/// The download options: an output directory (else the current one) and the
/// specfiles of the albums to download; `P` is the type of paths.
#[derive(Debug)]
pub struct DownloadArgs<P> {
    pub outdir: Option<P>,
    pub spec: Vec<P>,
}

/// The tag options: the target format, the directory of the downloaded files and
/// the output directory (else the current one), whether to keep the downloaded
/// files, and the specfiles of the albums to tag; `P` is the type of paths.
#[derive(Debug)]
pub struct TagArgs<P> {
    pub target: Format,
    pub indir: Option<P>,
    pub outdir: Option<P>,
    pub keep: bool,
    pub spec: Vec<P>,
}

} // verus!
