//! The plans of the commands: which URL a `fetch` fetches with which ID, and in
//! which order a `download` or `tag` run reads its specfiles and works on their
//! albums.

use vstd::prelude::*;

use itertools::{EitherOrBoth, Itertools};

use crate::cli::{fetch_mode_of, DownloadArgs, FetchArgs, FetchEnum, TagArgs};
use crate::url::Url;

verus! {

/// One element of a longest zip of two index ranges.
#[derive(Debug, Clone, Copy, PartialEq, Eq, Structural)]
pub enum Paired {
    Both(usize, usize),
    Left(usize),
    Right(usize),
}

/// The `k`-th element of the longest zip of `0..a` with `0..b`.
pub open spec fn zipped_at(a: int, b: int, k: int) -> Paired {
    if k < a && k < b {
        Paired::Both(k as usize, k as usize)
    } else if k < a {
        Paired::Left(k as usize)
    } else {
        Paired::Right(k as usize)
    }
}

/// Calls `Itertools::zip_longest` on `0..a` and `0..b`.
/// Claims, as the crate documents: `Both` while neither range is exhausted, then
/// `Left` for what remains of the first, or `Right` for what remains of the second.
#[verifier::external_body]
fn zip_longest_indices(a: usize, b: usize) -> (r: Vec<Paired>)
    ensures
        r@.len() == if a > b {
            a
        } else {
            b
        },
        forall|k: int| 0 <= k < r@.len() ==> #[trigger] r@[k] == zipped_at(a as int, b as int, k),
{
    (0..a).zip_longest(0..b).map(|p| match p {
        EitherOrBoth::Both(i, j) => Paired::Both(i, j),
        EitherOrBoth::Left(i) => Paired::Left(i),
        EitherOrBoth::Right(j) => Paired::Right(j),
    }).collect()
}

/// One step of a fetch.
#[derive(Debug)]
pub enum FetchStep {
    /// Fetch from this URL, naming the spec with this ID or automatically.
    Fetch { url: Url, id: Option<String> },
    /// This ID has no URL left; it is reported as unused.
    UnusedId(String),
}

/// The steps of a fetch, in order, all of one kind.
#[derive(Debug)]
pub struct FetchPlan {
    pub mode: FetchEnum,
    pub steps: Vec<FetchStep>,
}

/// Whether `step` is the `k`-th step for `urls` and `ids`: the `k`-th URL with
/// the `k`-th ID where there is one, else the `k`-th ID as unused.
pub open spec fn step_is(step: FetchStep, urls: Seq<Url>, ids: Seq<String>, k: int) -> bool {
    if k < urls.len() {
        match step {
            FetchStep::Fetch { url, id } => url@ == urls[k]@ && (if k < ids.len() {
                id == Some(ids[k])
            } else {
                id.is_none()
            }),
            _ => false,
        }
    } else {
        match step {
            FetchStep::UnusedId(id) => id == ids[k],
            _ => false,
        }
    }
}

/// Plans a fetch: the URLs are paired with the IDs in order; URLs without an ID
/// get an automatic one, and IDs without a URL are reported as unused.
pub fn fetch_impl(args: &FetchArgs) -> (r: FetchPlan)
    ensures
        r.mode == fetch_mode_of(args.mode, args.recursive),
        r.steps@.len() == if args.url@.len() > args.id@.len() {
            args.url@.len()
        } else {
            args.id@.len()
        },
        forall|k: int|
            0 <= k < r.steps@.len() ==> step_is(#[trigger] r.steps@[k], args.url@, args.id@, k),
{
    let mapping = zip_longest_indices(args.url.len(), args.id.len());
    let mut steps: Vec<FetchStep> = Vec::new();
    let mut k: usize = 0;
    while k < mapping.len()
        invariant
            k <= mapping@.len(),
            steps@.len() == k,
            mapping@.len() == if args.url@.len() > args.id@.len() {
                args.url@.len()
            } else {
                args.id@.len()
            },
            forall|j: int|
                0 <= j < mapping@.len() ==> #[trigger] mapping@[j] == zipped_at(
                    args.url@.len() as int,
                    args.id@.len() as int,
                    j,
                ),
            forall|j: int| 0 <= j < k ==> step_is(#[trigger] steps@[j], args.url@, args.id@, j),
        decreases mapping@.len() - k,
    {
        let step = match mapping[k] {
            Paired::Both(i, j) => FetchStep::Fetch {
                url: args.url[i].duplicate(),
                id: Some(args.id[j].clone()),
            },
            Paired::Left(i) => FetchStep::Fetch { url: args.url[i].duplicate(), id: None },
            Paired::Right(j) => FetchStep::UnusedId(args.id[j].clone()),
        };
        steps.push(step);
        k = k + 1;
    }
    FetchPlan { mode: args.fetch_mode(), steps }
}

/// One piece of work on the album that a specfile describes.
#[derive(Debug, Clone, Copy, PartialEq, Eq, Structural)]
pub enum AlbumWork {
    /// Download its tracks.
    Download,
    /// Convert (or split) the downloaded files.
    Postprocess,
    /// Copy and tag the converted files.
    Tag,
}

/// A step of a `download` or `tag` run.
#[derive(Debug, Clone, Copy, PartialEq, Eq, Structural)]
pub enum RunStep {
    /// Read the specfile with this index.
    Read(usize),
    /// Do the work with the second index on the album of the specfile with the first.
    Work(usize, usize),
    /// Stop: the step before failed, and its error is the run's.
    Stop,
    /// Every specfile has been worked through.
    Done,
}

/// A `download` or `tag` run: how many specfiles it reads, in order, and the
/// work it does on each album, in order.
#[derive(Debug)]
pub struct RunPlan {
    pub specs: usize,
    pub work: Vec<AlbumWork>,
}

/// The step that follows `step` when it succeeded, in a run over `specs`
/// specfiles with `m` pieces of work per album: each specfile is read, then its
/// album's work is done piece by piece, then the next specfile is read.
pub open spec fn step_after(specs: int, m: int, step: RunStep) -> RunStep {
    match step {
        RunStep::Read(i) => if m > 0 {
            RunStep::Work(i, 0)
        } else if i + 1 < specs {
            RunStep::Read((i + 1) as usize)
        } else {
            RunStep::Done
        },
        RunStep::Work(i, k) => if k + 1 < m {
            RunStep::Work(i, (k + 1) as usize)
        } else if i + 1 < specs {
            RunStep::Read((i + 1) as usize)
        } else {
            RunStep::Done
        },
        RunStep::Stop => RunStep::Stop,
        RunStep::Done => RunStep::Done,
    }
}

/// The order of a run: each specfile is read before its album's work; the pieces
/// of work on one album follow each other in order; after the last piece on an
/// album (or right after reading it, where there is no work) comes the reading
/// of the next specfile, so that every specfile is read whatever the amount of
/// work, and after the last album the run is done; a stopped or finished run
/// stays so.
pub proof fn lemma_run_order(specs: int, m: int, i: usize, k: usize)
    requires
        0 <= m <= usize::MAX,
        i < specs <= usize::MAX,
    ensures
        m > 0 ==> step_after(specs, m, RunStep::Read(i)) == RunStep::Work(i, 0),
        k + 1 < m ==> step_after(specs, m, RunStep::Work(i, k)) == RunStep::Work(i, (k + 1) as usize),
        m > 0 && k + 1 == m && i + 1 < specs ==> step_after(specs, m, RunStep::Work(i, k))
            == RunStep::Read((i + 1) as usize),
        m > 0 && k + 1 == m && i + 1 == specs ==> step_after(specs, m, RunStep::Work(i, k))
            == RunStep::Done,
        m == 0 && i + 1 < specs ==> step_after(specs, m, RunStep::Read(i)) == RunStep::Read(
            (i + 1) as usize,
        ),
        m == 0 && i + 1 == specs ==> step_after(specs, m, RunStep::Read(i)) == RunStep::Done,
        step_after(specs, m, RunStep::Stop) == RunStep::Stop,
        step_after(specs, m, RunStep::Done) == RunStep::Done,
{
}

/// A run never skips a specfile: from reading specfile `i`, the steps that follow
/// one by one on success are the `m` pieces of work on album `i`, in order, then
/// the reading of specfile `i + 1` (or the end of the run after the last one).
pub proof fn lemma_album_then_next(specs: int, m: int, i: usize, k: int)
    requires
        0 <= m <= usize::MAX,
        i < specs <= usize::MAX,
        0 <= k <= m,
    ensures
        steps_after(specs, m, RunStep::Read(i), k) == (if k < m {
            RunStep::Work(i, k as usize)
        } else if i + 1 < specs {
            RunStep::Read((i + 1) as usize)
        } else {
            RunStep::Done
        }),
    decreases k,
{
    if k > 0 {
        lemma_album_then_next(specs, m, i, k - 1);
    }
}

/// The step reached from `step` after `n + 1` successful steps.
pub open spec fn steps_after(specs: int, m: int, step: RunStep, n: int) -> RunStep
    decreases n,
{
    if n <= 0 {
        step_after(specs, m, step)
    } else {
        step_after(specs, m, steps_after(specs, m, step, n - 1))
    }
}

impl RunPlan {
    /// The first step: reading the first specfile, or done where there is none.
    pub fn first(&self) -> (r: RunStep)
        ensures
            r == (if self.specs > 0 {
                RunStep::Read(0)
            } else {
                RunStep::Done
            }),
    {
        if self.specs > 0 {
            RunStep::Read(0)
        } else {
            RunStep::Done
        }
    }

    /// The step after `step`, which succeeded where `ok` holds: a failure stops
    /// the run; else the run goes on with `step_after`.
    pub fn next(&self, step: RunStep, ok: bool) -> (r: RunStep)
        ensures
            !ok ==> r == RunStep::Stop,
            ok ==> r == step_after(self.specs as int, self.work@.len() as int, step),
    {
        if !ok {
            return RunStep::Stop;
        }
        let m = self.work.len();
        let specs = self.specs;
        match step {
            RunStep::Read(i) => {
                if m > 0 {
                    RunStep::Work(i, 0)
                } else if i < specs && specs - i > 1 {
                    RunStep::Read(i + 1)
                } else {
                    RunStep::Done
                }
            },
            RunStep::Work(i, k) => {
                if k < m && m - k > 1 {
                    RunStep::Work(i, k + 1)
                } else if i < specs && specs - i > 1 {
                    RunStep::Read(i + 1)
                } else {
                    RunStep::Done
                }
            },
            RunStep::Stop => RunStep::Stop,
            RunStep::Done => RunStep::Done,
        }
    }
}

/// Plans a `download` run: every specfile in order, and each album downloaded.
pub fn download_impl<P>(args: &DownloadArgs<P>) -> (r: RunPlan)
    ensures
        r.specs == args.spec@.len(),
        r.work@ == seq![AlbumWork::Download],
{
    let mut work: Vec<AlbumWork> = Vec::new();
    work.push(AlbumWork::Download);
    RunPlan { specs: args.spec.len(), work }
}

/// Plans a `tag` run: every specfile in order, and each album first
/// postprocessed, then tagged.
pub fn tag_impl<P>(args: &TagArgs<P>) -> (r: RunPlan)
    ensures
        r.specs == args.spec@.len(),
        r.work@ == seq![AlbumWork::Postprocess, AlbumWork::Tag],
{
    let mut work: Vec<AlbumWork> = Vec::new();
    work.push(AlbumWork::Postprocess);
    work.push(AlbumWork::Tag);
    RunPlan { specs: args.spec.len(), work }
}

} // verus!
