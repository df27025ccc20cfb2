//! The specfile model: playlist and chapter albums, their tracks, and the
//! rules read from them (which URLs were made by a fetch, file identifiers, tags).

use std::hash::Hasher;

use vstd::prelude::*;

use crate::fetch::{has_key, youtube_host};
use crate::tag::Tag;
use crate::text::{
    first_chars, hex16, hex16_string, join, join_strings, parsed_u64, parses_as_u64, same_text,
    take_chars, views,
};
use crate::url::{
    pair_views, soundcloud_track_id, soundcloud_track_prefix, url_host, url_path_segments,
    url_query_pairs, url_scheme, youtube_watch_id, youtube_watch_prefix, Url,
};

verus! {

/// The hash that `rustc_hash::FxHasher::with_seed(seed as usize)` gives after
/// `write` of the UTF-8 bytes of `text`, then `finish`, on a target whose
/// pointers have `pointer_bits` bits (the multiplier, the rotation and the width
/// of the seed all depend on it). The way the byte hash mixes wide products is
/// also chosen by the target's architecture (`sparc64` and `wasm64` differ from
/// other 64-bit targets), so the name stands for the hash of the target that the
/// library is built for: within one build it depends on `seed` and `text` alone.
pub uninterp spec fn fx_hash_of(seed: u64, text: Seq<char>, pointer_bits: u32) -> u64;

/// Hashes the bytes of `text` with `rustc_hash::FxHasher::with_seed(seed)`
/// (`write`, then `finish`). Claims: the result is `fx_hash_of(seed, text,
/// usize::BITS)`.
#[verifier::external_body]
fn fx_hash(seed: u64, text: &str) -> (r: u64)
    ensures
        r == fx_hash_of(seed, text@, usize::BITS),
{
    let mut hasher = rustc_hash::FxHasher::with_seed(seed as usize);
    hasher.write(text.as_bytes());
    hasher.finish()
}

/// The id of a playlist track with this URL, which names its downloaded file:
/// the hash of the URL (seeded with [`TRACK_ID_SEED`]) in sixteen lower-case
/// hexadecimal digits.
pub open spec fn track_file_name(url: Seq<char>) -> Seq<char> {
    hex16(fx_hash_of(TRACK_ID_SEED, url, usize::BITS))
}

/// The file id of a chapter album with this URL, which names its downloaded
/// file: the hash of the URL (seeded with [`CHAPTERS_ID_SEED`]) in sixteen
/// lower-case hexadecimal digits.
pub open spec fn chapters_file_name(url: Seq<char>) -> Seq<char> {
    hex16(fx_hash_of(CHAPTERS_ID_SEED, url, usize::BITS))
}

/// The seed of playlist track identifiers.
pub const TRACK_ID_SEED: u64 = 0x243f6a8885a308d3u64;

/// The seed of chapter album file identifiers.
pub const CHAPTERS_ID_SEED: u64 = 0x24af6a1405a3c813u64;

/// The target format of audio files: FLAC or MP3, with their tag formats.
#[derive(Debug, Clone, Copy, PartialEq, Eq, Structural)]
pub enum Format {
    Flac,
    Mp3,
}

impl Format {
    /// The `ffmpeg` audio codec for the format.
    pub fn codec(&self) -> (r: &'static str)
        ensures
            r@ == match self {
                Format::Flac => "flac"@,
                Format::Mp3 => "libmp3lame"@,
            },
    {
        match self {
            Format::Flac => "flac",
            Format::Mp3 => "libmp3lame",
        }
    }

    /// The format's file extension.
    pub fn ext(&self) -> (r: &'static str)
        ensures
            r@ == match self {
                Format::Flac => "flac"@,
                Format::Mp3 => "mp3"@,
            },
    {
        match self {
            Format::Flac => "flac",
            Format::Mp3 => "mp3",
        }
    }

    /// The format's preferred quality.
    pub fn quality(&self) -> (r: &'static str)
        ensures
            r@ == match self {
                Format::Flac => "8"@,
                Format::Mp3 => "2"@,
            },
    {
        match self {
            Format::Flac => "8",
            Format::Mp3 => "2",
        }
    }

    /// The format's display name.
    pub fn name(&self) -> (r: &'static str)
        ensures
            r@ == match self {
                Format::Flac => "FLAC"@,
                Format::Mp3 => "MP3"@,
            },
    {
        match self {
            Format::Flac => "FLAC",
            Format::Mp3 => "MP3",
        }
    }
}

/// The file extension of a format.
pub open spec fn ext_of(target: Format) -> Seq<char> {
    match target {
        Format::Flac => "flac"@,
        Format::Mp3 => "mp3"@,
    }
}

/// The header of a playlist specfile.
#[derive(Debug)]
pub struct PlaylistHeader {
    pub id: String,
    pub title: String,
    pub release_year: String,
    pub album_artists: Vec<String>,
    pub genre: String,
    pub track_total: u32,
    pub cover: Url,
}

/// A playlist track, part of the playlist spec.
#[derive(Debug)]
pub struct PlaylistTrack {
    pub url: Url,
    pub title: String,
    pub artists: Vec<String>,
    pub track_num: u32,
}

/// A playlist specfile.
#[derive(Debug)]
pub struct Playlist {
    pub header: PlaylistHeader,
    pub tracks: Vec<PlaylistTrack>,
}

/// The header of a chapters specfile.
#[derive(Debug)]
pub struct ChaptersHeader {
    pub id: String,
    pub url: Url,
    pub title: String,
    pub release_year: String,
    pub album_artists: Vec<String>,
    pub genre: String,
    pub cover: Url,
}

/// A chapter track, part of the chapters spec. Its time range stays with the
/// caller, which hands it to `ffmpeg`.
#[derive(Debug)]
pub struct ChapterTrack {
    pub title: String,
    pub artists: Vec<String>,
}

/// A chapters specfile: one video split into tracks by its chapters.
#[derive(Debug)]
pub struct Chapters {
    pub header: ChaptersHeader,
    pub tracks: Vec<ChapterTrack>,
}

/// The SoundCloud host of track API URLs.
pub open spec fn soundcloud_api_host() -> Seq<char> {
    "api-v2.soundcloud.com"@
}

/// Whether a YouTube URL names exactly one video: its only query pair is `v`.
pub open spec fn single_video(u: Seq<char>) -> bool {
    has_key(url_query_pairs(u), "v"@) && url_query_pairs(u).len() == 1
}

/// Whether a playlist track URL is a file or a former output of fetch: a
/// `file` URL, a single YouTube video, or a SoundCloud `tracks/<number>` API URL.
pub open spec fn track_url_ok(u: Seq<char>) -> bool {
    if url_scheme(u) == "file"@ {
        true
    } else if url_host(u) == Some(youtube_host()) {
        single_video(u)
    } else if url_host(u) == Some(soundcloud_api_host()) {
        match url_path_segments(u) {
            Some(segs) => segs.len() == 2 && segs[0] == "tracks"@ && parsed_u64(segs[1]).is_some(),
            None => false,
        }
    } else {
        false
    }
}

/// A chapter album's URL is accepted exactly when it is a YouTube URL whose
/// query is one pair, a `v` pair (a single video): a URL without a `v` pair,
/// such as a playlist URL, or with more pairs than the `v` pair, is refused.
pub proof fn lemma_chapters_url_accepted(u: Seq<char>)
    ensures
        chapters_url_ok(u) == (url_host(u) == Some("www.youtube.com"@) && url_query_pairs(u).len()
            == 1 && url_query_pairs(u)[0].0 == "v"@),
        chapters_url_ok(u) ==> (exists|i: int|
            0 <= i < url_query_pairs(u).len() && url_query_pairs(u)[i].0 == "v"@),
        (forall|i: int| 0 <= i < url_query_pairs(u).len() ==> url_query_pairs(u)[i].0 != "v"@)
            ==> !chapters_url_ok(u),
{
    if url_query_pairs(u).len() == 1 && url_query_pairs(u)[0].0 == "v"@ {
        assert(has_key(url_query_pairs(u), "v"@));
    }
}

/// A playlist track's URL is accepted exactly when it is a `file` URL, a YouTube
/// URL whose query is one `v` pair, or a SoundCloud API URL whose path is
/// `tracks/<n>` for a decimal `n` that fits in 64 bits; any other host is refused.
pub proof fn lemma_track_url_accepted(u: Seq<char>)
    ensures
        url_scheme(u) == "file"@ ==> track_url_ok(u),
        url_scheme(u) != "file"@ && url_host(u) == Some("www.youtube.com"@) ==> (track_url_ok(u) == (
        url_query_pairs(u).len() == 1 && url_query_pairs(u)[0].0 == "v"@)),
        url_scheme(u) != "file"@ && url_host(u) == Some("api-v2.soundcloud.com"@) ==> (track_url_ok(u)
            == (url_path_segments(u) matches Some(segs) && segs.len() == 2 && segs[0] == "tracks"@
            && parsed_u64(segs[1]) is Some)),
        url_scheme(u) != "file"@ && url_host(u) != Some("www.youtube.com"@) && url_host(u) != Some(
            "api-v2.soundcloud.com"@,
        ) ==> !track_url_ok(u),
{
    reveal_strlit("api-v2.soundcloud.com");
    reveal_strlit("www.youtube.com");
    assert("api-v2.soundcloud.com"@.len() != "www.youtube.com"@.len());
    if url_query_pairs(u).len() == 1 && url_query_pairs(u)[0].0 == "v"@ {
        assert(has_key(url_query_pairs(u), "v"@));
    }
}

/// The URLs that a fetch writes for tracks are `https` URLs on hosts other than
/// YouTube's, for SoundCloud's.
proof fn lemma_fetched_scheme(s: Seq<char>)
    requires
        youtube_watch_id(s) is Some || soundcloud_track_id(s) is Some,
    ensures
        url_scheme(s) == "https"@,
        url_scheme(s) != "file"@,
        soundcloud_api_host() != youtube_host(),
{
    reveal_strlit("https");
    reveal_strlit("file");
    reveal_strlit("https://www.youtube.com/watch?v=");
    reveal_strlit("https://api-v2.soundcloud.com/tracks/");
    reveal_strlit("api-v2.soundcloud.com");
    reveal_strlit("www.youtube.com");
    let p = if youtube_watch_id(s) is Some {
        youtube_watch_prefix()
    } else {
        soundcloud_track_prefix()
    };
    assert(s.take(p.len() as int) == p);
    assert forall|j: int| 0 <= j < 5 implies s[j] != ':' by {
        assert(s[j] == s.take(p.len() as int)[j]);
    }
    assert(s[5] == s.take(p.len() as int)[5]);
    crate::text::lemma_index_from(s, ':', 0);
    assert(crate::text::index_from(s, ':', 0) == 5);
    assert(s.take(5) =~= "https"@);
    assert("api-v2.soundcloud.com"@.len() != "www.youtube.com"@.len());
}

/// Whether a chapters URL is a former output of fetch: a single YouTube video.
pub open spec fn chapters_url_ok(u: Seq<char>) -> bool {
    url_host(u) == Some(youtube_host()) && single_video(u)
}

/// The tag of a track, from its own title and artists, its number, the album's
/// total, and the album header's title, genre, artists and release year (at most
/// four characters of it).
pub open spec fn tag_of(
    t: Tag,
    title: Seq<char>,
    artists: Seq<String>,
    track: u32,
    track_total: u32,
    album_title: Seq<char>,
    genre: Seq<char>,
    album_artists: Seq<String>,
    release_year: Seq<char>,
) -> bool {
    &&& t.title@ == title
    &&& t.album_title@ == album_title
    &&& t.track == track
    &&& t.track_total == track_total
    &&& t.genre@ == genre
    &&& t.artists@ == join(views(artists), ", "@)
    &&& t.album_artists@ == join(views(album_artists), ", "@)
    &&& t.release_year@ == first_chars(release_year, 4)
}

/// Whether a URL's query pairs are exactly one, with key `v`.
fn is_single_video(u: &Url) -> (r: bool)
    ensures
        r == single_video(u@),
        youtube_watch_id(u@) is Some ==> r,
{
    let pairs = u.query_pairs();
    let has_v = crate::fetch::contains_key(&pairs, "v");
    proof {
        assert(pair_views(pairs@).len() == pairs@.len());
        if youtube_watch_id(u@) is Some {
            assert(url_query_pairs(u@)[0].0 == "v"@);
        }
    }
    has_v && pairs.len() == 1
}

/// Builds a tag from its parts.
fn build_tag(
    title: &String,
    artists: &Vec<String>,
    track: u32,
    track_total: u32,
    album_title: &String,
    genre: &String,
    album_artists: &Vec<String>,
    release_year: &String,
) -> (t: Tag)
    ensures
        tag_of(
            t,
            title@,
            artists@,
            track,
            track_total,
            album_title@,
            genre@,
            album_artists@,
            release_year@,
        ),
{
    Tag {
        title: title.clone(),
        album_title: album_title.clone(),
        track,
        track_total,
        genre: genre.clone(),
        artists: join_strings(artists, ", "),
        album_artists: join_strings(album_artists, ", "),
        release_year: take_chars(release_year.as_str(), 4),
    }
}

impl Playlist {
    /// The playlist's "user" ID.
    pub fn id(&self) -> (r: &str)
        ensures
            r@ == self.header.id@,
    {
        self.header.id.as_str()
    }

    /// The playlist's title.
    pub fn title(&self) -> (r: &str)
        ensures
            r@ == self.header.title@,
    {
        self.header.title.as_str()
    }

    /// The cover URL.
    pub fn cover_url(&self) -> (r: &Url)
        ensures
            r@ == self.header.cover@,
    {
        &self.header.cover
    }

    /// The playlist's tracks.
    pub fn tracks(&self) -> (r: &Vec<PlaylistTrack>)
        ensures
            r@ == self.tracks@,
    {
        &self.tracks
    }
}

impl PlaylistTrack {
    /// The track's URL.
    pub fn url(&self) -> (r: &Url)
        ensures
            r@ == self.url@,
    {
        &self.url
    }

    /// The track's title.
    pub fn title(&self) -> (r: &str)
        ensures
            r@ == self.title@,
    {
        self.title.as_str()
    }

    /// The track's id, the file name of its downloads and copies: the `FxHasher`
    /// hash (seeded with [`TRACK_ID_SEED`]) of the URL, as sixteen lower-case
    /// hexadecimal digits. The URL is not validated.
    pub fn id(&self) -> (r: String)
        ensures
            r@ == track_file_name(self.url@),
    {
        hex16_string(fx_hash(TRACK_ID_SEED, self.url.as_str()))
    }

    /// Whether the URL is a file or a former output of fetch. Every URL that a
    /// fetch writes for a track passes: a YouTube video URL with a plain id, or a
    /// SoundCloud track API URL with a plain decimal id.
    pub fn is_url_ok(&self) -> (r: bool)
        ensures
            r == track_url_ok(self.url@),
            youtube_watch_id(self.url@) is Some ==> r,
            soundcloud_track_id(self.url@) matches Some(id) ==> (parsed_u64(id) is Some ==> r),
    {
        proof {
            if youtube_watch_id(self.url@) is Some || soundcloud_track_id(self.url@) is Some {
                lemma_fetched_scheme(self.url@);
            }
        }
        let scheme = self.url.scheme();
        if same_text(scheme.as_str(), "file") {
            return true;
        }
        if self.url.host_is("www.youtube.com") {
            is_single_video(&self.url)
        } else if self.url.host_is("api-v2.soundcloud.com") {
            match self.url.path_segments() {
                Some(segs) => {
                    let ghost vs = views(segs@);
                    proof {
                        if soundcloud_track_id(self.url@) is Some {
                            assert(vs.len() == segs@.len());
                            assert(vs == seq!["tracks"@, soundcloud_track_id(self.url@)->0]);
                        }
                    }
                    if segs.len() == 2 {
                        assert(vs[0] == segs@[0]@ && vs[1] == segs@[1]@);
                        same_text(segs[0].as_str(), "tracks") && parses_as_u64(segs[1].as_str())
                    } else {
                        false
                    }
                },
                None => false,
            }
        } else {
            false
        }
    }

    /// The tag of this track in `parent`.
    pub fn tag(&self, parent: &Playlist) -> (r: Tag)
        ensures
            tag_of(
                r,
                self.title@,
                self.artists@,
                self.track_num,
                parent.header.track_total,
                parent.header.title@,
                parent.header.genre@,
                parent.header.album_artists@,
                parent.header.release_year@,
            ),
    {
        build_tag(
            &self.title,
            &self.artists,
            self.track_num,
            parent.header.track_total,
            &parent.header.title,
            &parent.header.genre,
            &parent.header.album_artists,
            &parent.header.release_year,
        )
    }
}

impl Chapters {
    /// The chapter album's "user" ID.
    pub fn id(&self) -> (r: &str)
        ensures
            r@ == self.header.id@,
    {
        self.header.id.as_str()
    }

    /// The source video URL.
    pub fn url(&self) -> (r: &Url)
        ensures
            r@ == self.header.url@,
    {
        &self.header.url
    }

    /// The cover URL.
    pub fn cover_url(&self) -> (r: &Url)
        ensures
            r@ == self.header.cover@,
    {
        &self.header.cover
    }

    /// The file ID that names the album's files: the `FxHasher` hash (seeded with
    /// [`CHAPTERS_ID_SEED`]) of the URL, as sixteen lower-case hexadecimal digits.
    /// The URL is not validated.
    pub fn file_id(&self) -> (r: String)
        ensures
            r@ == chapters_file_name(self.header.url@),
    {
        hex16_string(fx_hash(CHAPTERS_ID_SEED, self.header.url.as_str()))
    }

    /// Whether the URL is a former output of fetch.
    pub fn is_url_ok(&self) -> (r: bool)
        ensures
            r == chapters_url_ok(self.header.url@),
    {
        self.header.url.host_is("www.youtube.com") && is_single_video(&self.header.url)
    }

    /// The chapter album's title.
    pub fn title(&self) -> (r: &str)
        ensures
            r@ == self.header.title@,
    {
        self.header.title.as_str()
    }

    /// The chapter tracks.
    pub fn tracks(&self) -> (r: &Vec<ChapterTrack>)
        ensures
            r@ == self.tracks@,
    {
        &self.tracks
    }
}

impl ChapterTrack {
    /// The track's title.
    pub fn title(&self) -> (r: &str)
        ensures
            r@ == self.title@,
    {
        self.title.as_str()
    }

    /// The tag of this track in `parent`; `tracks` is `(track_num, track_total)`.
    pub fn tag(&self, tracks: (u32, u32), parent: &Chapters) -> (r: Tag)
        ensures
            tag_of(
                r,
                self.title@,
                self.artists@,
                tracks.0,
                tracks.1,
                parent.header.title@,
                parent.header.genre@,
                parent.header.album_artists@,
                parent.header.release_year@,
            ),
    {
        build_tag(
            &self.title,
            &self.artists,
            tracks.0,
            tracks.1,
            &parent.header.title,
            &parent.header.genre,
            &parent.header.album_artists,
            &parent.header.release_year,
        )
    }
}

/// A specfile of either kind.
#[derive(Debug)]
pub enum Spec {
    Playlist(Playlist),
    Chapters(Chapters),
}

/// The kind of a specfile, told by its top-level table names.
#[derive(Debug, Clone, Copy, PartialEq, Eq, Structural)]
pub enum SpecKind {
    Playlist,
    Chapters,
}

/// Specfile errors: reading, writing, (de)serializing. Paths and the causes'
/// messages are kept as text.
#[derive(Debug)]
pub enum SpecError {
    /// Serializing the spec with this ID failed, for this reason.
    Serialization(String, String),
    /// Deserializing the specfile at this path failed, for this reason.
    Deserialization(String, String),
    /// An I/O error while doing this (`reading`, `creating`, `writing`) at this path, for this reason.
    IoError(String, String, String),
    /// The specfile at this path has no known top-level table.
    UnknownFormat(String),
}

impl Spec {
    /// Tells the kind of the specfile whose top-level keys are `keys`: a
    /// `playlist` table makes a playlist, else a `chapters` table makes chapters,
    /// else the format of the file at `path` is unknown.
    pub fn detect_kind(keys: &Vec<String>, path: &str) -> (r: Result<SpecKind, SpecError>)
        ensures
            views(keys@).contains("playlist"@) ==> r == Ok::<SpecKind, SpecError>(SpecKind::Playlist),
            !views(keys@).contains("playlist"@) && views(keys@).contains("chapters"@) ==> r == Ok::<
                SpecKind,
                SpecError,
            >(SpecKind::Chapters),
            !views(keys@).contains("playlist"@) && !views(keys@).contains("chapters"@) ==> (match r {
                Err(SpecError::UnknownFormat(p)) => p@ == path@,
                _ => false,
            }),
    {
        if crate::fetch::contains_text(keys, "playlist") {
            Ok(SpecKind::Playlist)
        } else if crate::fetch::contains_text(keys, "chapters") {
            Ok(SpecKind::Chapters)
        } else {
            Err(SpecError::UnknownFormat(path.to_owned()))
        }
    }

    /// Tells the kind of the specfile whose raw contents are `bytes` and which
    /// was read from `path`: bytes that are no TOML document give
    /// `Deserialization` with that path (and the parser's message); otherwise
    /// the top-level keys of the document decide, as in `detect_kind`.
    pub fn spec_kind_of(bytes: &[u8], path: &str) -> (r: Result<SpecKind, SpecError>)
        ensures
            toml_top_keys(bytes@) is None ==> (match r {
                Err(SpecError::Deserialization(p, _)) => p@ == path@,
                _ => false,
            }),
            toml_top_keys(bytes@) matches Some(keys) ==> {
                &&& keys.contains("playlist"@) ==> r == Ok::<SpecKind, SpecError>(SpecKind::Playlist)
                &&& !keys.contains("playlist"@) && keys.contains("chapters"@) ==> r == Ok::<
                    SpecKind,
                    SpecError,
                >(SpecKind::Chapters)
                &&& !keys.contains("playlist"@) && !keys.contains("chapters"@) ==> (match r {
                    Err(SpecError::UnknownFormat(p)) => p@ == path@,
                    _ => false,
                })
            },
    {
        match toml_keys_of(bytes) {
            Ok(keys) => Spec::detect_kind(&keys, path),
            Err(message) => Err(SpecError::Deserialization(path.to_owned(), message)),
        }
    }
}

/// The names of the top-level entries of the TOML document that `bytes` holds,
/// as `toml::from_slice::<toml::Table>` reads them (in the table's order), or
/// `None` where that call fails (bytes that are no UTF-8, or no TOML document).
pub uninterp spec fn toml_top_keys(bytes: Seq<u8>) -> Option<Seq<Seq<char>>>;

/// Parses `bytes` with `toml::from_slice` into a `toml::Table` and hands out its
/// keys, or the parser's error message. Claims: the keys are
/// `toml_top_keys(bytes)`, and an error comes exactly where that is `None`.
/// What the message says is left unsaid.
#[verifier::external_body]
fn toml_keys_of(bytes: &[u8]) -> (r: Result<Vec<String>, String>)
    ensures
        match r {
            Ok(keys) => toml_top_keys(bytes@) == Some(views(keys@)),
            Err(_) => toml_top_keys(bytes@) is None,
        },
{
    match toml::from_slice::<toml::Table>(bytes) {
        Ok(table) => Ok(table.keys().cloned().collect()),
        Err(e) => Err(e.to_string()),
    }
}

} // verus!
