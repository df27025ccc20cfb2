//! Which URL a fetch asks for, and the rules that shape fetched specs.

use vstd::prelude::*;

use crate::text::{
    all_digits, decimal, decimal_string, digits_value, lemma_decimal_injective, push_char, same_text,
    views,
};
use crate::specfile::chapters_url_ok;
use crate::url::{
    pair_views, plain_char, plain_pair, soundcloud_track_id, soundcloud_track_prefix, url_host,
    url_path_segments, url_plain, url_query_pairs, url_set_path, url_set_query, youtube_watch_id,
    youtube_watch_prefix, Url,
};

verus! {

/// Why a URL cannot be fetched; each variant carries the URL's text.
#[derive(Debug)]
pub enum GetUrlError<S = String> {
    /// The URL names no playlist.
    NotPlaylist(S),
    /// The URL names no video.
    NotVideo(S),
    /// The URL cannot be a base, so it has no path to look into.
    Unsound(S),
    /// The site is not supported.
    Unsupported(S),
}

impl View for GetUrlError<String> {
    type V = GetUrlError<Seq<char>>;

    open spec fn view(&self) -> GetUrlError<Seq<char>> {
        match self {
            GetUrlError::NotPlaylist(s) => GetUrlError::NotPlaylist(s@),
            GetUrlError::NotVideo(s) => GetUrlError::NotVideo(s@),
            GetUrlError::Unsound(s) => GetUrlError::Unsound(s@),
            GetUrlError::Unsupported(s) => GetUrlError::Unsupported(s@),
        }
    }
}

impl GetUrlError<String> {
    /// The message that the error shows.
    pub fn message(&self) -> (r: String)
        ensures
            r@ == match self@ {
                GetUrlError::NotPlaylist(s) => seq!['`'] + s + "` is not a playlist URL"@,
                GetUrlError::NotVideo(s) => seq!['`'] + s + "` is not a video URL"@,
                GetUrlError::Unsound(s) => seq!['`'] + s
                    + "` is an unsound (we don't know what to do with it) URL"@,
                GetUrlError::Unsupported(s) => "fetching `"@ + s + "` is not supported"@,
            },
    {
        let mut r = String::new();
        match self {
            GetUrlError::NotPlaylist(s) => {
                push_char(&mut r, '`');
                r.append(s.as_str());
                r.append("` is not a playlist URL");
            },
            GetUrlError::NotVideo(s) => {
                push_char(&mut r, '`');
                r.append(s.as_str());
                r.append("` is not a video URL");
            },
            GetUrlError::Unsound(s) => {
                push_char(&mut r, '`');
                r.append(s.as_str());
                r.append("` is an unsound (we don't know what to do with it) URL");
            },
            GetUrlError::Unsupported(s) => {
                r.append("fetching `");
                r.append(s.as_str());
                r.append("` is not supported");
            },
        }
        proof {
            assert(seq![] + seq!['`'] =~= seq!['`']);
            assert(Seq::<char>::empty() + "fetching `"@ =~= "fetching `"@);
        }
        r
    }
}

/// The YouTube host.
pub open spec fn youtube_host() -> Seq<char> {
    "www.youtube.com"@
}

/// The SoundCloud host of playlist pages.
pub open spec fn soundcloud_host() -> Seq<char> {
    "soundcloud.com"@
}

/// Index of the first pair at or after `k` whose key is `key`, or -1.
pub open spec fn key_index_from(pairs: Seq<(Seq<char>, Seq<char>)>, key: Seq<char>, k: int) -> int
    decreases pairs.len() - k,
{
    if k < 0 || k >= pairs.len() {
        -1
    } else if pairs[k].0 == key {
        k
    } else {
        key_index_from(pairs, key, k + 1)
    }
}

/// The value of the first pair whose key is `key`.
pub open spec fn first_value(pairs: Seq<(Seq<char>, Seq<char>)>, key: Seq<char>) -> Option<
    Seq<char>,
> {
    let i = key_index_from(pairs, key, 0);
    if i < 0 {
        None
    } else {
        Some(pairs[i].1)
    }
}

/// The value found for a key is that of the first pair with the key: the result
/// is that pair's index, no pair before it has the key; there is no value
/// exactly when no pair has the key.
pub proof fn lemma_first_value(pairs: Seq<(Seq<char>, Seq<char>)>, key: Seq<char>) -> (i: int)
    ensures
        first_value(pairs, key) is None <==> (forall|j: int|
            0 <= j < pairs.len() ==> pairs[j].0 != key),
        first_value(pairs, key) matches Some(v) ==> {
            &&& 0 <= i < pairs.len()
            &&& pairs[i] == (key, v)
            &&& forall|j: int| 0 <= j < i ==> pairs[j].0 != key
        },
{
    lemma_key_index_from(pairs, key, 0);
    key_index_from(pairs, key, 0)
}

/// What `key_index_from` returns: the first pair at or after `k` with the key, or -1.
proof fn lemma_key_index_from(pairs: Seq<(Seq<char>, Seq<char>)>, key: Seq<char>, k: int)
    requires
        0 <= k,
    ensures
        key_index_from(pairs, key, k) == -1 || (k <= key_index_from(pairs, key, k) < pairs.len()
            && pairs[key_index_from(pairs, key, k)].0 == key),
        key_index_from(pairs, key, k) == -1 ==> forall|j: int|
            k <= j < pairs.len() ==> pairs[j].0 != key,
        forall|j: int| k <= j < key_index_from(pairs, key, k) ==> pairs[j].0 != key,
    decreases pairs.len() - k,
{
    if k < pairs.len() && pairs[k].0 != key {
        lemma_key_index_from(pairs, key, k + 1);
    }
}

/// Whether some pair has the key `key`.
pub open spec fn has_key(pairs: Seq<(Seq<char>, Seq<char>)>, key: Seq<char>) -> bool {
    exists|i: int| 0 <= i < pairs.len() && pairs[i].0 == key
}

/// The value of the first pair whose key is `key` (`find_map` over the pairs).
pub fn find_value(pairs: &Vec<(String, String)>, key: &str) -> (r: Option<String>)
    ensures
        match r {
            Some(v) => first_value(pair_views(pairs@), key@) == Some(v@),
            None => first_value(pair_views(pairs@), key@).is_none(),
        },
{
    let ghost ps = pair_views(pairs@);
    let mut i: usize = 0;
    while i < pairs.len()
        invariant
            i <= pairs@.len(),
            ps == pair_views(pairs@),
            key_index_from(ps, key@, 0) == key_index_from(ps, key@, i as int),
        decreases pairs@.len() - i,
    {
        if same_text(pairs[i].0.as_str(), key) {
            return Some(pairs[i].1.clone());
        }
        i = i + 1;
    }
    None
}

/// Whether some pair has the key `key`.
pub fn contains_key(pairs: &Vec<(String, String)>, key: &str) -> (r: bool)
    ensures
        r == has_key(pair_views(pairs@), key@),
{
    let ghost ps = pair_views(pairs@);
    let mut i: usize = 0;
    while i < pairs.len()
        invariant
            i <= pairs@.len(),
            ps == pair_views(pairs@),
            forall|j: int| 0 <= j < i ==> ps[j].0 != key@,
        decreases pairs@.len() - i,
    {
        if same_text(pairs[i].0.as_str(), key) {
            assert(ps[i as int].0 == key@);
            return true;
        }
        i = i + 1;
    }
    false
}

/// Whether one of `items` is `item`.
pub fn contains_text(items: &Vec<String>, item: &str) -> (r: bool)
    ensures
        r == views(items@).contains(item@),
{
    let ghost vs = views(items@);
    let mut i: usize = 0;
    while i < items.len()
        invariant
            i <= items@.len(),
            vs == views(items@),
            forall|j: int| 0 <= j < i ==> vs[j] != item@,
        decreases items@.len() - i,
    {
        if same_text(items[i].as_str(), item) {
            assert(vs[i as int] == item@);
            return true;
        }
        i = i + 1;
    }
    false
}

/// The playlist URL that a fetch of `u` asks for, or why there is none.
///
/// A YouTube URL needs a `list` query pair and becomes `/playlist?list=<id>`; a
/// SoundCloud URL, accepted only with `enable_sc`, needs a `sets` path segment
/// and is kept as it is.
pub open spec fn playlist_url_of(u: Seq<char>, enable_sc: bool) -> Result<
    Seq<char>,
    GetUrlError<Seq<char>>,
> {
    if url_host(u) == Some(youtube_host()) {
        match first_value(url_query_pairs(u), "list"@) {
            Some(id) => Ok(url_set_query(url_set_path(u, "playlist"@), "list="@ + id)),
            None => Err(GetUrlError::NotPlaylist(u)),
        }
    } else if url_host(u) == Some(soundcloud_host()) && enable_sc {
        match url_path_segments(u) {
            None => Err(GetUrlError::Unsound(u)),
            Some(segs) => if segs.contains("sets"@) {
                Ok(u)
            } else {
                Err(GetUrlError::NotPlaylist(u))
            },
        }
    } else {
        Err(GetUrlError::Unsupported(u))
    }
}

/// The video URL that a fetch of `u` asks for: a YouTube URL with a `v` query
/// pair becomes `/watch?v=<id>`.
pub open spec fn video_url_of(u: Seq<char>) -> Result<Seq<char>, GetUrlError<Seq<char>>> {
    if url_host(u) == Some(youtube_host()) {
        match first_value(url_query_pairs(u), "v"@) {
            Some(id) => Ok(url_set_query(url_set_path(u, "watch"@), "v="@ + id)),
            None => Err(GetUrlError::NotVideo(u)),
        }
    } else {
        Err(GetUrlError::Unsupported(u))
    }
}

/// Whether the first value of `key` in the query of `u`, if there is one, is plain.
pub open spec fn value_is_plain(u: Seq<char>, key: Seq<char>) -> bool {
    match first_value(url_query_pairs(u), key) {
        Some(id) => url_plain(id),
        None => true,
    }
}

/// The one-pair query `key=value`, for a one-letter or longer plain key and a
/// plain value, splits back into that key and value.
proof fn lemma_plain_pair(key: Seq<char>, value: Seq<char>)
    requires
        key.len() > 0,
        url_plain(key),
        url_plain(value),
    ensures
        plain_pair(key + "="@ + value) == Some((key, value)),
{
    reveal_strlit("=");
    let q = key + "="@ + value;
    assert(q[key.len() as int] == '=');
    assert forall|j: int| 0 <= j < key.len() implies q[j] != '=' by {
        assert(q[j] == key[j]);
        assert(plain_char(key[j]));
    }
    crate::text::lemma_index_from(q, '=', 0);
    assert(crate::text::index_from(q, '=', 0) == key.len());
    assert(q.take(key.len() as int) =~= key);
    assert(q.skip(key.len() + 1int) =~= value);
}

/// The short path words that the rewrites set are plain.
proof fn lemma_plain_words()
    ensures
        url_plain("watch"@),
        url_plain("playlist"@),
        url_plain("v"@),
        url_plain("list"@),
        "watch"@.len() > 0,
        "playlist"@.len() > 0,
        "v"@.len() > 0,
        "list"@.len() > 0,
{
    reveal_strlit("watch");
    reveal_strlit("playlist");
    reveal_strlit("v");
    reveal_strlit("list");
    assert forall|i: int| 0 <= i < "watch"@.len() implies plain_char(#[trigger] "watch"@[i]) by {
        assert(i == 0 || i == 1 || i == 2 || i == 3 || i == 4);
    }
    assert forall|i: int| 0 <= i < "playlist"@.len() implies plain_char(
        #[trigger] "playlist"@[i],
    ) by {
        assert(i == 0 || i == 1 || i == 2 || i == 3 || i == 4 || i == 5 || i == 6 || i == 7);
    }
    assert forall|i: int| 0 <= i < "v"@.len() implies plain_char(#[trigger] "v"@[i]) by {
        assert(i == 0);
    }
    assert forall|i: int| 0 <= i < "list"@.len() implies plain_char(#[trigger] "list"@[i]) by {
        assert(i == 0 || i == 1 || i == 2 || i == 3);
    }
}

/// A YouTube URL rewritten to path `path` and the one query pair `key=id`, with
/// all three plain, keeps its host, has that one pair for its query, and comes
/// out the same when rewritten so again.
proof fn lemma_rewrite_accepted(
    u: Seq<char>,
    w: Seq<char>,
    v: Seq<char>,
    path: Seq<char>,
    key: Seq<char>,
    id: Seq<char>,
    query: Seq<char>,
)
    requires
        query == key + "="@ + id,
        url_host(u) == Some(youtube_host()),
        url_plain(path),
        path.len() > 0,
        url_plain(key),
        key.len() > 0,
        url_plain(id),
        url_host(u) is Some && url_plain(path) && path.len() > 0 ==> {
            &&& url_host(w) == url_host(u)
            &&& url_set_path(w, path) == w
        },
        url_host(w) is Some ==> (plain_pair(query) matches Some(kv) ==> {
            &&& url_host(v) == url_host(w)
            &&& url_query_pairs(v) == seq![kv]
            &&& url_set_query(v, query) == v
            &&& forall|p: Seq<char>|
                url_plain(p) && #[trigger] url_set_path(w, p) == w ==> url_set_path(v, p) == v
        }),
    ensures
        url_host(v) == Some(youtube_host()),
        url_query_pairs(v) == seq![(key, id)],
        first_value(url_query_pairs(v), key) == Some(id),
        has_key(url_query_pairs(v), key),
        url_set_query(url_set_path(v, path), query) == v,
{
    lemma_plain_pair(key, id);
    assert(url_set_path(w, path) == w);
    assert(url_set_path(v, path) == v);
    assert(key_index_from(url_query_pairs(v), key, 0) == 0);
    assert(url_query_pairs(v)[0].0 == key);
}

/// Determines the URL that should be used when fetching playlists.
///
/// With `enable_sc` SoundCloud URLs are accepted and checked; without it they are
/// unsupported. A URL that this gives is accepted again as it is, where the
/// YouTube playlist id is plain.
pub fn get_playlist_url(url: &Url, enable_sc: bool) -> (r: Result<Url, GetUrlError>)
    ensures
        match r {
            Ok(v) => playlist_url_of(url@, enable_sc) == Ok::<Seq<char>, GetUrlError<Seq<char>>>(
                v@,
            ),
            Err(e) => playlist_url_of(url@, enable_sc) == Err::<Seq<char>, GetUrlError<Seq<char>>>(
                e@,
            ),
        },
        r matches Ok(v) ==> (value_is_plain(url@, "list"@) ==> playlist_url_of(v@, enable_sc)
            == Ok::<Seq<char>, GetUrlError<Seq<char>>>(v@)),
{
    if url.host_is("www.youtube.com") {
        let pairs = url.query_pairs();
        match find_value(&pairs, "list") {
            Some(id) => {
                let mut query = String::new();
                query.append("list=");
                query.append(id.as_str());
                proof {
                    assert(Seq::<char>::empty() + "list="@ =~= "list="@);
                }
                let with_path = url.with_path("playlist");
                let v = with_path.with_query(query.as_str());
                proof {
                    if url_plain(id@) {
                        lemma_plain_words();
                        reveal_strlit("list=");
                        reveal_strlit("list");
                        reveal_strlit("=");
                        assert("list="@ + id@ =~= "list"@ + "="@ + id@);
                        lemma_rewrite_accepted(
                            url@,
                            with_path@,
                            v@,
                            "playlist"@,
                            "list"@,
                            id@,
                            query@,
                        );
                    }
                }
                Ok(v)
            },
            None => Err(GetUrlError::NotPlaylist(url.to_text())),
        }
    } else if url.host_is("soundcloud.com") && enable_sc {
        match url.path_segments() {
            None => Err(GetUrlError::Unsound(url.to_text())),
            Some(segs) => {
                if contains_text(&segs, "sets") {
                    Ok(url.duplicate())
                } else {
                    Err(GetUrlError::NotPlaylist(url.to_text()))
                }
            },
        }
    } else {
        Err(GetUrlError::Unsupported(url.to_text()))
    }
}

/// Extracts the video URL from a URL that may name a video and a playlist.
///
/// Only YouTube links to videos are accepted. A URL that this gives, where the
/// video id is plain, is accepted again as it is and names a single video.
pub fn get_video_url(url: &Url) -> (r: Result<Url, GetUrlError>)
    ensures
        match r {
            Ok(v) => video_url_of(url@) == Ok::<Seq<char>, GetUrlError<Seq<char>>>(v@),
            Err(e) => video_url_of(url@) == Err::<Seq<char>, GetUrlError<Seq<char>>>(e@),
        },
        r matches Ok(v) ==> (value_is_plain(url@, "v"@) ==> video_url_of(v@) == Ok::<
            Seq<char>,
            GetUrlError<Seq<char>>,
        >(v@) && chapters_url_ok(v@)),
{
    if url.host_is("www.youtube.com") {
        let pairs = url.query_pairs();
        match find_value(&pairs, "v") {
            Some(id) => {
                let mut query = String::new();
                query.append("v=");
                query.append(id.as_str());
                proof {
                    assert(Seq::<char>::empty() + "v="@ =~= "v="@);
                }
                let with_path = url.with_path("watch");
                let v = with_path.with_query(query.as_str());
                proof {
                    if url_plain(id@) {
                        lemma_plain_words();
                        reveal_strlit("v=");
                        reveal_strlit("v");
                        reveal_strlit("=");
                        assert("v="@ + id@ =~= "v"@ + "="@ + id@);
                        lemma_rewrite_accepted(
                            url@,
                            with_path@,
                            v@,
                            "watch"@,
                            "v"@,
                            id@,
                            query@,
                        );
                    }
                }
                Ok(v)
            },
            None => Err(GetUrlError::NotVideo(url.to_text())),
        }
    } else {
        Err(GetUrlError::Unsupported(url.to_text()))
    }
}

/// A track of a fetched playlist, as yt-dlp describes it.
#[derive(Debug)]
pub struct Track {
    pub id: String,
    pub extractor: String,
    pub title: String,
    pub artists: Vec<String>,
    pub track_num: u32,
}

/// A fetched playlist, before it is saved as a specfile.
#[derive(Debug)]
pub struct Playlist {
    pub id: String,
    pub title: String,
    pub release_year: String,
    pub album_artists: Vec<String>,
    pub genre: String,
    pub track_total: u32,
    pub cover: String,
    pub tracks: Vec<Track>,
}

/// A fetched chapter album, before it is saved as a specfile; `T` is a chapter,
/// which yt-dlp describes, and `tracks` is `None` for a video without chapters.
/// `playlist_index` is the video's index in the playlist it was fetched from.
#[derive(Debug)]
pub struct Chapters<T> {
    pub id: String,
    pub playlist_index: Option<u64>,
    pub url: String,
    pub title: String,
    pub release_year: String,
    pub album_artists: Vec<String>,
    pub genre: String,
    pub cover: String,
    pub tracks: Option<Vec<T>>,
}

/// The specfile URL of a track with this extractor and id: a YouTube watch URL,
/// a SoundCloud track API URL, or an error naming an unsupported extractor.
pub open spec fn track_url_of(extractor: Seq<char>, id: Seq<char>) -> Result<Seq<char>, Seq<char>> {
    if extractor == "youtube"@ {
        Ok("https://www.youtube.com/watch?v="@ + id)
    } else if extractor == "soundcloud"@ {
        Ok("https://api-v2.soundcloud.com/tracks/"@ + id)
    } else {
        Err("unsupported extractor: "@ + extractor)
    }
}

impl Track {
    /// The URL that the specfile records for the track, or the error message of
    /// an unsupported extractor.
    pub fn spec_url(&self) -> (r: Result<String, String>)
        ensures
            match r {
                Ok(u) => track_url_of(self.extractor@, self.id@) == Ok::<Seq<char>, Seq<char>>(u@),
                Err(e) => track_url_of(self.extractor@, self.id@) == Err::<Seq<char>, Seq<char>>(
                    e@,
                ),
            },
            self.extractor@ == "youtube"@ && url_plain(self.id@) ==> r is Ok && youtube_watch_id(
                r->Ok_0@,
            ) == Some(self.id@),
            self.extractor@ == "soundcloud"@ && url_plain(self.id@) && self.id@.len() > 0 ==> r is Ok
                && soundcloud_track_id(r->Ok_0@) == Some(self.id@),
    {
        let mut r = String::new();
        let ok = if same_text(self.extractor.as_str(), "youtube") {
            r.append("https://www.youtube.com/watch?v=");
            true
        } else if same_text(self.extractor.as_str(), "soundcloud") {
            r.append("https://api-v2.soundcloud.com/tracks/");
            true
        } else {
            r.append("unsupported extractor: ");
            false
        };
        proof {
            assert(Seq::<char>::empty() + "https://www.youtube.com/watch?v="@
                =~= "https://www.youtube.com/watch?v="@);
            assert(Seq::<char>::empty() + "https://api-v2.soundcloud.com/tracks/"@
                =~= "https://api-v2.soundcloud.com/tracks/"@);
            assert(Seq::<char>::empty() + "unsupported extractor: "@ =~= "unsupported extractor: "@);
        }
        if ok {
            r.append(self.id.as_str());
            proof {
                let yp = youtube_watch_prefix();
                let sp = soundcloud_track_prefix();
                reveal_strlit("youtube");
                reveal_strlit("soundcloud");
                assert((yp + self.id@).take(yp.len() as int) =~= yp);
                assert((yp + self.id@).skip(yp.len() as int) =~= self.id@);
                assert((sp + self.id@).take(sp.len() as int) =~= sp);
                assert((sp + self.id@).skip(sp.len() as int) =~= self.id@);
                assert("youtube"@.len() != "soundcloud"@.len());
            }
            Ok(r)
        } else {
            r.append(self.extractor.as_str());
            Err(r)
        }
    }
}

/// The ID of a fetched spec: the given one, else the one yt-dlp reported.
pub open spec fn chosen_id(fetched: Seq<char>, id: Option<&str>) -> Seq<char> {
    match id {
        Some(i) => i@,
        None => fetched,
    }
}

impl Playlist {
    /// The fetched playlist, named `id` where one is given.
    pub fn with_id(self, id: Option<&str>) -> (r: Playlist)
        ensures
            r.id@ == chosen_id(self.id@, id),
            r.title == self.title,
            r.release_year == self.release_year,
            r.album_artists == self.album_artists,
            r.genre == self.genre,
            r.track_total == self.track_total,
            r.cover == self.cover,
            r.tracks == self.tracks,
    {
        match id {
            Some(i) => Playlist { id: i.to_owned(), ..self },
            None => self,
        }
    }
}

/// Whether `a` is `b` but for its ID.
pub open spec fn same_but_id<T>(a: Chapters<T>, b: Chapters<T>) -> bool {
    &&& a.url == b.url
    &&& a.title == b.title
    &&& a.release_year == b.release_year
    &&& a.album_artists == b.album_artists
    &&& a.genre == b.genre
    &&& a.cover == b.cover
    &&& a.tracks == b.tracks
    &&& a.playlist_index == b.playlist_index
}

impl<T> Chapters<T> {
    /// The fetched chapter album, named `id` where one is given.
    pub fn with_id(self, id: Option<&str>) -> (r: Chapters<T>)
        ensures
            r.id@ == chosen_id(self.id@, id),
            same_but_id(r, self),
    {
        match id {
            Some(i) => Chapters { id: i.to_owned(), ..self },
            None => self,
        }
    }

    /// Whether the video has chapters.
    pub open spec fn has_chapters(self) -> bool {
        self.tracks.is_some()
    }
}

/// The ID `<id>_<index>` of the chapter album at `index` in a playlist.
pub open spec fn numbered_id(id: Seq<char>, index: nat) -> Seq<char> {
    id + "_"@ + decimal(index)
}

/// A numbered ID is the given ID, then `_`, then digits that denote the index.
pub proof fn lemma_numbered_id_parts(id: Seq<char>, index: nat)
    ensures
        numbered_id(id, index).take(id.len() as int) == id,
        numbered_id(id, index)[id.len() as int] == '_',
        all_digits(numbered_id(id, index).skip(id.len() + 1int)),
        digits_value(numbered_id(id, index).skip(id.len() + 1int)) == index,
{
    reveal_strlit("_");
    crate::text::lemma_decimal_value(index);
    let n = numbered_id(id, index);
    assert(n.take(id.len() as int) =~= id);
    assert(n.skip(id.len() + 1int) =~= decimal(index));
}

/// The index in the playlist of the fetched album at position `pos` (from zero)
/// of the fetched entries: the index that yt-dlp reports, or where it reports
/// none, the position counted from one.
pub open spec fn entry_index<T>(e: Chapters<T>, pos: int) -> nat {
    match e.playlist_index {
        Some(k) => k as nat,
        None => (pos + 1) as nat,
    }
}

/// The fetched albums, each with its position among them.
pub open spec fn positioned<T>(entries: Seq<Chapters<T>>) -> Seq<(Chapters<T>, int)> {
    Seq::new(entries.len(), |i: int| (entries[i], i))
}

/// The fetched albums that have chapters, in order, with their positions.
pub open spec fn with_chapters<T>(entries: Seq<Chapters<T>>) -> Seq<(Chapters<T>, int)> {
    positioned(entries).filter(|p: (Chapters<T>, int)| p.0.has_chapters())
}

/// The albums kept from a playlist fetch are exactly the fetched entries that
/// have chapters, each with its own position: none without chapters is kept,
/// none with chapters is lost.
pub proof fn lemma_kept_entries<T>(entries: Seq<Chapters<T>>)
    ensures
        forall|k: int|
            0 <= k < with_chapters(entries).len() ==> {
                let (e, pos) = #[trigger] with_chapters(entries)[k];
                &&& 0 <= pos < entries.len()
                &&& e == entries[pos]
                &&& e.has_chapters()
            },
        forall|j: int|
            0 <= j < entries.len() && (#[trigger] entries[j]).has_chapters() ==> with_chapters(
                entries,
            ).contains((entries[j], j)),
{
    let ps = positioned(entries);
    let pred = |p: (Chapters<T>, int)| p.0.has_chapters();
    assert forall|k: int| 0 <= k < with_chapters(entries).len() implies {
        let (e, pos) = #[trigger] with_chapters(entries)[k];
        &&& 0 <= pos < entries.len()
        &&& e == entries[pos]
        &&& e.has_chapters()
    } by {
        let x = with_chapters(entries)[k];
        ps.lemma_filter_pred(pred, k);
        assert(with_chapters(entries).contains(x));
        ps.lemma_filter_contains_rev(pred, x);
        let i = choose|i: int| 0 <= i < ps.len() && ps[i] == x;
        assert(ps[i] == (entries[i], i));
    }
    assert forall|j: int|
        0 <= j < entries.len() && (#[trigger] entries[j]).has_chapters() implies with_chapters(
        entries,
    ).contains((entries[j], j)) by {
        assert(ps[j] == (entries[j], j));
        ps.lemma_filter_contains(pred, j);
    }
}

/// Names the chapter albums fetched from a playlist. Without an ID they are kept
/// as fetched. With an ID, videos without chapters are dropped and the others
/// are named `<id>_<playlist index>`.
pub fn number_entries<T>(entries: Vec<Chapters<T>>, id: Option<&str>) -> (r: Vec<Chapters<T>>)
    ensures
        id.is_none() ==> r@ == entries@,
        id matches Some(x) ==> {
            &&& r@.len() == with_chapters(entries@).len()
            &&& forall|i: int| 0 <= i < r@.len() ==> (#[trigger] r@[i]).has_chapters()
            &&& forall|i: int|
                0 <= i < r@.len() ==> (#[trigger] r@[i]).id@ == numbered_id(
                    x@,
                    entry_index(with_chapters(entries@)[i].0, with_chapters(entries@)[i].1),
                ) && same_but_id(r@[i], with_chapters(entries@)[i].0)
        },
{
    let x = match id {
        None => return entries,
        Some(x) => x,
    };
    let ghost all = entries@;
    let total = entries.len();
    let mut rest = entries;
    let mut out: Vec<Chapters<T>> = Vec::new();
    let mut consumed: usize = 0;
    while rest.len() > 0
        invariant
            consumed <= all.len(),
            all.len() == total,
            rest@ == all.skip(consumed as int),
            out@.len() == with_chapters(all.take(consumed as int)).len(),
            positioned(all).take(consumed as int) == positioned(all.take(consumed as int)),
            forall|i: int| 0 <= i < out@.len() ==> (#[trigger] out@[i]).has_chapters(),
            forall|i: int|
                0 <= i < out@.len() ==> (#[trigger] out@[i]).id@ == numbered_id(
                    x@,
                    entry_index(
                        with_chapters(all.take(consumed as int))[i].0,
                        with_chapters(all.take(consumed as int))[i].1,
                    ),
                ) && same_but_id(out@[i], with_chapters(all.take(consumed as int))[i].0),
        decreases rest@.len(),
    {
        let ghost before = all.take(consumed as int);
        let ghost after = all.take(consumed + 1);
        let e = rest.remove(0);
        proof {
            assert(after.drop_last() =~= before);
            assert(after.last() == e);
            assert(rest@ =~= all.skip(consumed + 1));
            assert(positioned(after).drop_last() =~= positioned(before));
            assert(positioned(after).last() == (e, consumed as int));
            assert(positioned(all).take(consumed + 1) =~= positioned(after));
            reveal_with_fuel(Seq::<_>::filter, 1);
            assert(with_chapters(after) == if e.has_chapters() {
                with_chapters(before).push((e, consumed as int))
            } else {
                with_chapters(before)
            });
        }
        if e.tracks.is_some() {
            let number: u64 = match e.playlist_index {
                Some(k) => k,
                None => consumed as u64 + 1,
            };
            let mut name = x.to_owned();
            name.append("_");
            name.append(decimal_string(number).as_str());
            out.push(Chapters { id: name, ..e });
        }
        consumed = consumed + 1;
    }
    proof {
        assert(all.take(consumed as int) =~= all);
    }
    out
}

/// Distinct playlist indices give distinct numbered IDs, so the chapter albums
/// fetched from one playlist under one ID never share a name.
pub proof fn lemma_numbered_ids_distinct(id: Seq<char>, i: nat, j: nat)
    requires
        i != j,
    ensures
        numbered_id(id, i) != numbered_id(id, j),
{
    if numbered_id(id, i) == numbered_id(id, j) {
        reveal_strlit("_");
        let k = id.len() + 1;
        assert(numbered_id(id, i).skip(k as int) =~= decimal(i));
        assert(numbered_id(id, j).skip(k as int) =~= decimal(j));
        lemma_decimal_injective(i, j);
    }
}

/// The file name of a saved spec: `<id>.toml`.
pub fn spec_file_name(id: &str) -> (r: String)
    ensures
        r@ == id@ + ".toml"@,
{
    let mut r = id.to_owned();
    r.append(".toml");
    r
}

} // verus!
