//! URLs as the `url` crate parses and rewrites them.
//!
//! A [`Url`] holds the serialization that `url::Url` produces. Its scheme is
//! the text before the first `:`; every other reading (host, query pairs, path
//! segments) and every rewrite (path, query) is done by the `url` crate on the
//! URL that it parses from that text; the wrappers below state what each call
//! returns in terms of names for those results.

use vstd::prelude::*;

use crate::text::{find_char_from, index_from, same_text};

verus! {

/// The error of `url::Url::parse`.
#[verifier::external_type_specification]
#[verifier::external_body]
pub struct ExUrlParseError(url::ParseError);

/// The serialization of `url::Url::parse(input)`, or `None` where it fails.
pub uninterp spec fn url_parse(input: Seq<char>) -> Option<Seq<char>>;

/// What `url::Url::host_str` returns for `url::Url::parse(text)` (`None` where
/// the text does not parse).
pub uninterp spec fn url_host(text: Seq<char>) -> Option<Seq<char>>;

/// The decoded `(key, value)` pairs that `url::Url::query_pairs` yields, in
/// order, for `url::Url::parse(text)` (none where the text does not parse).
pub uninterp spec fn url_query_pairs(text: Seq<char>) -> Seq<(Seq<char>, Seq<char>)>;

/// The segments that `url::Url::path_segments` yields for `url::Url::parse(text)`,
/// or `None` for a cannot-be-a-base URL (or where the text does not parse).
pub uninterp spec fn url_path_segments(text: Seq<char>) -> Option<Seq<Seq<char>>>;

/// The serialization after `url::Url::set_path(path)` on `url::Url::parse(text)`
/// (the text itself where it does not parse).
pub uninterp spec fn url_set_path(text: Seq<char>, path: Seq<char>) -> Seq<char>;

/// The serialization after `url::Url::set_query(Some(query))` on
/// `url::Url::parse(text)` (the text itself where it does not parse).
pub uninterp spec fn url_set_query(text: Seq<char>, query: Seq<char>) -> Seq<char>;

/// The scheme of a URL's serialization: the text before its first `:` (a
/// serialization starts with the scheme, which holds no `:`, then a `:`).
pub open spec fn url_scheme(text: Seq<char>) -> Seq<char> {
    let i = index_from(text, ':', 0);
    if i < 0 {
        text
    } else {
        text.take(i)
    }
}

/// The character views of a list of string pairs.
pub open spec fn pair_views(pairs: Seq<(String, String)>) -> Seq<(Seq<char>, Seq<char>)> {
    pairs.map_values(|p: (String, String)| (p.0@, p.1@))
}

/// An ASCII letter or digit, `-` or `_`.
pub open spec fn plain_char(c: char) -> bool {
    ('a' <= c && c <= 'z') || ('A' <= c && c <= 'Z') || ('0' <= c && c <= '9') || c == '-' || c
        == '_'
}

/// Text made of plain characters only: the `url` crate percent-encodes none of
/// them in a path or a query, and `application/x-www-form-urlencoded` neither
/// splits nor decodes them.
pub open spec fn url_plain(s: Seq<char>) -> bool {
    forall|i: int| 0 <= i < s.len() ==> plain_char(#[trigger] s[i])
}

/// A query that is one pair `key=value` with a non-empty plain key and a plain
/// value, split at its first `=`.
pub open spec fn plain_pair(query: Seq<char>) -> Option<(Seq<char>, Seq<char>)> {
    let i = index_from(query, '=', 0);
    if i > 0 && url_plain(query.take(i)) && url_plain(query.skip(i + 1)) {
        Some((query.take(i), query.skip(i + 1)))
    } else {
        None
    }
}

/// The text of a YouTube video URL, up to its video id.
pub open spec fn youtube_watch_prefix() -> Seq<char> {
    "https://www.youtube.com/watch?v="@
}

/// The text of a SoundCloud track API URL, up to its track id.
pub open spec fn soundcloud_track_prefix() -> Seq<char> {
    "https://api-v2.soundcloud.com/tracks/"@
}

/// The plain id `<id>` of a text `https://www.youtube.com/watch?v=<id>`.
pub open spec fn youtube_watch_id(s: Seq<char>) -> Option<Seq<char>> {
    let p = youtube_watch_prefix();
    if p.len() <= s.len() && s.take(p.len() as int) == p && url_plain(s.skip(p.len() as int)) {
        Some(s.skip(p.len() as int))
    } else {
        None
    }
}

/// The non-empty plain id `<id>` of a text `https://api-v2.soundcloud.com/tracks/<id>`.
pub open spec fn soundcloud_track_id(s: Seq<char>) -> Option<Seq<char>> {
    let p = soundcloud_track_prefix();
    if p.len() < s.len() && s.take(p.len() as int) == p && url_plain(s.skip(p.len() as int)) {
        Some(s.skip(p.len() as int))
    } else {
        None
    }
}

/// Calls `url::Url::parse` and keeps the serialization of the result.
/// Claims: on success the result is `url_parse(input)`; on failure
/// `url_parse(input)` is `None`; a YouTube video URL or a SoundCloud track API
/// URL of the shapes above (plain ids) parses, and serializes as it was written.
#[verifier::external_body]
fn parse_serialization(input: &str) -> (r: Result<String, url::ParseError>)
    ensures
        match r {
            Ok(s) => url_parse(input@) == Some(s@),
            Err(_) => url_parse(input@).is_none(),
        },
        youtube_watch_id(input@) is Some || soundcloud_track_id(input@) is Some ==> r is Ok && r->Ok_0@
            == input@,
{
    match url::Url::parse(input) {
        Ok(u) => Ok(String::from(u)),
        Err(e) => Err(e),
    }
}

/// Calls `url::Url::host_str` on `url::Url::parse(s)`.
/// Claims: the result is `url_host(s)`; the host of a YouTube video URL or a
/// SoundCloud track API URL of the shapes above is the domain written in it.
#[verifier::external_body]
fn host_of(s: &str) -> (r: Option<String>)
    ensures
        match r {
            Some(h) => url_host(s@) == Some(h@),
            None => url_host(s@).is_none(),
        },
        youtube_watch_id(s@) is Some ==> r is Some && r->0@ == "www.youtube.com"@,
        soundcloud_track_id(s@) is Some ==> r is Some && r->0@ == "api-v2.soundcloud.com"@,
{
    match url::Url::parse(s) {
        Ok(u) => u.host_str().map(|h| h.to_string()),
        Err(_) => None,
    }
}

/// Collects `url::Url::query_pairs` of `url::Url::parse(s)`.
/// Claims: the pairs, decoded and in order, are `url_query_pairs(s)`; a YouTube
/// video URL of the shape above has the one pair `v=<id>`.
#[verifier::external_body]
fn query_pairs_of(s: &str) -> (r: Vec<(String, String)>)
    ensures
        pair_views(r@) == url_query_pairs(s@),
        youtube_watch_id(s@) matches Some(id) ==> pair_views(r@) == seq![("v"@, id)],
{
    let mut out = Vec::new();
    if let Ok(u) = url::Url::parse(s) {
        for (k, v) in u.query_pairs() {
            out.push((k.into_owned(), v.into_owned()));
        }
    }
    out
}

/// Collects `url::Url::path_segments` of `url::Url::parse(s)`.
/// Claims: the result is `url_path_segments(s)`; a SoundCloud track API URL of
/// the shape above has the segments `tracks` and `<id>`.
#[verifier::external_body]
fn path_segments_of(s: &str) -> (r: Option<Vec<String>>)
    ensures
        match r {
            Some(v) => url_path_segments(s@) == Some(crate::text::views(v@)),
            None => url_path_segments(s@).is_none(),
        },
        soundcloud_track_id(s@) matches Some(id) ==> r is Some && crate::text::views(r->0@)
            == seq!["tracks"@, id],
{
    match url::Url::parse(s) {
        Ok(u) => u.path_segments().map(|segs| segs.map(|p| p.to_string()).collect()),
        Err(_) => None,
    }
}

/// Calls `url::Url::set_path(path)` on `url::Url::parse(s)` and keeps the new
/// serialization. Claims: it is `url_set_path(s, path)`; where `s` has a host
/// and `path` is non-empty and plain, the new URL keeps the host (only what
/// follows the host is rewritten), and setting the same path again changes
/// nothing. Without a host nothing is claimed of how the new text parses: it
/// need not parse back to itself (`non-spec:/.//` with path `p` gives
/// `non-spec:/./p`, which parses to `non-spec:/p`).
#[verifier::external_body]
fn with_path_of(s: &str, path: &str) -> (r: String)
    ensures
        r@ == url_set_path(s@, path@),
        url_host(s@) is Some && url_plain(path@) && path@.len() > 0 ==> {
            &&& url_host(r@) == url_host(s@)
            &&& url_set_path(r@, path@) == r@
        },
{
    match url::Url::parse(s) {
        Ok(mut u) => {
            u.set_path(path);
            String::from(u)
        },
        Err(_) => s.to_string(),
    }
}

/// Calls `url::Url::set_query(Some(query))` on `url::Url::parse(s)` and keeps the
/// new serialization. Claims: it is `url_set_query(s, query)`; where `s` has a
/// host and `query` is one plain pair `key=value`, the new URL keeps the host and
/// the path (a plain path that setting again would not change stays so), its
/// query pairs are that one pair, and setting the same query again changes
/// nothing.
#[verifier::external_body]
fn with_query_of(s: &str, query: &str) -> (r: String)
    ensures
        r@ == url_set_query(s@, query@),
        url_host(s@) is Some ==> (plain_pair(query@) matches Some(kv) ==> {
            &&& url_host(r@) == url_host(s@)
            &&& url_query_pairs(r@) == seq![kv]
            &&& url_set_query(r@, query@) == r@
            &&& forall|p: Seq<char>|
                url_plain(p) && #[trigger] url_set_path(s@, p) == s@ ==> url_set_path(r@, p) == r@
        }),
{
    match url::Url::parse(s) {
        Ok(mut u) => {
            u.set_query(Some(query));
            String::from(u)
        },
        Err(_) => s.to_string(),
    }
}

/// The error of [`Url::parse`]: the text that is not an absolute URL.
#[derive(Debug)]
pub struct UrlParseError {
    pub input: String,
}

/// An absolute URL, held as the serialization that the `url` crate gave it
/// (by parsing, or by rewriting the path or query). Its parts are read by
/// parsing that text again.
#[derive(Debug)]
pub struct Url {
    serialization: String,
}

impl View for Url {
    type V = Seq<char>;

    closed spec fn view(&self) -> Seq<char> {
        self.serialization@
    }
}

impl Url {
    /// Parses an absolute URL. A YouTube video URL or a SoundCloud track API URL
    /// as a fetch writes them (plain ids) parses to itself.
    pub fn parse(input: &str) -> (r: Result<Url, UrlParseError>)
        ensures
            match r {
                Ok(u) => url_parse(input@) == Some(u@),
                Err(e) => url_parse(input@).is_none() && e.input@ == input@,
            },
            youtube_watch_id(input@) is Some || soundcloud_track_id(input@) is Some ==> (r matches Ok(
                u,
            ) && u@ == input@),
    {
        match parse_serialization(input) {
            Ok(s) => Ok(Url { serialization: s }),
            Err(_) => Err(UrlParseError { input: input.to_owned() }),
        }
    }

    /// The serialization.
    pub fn as_str(&self) -> (r: &str)
        ensures
            r@ == self@,
    {
        self.serialization.as_str()
    }

    /// An owned copy of the serialization (what `Display` writes).
    pub fn to_text(&self) -> (r: String)
        ensures
            r@ == self@,
    {
        self.serialization.clone()
    }

    /// A copy of this URL.
    pub fn duplicate(&self) -> (r: Url)
        ensures
            r@ == self@,
    {
        Url { serialization: self.serialization.clone() }
    }

    /// The scheme, lower-cased, without the `:` (`url::Url::scheme`).
    pub fn scheme(&self) -> (r: String)
        ensures
            r@ == url_scheme(self@),
    {
        let s = self.serialization.as_str();
        match find_char_from(s, ':', 0) {
            Some(i) => {
                proof {
                    crate::text::lemma_index_from(s@, ':', 0);
                }
                s.substring_char(0, i).to_owned()
            },
            None => {
                proof {
                    assert(s@.subrange(0, s@.len() as int) =~= s@);
                }
                s.to_owned()
            },
        }
    }

    /// The host, if the URL has one.
    pub fn host_str(&self) -> (r: Option<String>)
        ensures
            match r {
                Some(h) => url_host(self@) == Some(h@),
                None => url_host(self@).is_none(),
            },
            youtube_watch_id(self@) is Some ==> url_host(self@) == Some("www.youtube.com"@),
            soundcloud_track_id(self@) is Some ==> url_host(self@) == Some(
                "api-v2.soundcloud.com"@,
            ),
    {
        host_of(self.serialization.as_str())
    }

    /// Whether the URL's host is `host`.
    pub fn host_is(&self, host: &str) -> (r: bool)
        ensures
            r == (url_host(self@) == Some(host@)),
            youtube_watch_id(self@) is Some ==> url_host(self@) == Some("www.youtube.com"@),
            soundcloud_track_id(self@) is Some ==> url_host(self@) == Some(
                "api-v2.soundcloud.com"@,
            ),
    {
        match self.host_str() {
            Some(h) => same_text(h.as_str(), host),
            None => false,
        }
    }

    /// The decoded query pairs, in order.
    pub fn query_pairs(&self) -> (r: Vec<(String, String)>)
        ensures
            pair_views(r@) == url_query_pairs(self@),
            youtube_watch_id(self@) matches Some(id) ==> url_query_pairs(self@) == seq![("v"@, id)],
    {
        query_pairs_of(self.serialization.as_str())
    }

    /// The path segments, or `None` for a cannot-be-a-base URL.
    pub fn path_segments(&self) -> (r: Option<Vec<String>>)
        ensures
            match r {
                Some(v) => url_path_segments(self@) == Some(crate::text::views(v@)),
                None => url_path_segments(self@).is_none(),
            },
            soundcloud_track_id(self@) matches Some(id) ==> url_path_segments(self@) == Some(
                seq!["tracks"@, id],
            ),
    {
        path_segments_of(self.serialization.as_str())
    }

    /// This URL with its path replaced by `path`. Where the URL has a host and
    /// `path` is non-empty and plain, the host stays, and setting the same path
    /// again changes nothing.
    pub fn with_path(&self, path: &str) -> (r: Url)
        ensures
            r@ == url_set_path(self@, path@),
            url_host(self@) is Some && url_plain(path@) && path@.len() > 0 ==> {
                &&& url_host(r@) == url_host(self@)
                &&& url_set_path(r@, path@) == r@
            },
    {
        Url { serialization: with_path_of(self.serialization.as_str(), path) }
    }

    /// This URL with its query replaced by `query`. Where the URL has a host and
    /// `query` is one plain pair, the host and path stay, the query pairs are that
    /// pair, and setting the same query again changes nothing.
    pub fn with_query(&self, query: &str) -> (r: Url)
        ensures
            r@ == url_set_query(self@, query@),
            url_host(self@) is Some ==> (plain_pair(query@) matches Some(kv) ==> {
                &&& url_host(r@) == url_host(self@)
                &&& url_query_pairs(r@) == seq![kv]
                &&& url_set_query(r@, query@) == r@
                &&& forall|p: Seq<char>|
                    url_plain(p) && #[trigger] url_set_path(self@, p) == self@ ==> url_set_path(
                        r@,
                        p,
                    ) == r@
            }),
    {
        Url { serialization: with_query_of(self.serialization.as_str(), query) }
    }
}

impl PartialEq for Url {
    fn eq(&self, other: &Self) -> (r: bool) {
        crate::text::same_text(self.serialization.as_str(), other.serialization.as_str())
    }
}

impl vstd::std_specs::cmp::PartialEqSpecImpl for Url {
    open spec fn obeys_eq_spec() -> bool {
        true
    }

    open spec fn eq_spec(&self, other: &Self) -> bool {
        self@ == other@
    }
}

} // verus!
