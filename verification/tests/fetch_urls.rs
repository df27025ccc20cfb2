use mdl::fetch::{get_playlist_url, get_video_url, GetUrlError};
use mdl::url::Url;

fn url(s: &str) -> Url {
    Url::parse(s).unwrap()
}

#[test]
fn youtube_playlist_url() {
    let u = url("https://www.youtube.com/playlist?list=PLx6F6orIEZdmbMQyQKYXq2R0XLgYk1Lpw");
    let got = get_playlist_url(&u, false).unwrap();
    assert_eq!(got, u);

    let u = url(
        "https://www.youtube.com/watch?v=rzurrERdmpI&list=PLx6F6orIEZdmbMQyQKYXq2R0XLgYk1Lpw",
    );
    let got = get_playlist_url(&u, false).unwrap();
    assert_eq!(
        got,
        url("https://www.youtube.com/playlist?list=PLx6F6orIEZdmbMQyQKYXq2R0XLgYk1Lpw")
    );

    let u = url("https://www.youtube.com/watch?v=rzurrERdmpI");
    assert!(get_playlist_url(&u, false).is_err());
}

#[test]
fn soundcloud_playlist_url() {
    let u = url("https://soundcloud.com/alcomindz/sets/koldi-kolins-dawaj-mixtape-2018");
    let got = get_playlist_url(&u, true).unwrap();
    assert_eq!(got, u);

    let u = url("https://soundcloud.com/alcomindz/sets/koldi-kolins-dawaj-mixtape-2018");
    assert!(get_playlist_url(&u, false).is_err());

    let u = url("https://soundcloud.com/alcomindz/albums");
    assert!(get_playlist_url(&u, true).is_err());
}

#[test]
fn unsound_playlist_url() {
    let u = url("https://www.nottube.ru/watch?v=rzurrERdmpI");
    assert!(get_playlist_url(&u, true).is_err());

    let u = url("https://soundcloud.com");
    assert!(get_playlist_url(&u, true).is_err());
}

#[test]
fn youtube_video_url() {
    let u = url(
        "https://www.youtube.com/watch?v=vnd35SLG4Yc&list=PLqWr7dyJNgLKjMUfZ7mnuPFLxX813sm8K",
    );
    let got = get_video_url(&u).unwrap();
    assert_eq!(got, url("https://www.youtube.com/watch?v=vnd35SLG4Yc"));

    let u = url("https://www.youtube.com/watch?v=vnd35SLG4Yc");
    let got = get_video_url(&u).unwrap();
    assert_eq!(got, u);

    let u = url("https://www.youtube.com/playlist?list=PLqWr7dyJNgLK45KSPhhti4FcWLhEWlegt");
    assert!(get_video_url(&u).is_err());
}

#[test]
fn unsound_video_url() {
    let u = url("https://soundcloud.com/alcomindz/sets/koldi-kolins-dawaj-mixtape-2018");
    assert!(get_video_url(&u).is_err());

    let u = url("https://docs.rs");
    assert!(get_video_url(&u).is_err());
}

#[test]
fn playlist_url_error_kinds() {
    let u = url("https://www.youtube.com/watch?v=rzurrERdmpI");
    match get_playlist_url(&u, false) {
        Err(GetUrlError::NotPlaylist(s)) => assert_eq!(s, "https://www.youtube.com/watch?v=rzurrERdmpI"),
        other => panic!("unexpected {:?}", other),
    }
    let u = url("https://soundcloud.com/alcomindz/albums");
    assert!(matches!(get_playlist_url(&u, true), Err(GetUrlError::NotPlaylist(_))));
    let u = url("https://soundcloud.com/alcomindz/sets/x");
    assert!(matches!(get_playlist_url(&u, false), Err(GetUrlError::Unsupported(_))));
    let u = url("mailto:someone@soundcloud.com");
    assert!(matches!(get_playlist_url(&u, true), Err(GetUrlError::Unsupported(_))));
    let u = url("https://www.youtube.com/playlist?list=PL1");
    match get_video_url(&u) {
        Err(e @ GetUrlError::NotVideo(_)) => assert_eq!(
            e.message(),
            "`https://www.youtube.com/playlist?list=PL1` is not a video URL"
        ),
        other => panic!("unexpected {:?}", other),
    }
    let u = url("https://docs.rs/");
    match get_video_url(&u) {
        Err(e @ GetUrlError::Unsupported(_)) => {
            assert_eq!(e.message(), "fetching `https://docs.rs/` is not supported")
        }
        other => panic!("unexpected {:?}", other),
    }
}

#[test]
fn url_reading_and_rewriting() {
    let u = url("https://Example.com/a/b%20c?x=1&y=two%20words");
    assert_eq!(u.as_str(), "https://example.com/a/b%20c?x=1&y=two%20words");
    assert_eq!(u.scheme(), "https");
    assert_eq!(u.host_str(), Some("example.com".to_string()));
    assert_eq!(
        u.query_pairs(),
        vec![("x".to_string(), "1".to_string()), ("y".to_string(), "two words".to_string())]
    );
    assert_eq!(u.path_segments(), Some(vec!["a".to_string(), "b%20c".to_string()]));
    assert_eq!(u.with_path("z").as_str(), "https://example.com/z?x=1&y=two%20words");
    assert_eq!(u.with_query("q=1").as_str(), "https://example.com/a/b%20c?q=1");
    let d = url("data:text/plain,hi");
    assert_eq!(d.path_segments(), None);
    assert_eq!(d.host_str(), None);
    assert!(Url::parse("not a url").is_err());
    assert_eq!(Url::parse("relative/path").unwrap_err().input, "relative/path");
}

#[test]
fn rewritten_urls_are_accepted_again() {
    let u = url("https://www.youtube.com/watch?v=rzurrERdmpI&list=PL_x-6&index=2#t=5");
    let p = get_playlist_url(&u, true).unwrap();
    assert_eq!(p.as_str(), "https://www.youtube.com/playlist?list=PL_x-6#t=5");
    assert_eq!(get_playlist_url(&p, true).unwrap(), p);
    assert_eq!(get_playlist_url(&p, false).unwrap(), p);

    let v = get_video_url(&u).unwrap();
    assert_eq!(v.as_str(), "https://www.youtube.com/watch?v=rzurrERdmpI#t=5");
    assert_eq!(get_video_url(&v).unwrap(), v);

    let sc = url("https://soundcloud.com/artist/sets/album");
    let got = get_playlist_url(&sc, true).unwrap();
    assert_eq!(get_playlist_url(&got, true).unwrap(), got);
}
