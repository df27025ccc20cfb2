use std::hash::Hasher;

use mdl::cli::{DownloadArgs, FetchArgs, FetchEnum, FetchMode, TagArgs, Verbosity};
use mdl::download::{download_outcome, DownloadAction, DownloadError, DownloadStep};
use mdl::fetch::{number_entries, Chapters as FetchedChapters, Playlist as FetchedPlaylist, Track};
use mdl::impls::{download_impl, fetch_impl, tag_impl, AlbumWork, FetchStep, RunStep};
use mdl::logger::{strip_label, Level, LevelFilter, MDLogger};
use mdl::post::{
    convert_args, converted_file_name, ffmpeg_log_parse, ffmpeg_record, next_split,
    removes_download, split_args, split_file_name, FfmpegArg, SplitStep,
};
use mdl::specfile::{
    ChapterTrack, Chapters, ChaptersHeader, Format, Playlist, PlaylistHeader, PlaylistTrack, Spec,
    SpecError, SpecKind,
};
use mdl::tag::{cover_mime, tagged_file_name, Tag};
use mdl::text::{
    decimal_pad2_string, decimal_string, hex16_string, join_strings, parse_i32, parses_as_u64,
    take_chars, trim_start,
};
use mdl::url::Url;

fn url(s: &str) -> Url {
    Url::parse(s).unwrap()
}

fn strings(v: &[&str]) -> Vec<String> {
    v.iter().map(|s| s.to_string()).collect()
}

fn track(u: &str) -> PlaylistTrack {
    PlaylistTrack { url: url(u), title: "T".to_string(), artists: vec![], track_num: 1 }
}

fn playlist(tracks: Vec<PlaylistTrack>) -> Playlist {
    Playlist {
        header: PlaylistHeader {
            id: "pl".to_string(),
            title: "Album".to_string(),
            release_year: "2019-05-01".to_string(),
            album_artists: strings(&["A", "B"]),
            genre: "Rock".to_string(),
            track_total: 12,
            cover: url("https://example.com/cover.jpg"),
        },
        tracks,
    }
}

fn chapters(u: &str, titles: &[&str]) -> Chapters {
    Chapters {
        header: ChaptersHeader {
            id: "ch".to_string(),
            url: url(u),
            title: "Live".to_string(),
            release_year: "98".to_string(),
            album_artists: strings(&["Band"]),
            genre: "Jazz".to_string(),
            cover: url("file:///tmp/cover.png"),
        },
        tracks: titles
            .iter()
            .map(|t| ChapterTrack { title: t.to_string(), artists: strings(&["X", "Y", "Z"]) })
            .collect(),
    }
}

#[test]
fn formats() {
    assert_eq!(Format::Flac.codec(), "flac");
    assert_eq!(Format::Mp3.codec(), "libmp3lame");
    assert_eq!(Format::Flac.ext(), "flac");
    assert_eq!(Format::Mp3.ext(), "mp3");
    assert_eq!(Format::Flac.quality(), "8");
    assert_eq!(Format::Mp3.quality(), "2");
    assert_eq!(Format::Flac.name(), "FLAC");
    assert_eq!(Format::Mp3.name(), "MP3");
}

#[test]
fn text_rendering() {
    assert_eq!(decimal_string(0), "0");
    assert_eq!(decimal_string(907), "907");
    assert_eq!(decimal_string(u64::MAX), "18446744073709551615");
    assert_eq!(decimal_pad2_string(3), "03");
    assert_eq!(decimal_pad2_string(42), "42");
    assert_eq!(decimal_pad2_string(123), "123");
    assert_eq!(hex16_string(0), "0000000000000000");
    assert_eq!(hex16_string(0xdead_beef), format!("{:016x}", 0xdead_beefu64));
    assert_eq!(hex16_string(u64::MAX), "ffffffffffffffff");
    assert_eq!(join_strings(&strings(&["a", "b", "c"]), ", "), "a, b, c");
    assert_eq!(join_strings(&strings(&[]), ", "), "");
    assert_eq!(join_strings(&strings(&["solo"]), ", "), "solo");
    assert_eq!(take_chars("2019-05-01", 4), "2019");
    assert_eq!(take_chars("98", 4), "98");
    assert_eq!(take_chars("ŻÓŁW!", 4), "ŻÓŁW");
    assert_eq!(trim_start(" \t\u{a0}\u{3000}x y "), "x y ");
}

#[test]
fn integer_parsing() {
    for s in ["0", "+7", "18446744073709551615", "007"] {
        assert!(parses_as_u64(s), "{}", s);
        assert!(s.parse::<u64>().is_ok());
    }
    for s in ["", "+", "-1", "18446744073709551616", "1a", " 1", "１"] {
        assert!(!parses_as_u64(s), "{}", s);
        assert!(s.parse::<u64>().is_err());
    }
    for s in ["2019", "-2147483648", "2147483647", "+12", "-0"] {
        assert_eq!(parse_i32(s), s.parse::<i32>().ok(), "{}", s);
        assert!(parse_i32(s).is_some());
    }
    for s in ["", "-", "+", "2147483648", "-2147483649", "2019-05", "19 "] {
        assert_eq!(parse_i32(s), None, "{}", s);
        assert!(s.parse::<i32>().is_err());
    }
}

#[test]
fn track_urls_made_by_fetch() {
    assert!(track("https://www.youtube.com/watch?v=abc").is_url_ok());
    assert!(!track("https://www.youtube.com/watch?v=abc&list=x").is_url_ok());
    assert!(!track("https://www.youtube.com/watch?w=abc").is_url_ok());
    assert!(track("https://api-v2.soundcloud.com/tracks/12345").is_url_ok());
    assert!(!track("https://api-v2.soundcloud.com/tracks/12345/x").is_url_ok());
    assert!(!track("https://api-v2.soundcloud.com/tracks/abc").is_url_ok());
    assert!(!track("https://api-v2.soundcloud.com/tracks").is_url_ok());
    assert!(track("file:///home/me/song.flac").is_url_ok());
    assert!(!track("https://example.com/watch?v=abc").is_url_ok());

    assert!(chapters("https://www.youtube.com/watch?v=abc", &[]).is_url_ok());
    assert!(!chapters("https://www.youtube.com/watch?v=abc&t=3", &[]).is_url_ok());
    assert!(!chapters("file:///tmp/video.webm", &[]).is_url_ok());
}

#[test]
fn track_and_file_ids() {
    let t = track("https://www.youtube.com/watch?v=abc");
    let id = t.id();
    assert_eq!(id.len(), 16);
    assert!(id.chars().all(|c| c.is_ascii_hexdigit() && !c.is_ascii_uppercase()));
    assert_eq!(id, t.id());
    assert_ne!(id, track("https://www.youtube.com/watch?v=abd").id());
    let c = chapters("https://www.youtube.com/watch?v=abc", &[]);
    let fid = c.file_id();
    assert_eq!(fid.len(), 16);
    assert_ne!(fid, id);
    let fx = |seed: u64, text: &str| {
        let mut h = rustc_hash::FxHasher::with_seed(seed as usize);
        h.write(text.as_bytes());
        format!("{:016x}", h.finish())
    };
    assert_eq!(id, fx(mdl::specfile::TRACK_ID_SEED, "https://www.youtube.com/watch?v=abc"));
    assert_eq!(fid, fx(mdl::specfile::CHAPTERS_ID_SEED, "https://www.youtube.com/watch?v=abc"));
    let mut other = track("https://www.youtube.com/watch?v=abc");
    other.title = "Other".to_string();
    other.track_num = 9;
    assert_eq!(other.id(), id);
}

#[test]
fn tags_of_tracks() {
    let p = playlist(vec![PlaylistTrack {
        url: url("https://www.youtube.com/watch?v=abc"),
        title: "Song".to_string(),
        artists: strings(&["P", "Q"]),
        track_num: 3,
    }]);
    let t = p.tracks()[0].tag(&p);
    assert_eq!(t.title, "Song");
    assert_eq!(t.album_title, "Album");
    assert_eq!(t.track, 3);
    assert_eq!(t.track_total, 12);
    assert_eq!(t.genre, "Rock");
    assert_eq!(t.artists, "P, Q");
    assert_eq!(t.album_artists, "A, B");
    assert_eq!(t.release_year, "2019");
    assert_eq!(t.id3_year(), Some(2019));

    let c = chapters("https://www.youtube.com/watch?v=abc", &["One", "Two"]);
    let t = c.tracks()[1].tag((2, 2), &c);
    assert_eq!(t.title, "Two");
    assert_eq!(t.album_title, "Live");
    assert_eq!((t.track, t.track_total), (2, 2));
    assert_eq!(t.artists, "X, Y, Z");
    assert_eq!(t.album_artists, "Band");
    assert_eq!(t.release_year, "98");
    assert_eq!(t.id3_year(), Some(98));
    let mut odd = t;
    odd.release_year = "19xx".to_string();
    assert_eq!(odd.id3_year(), None);
}

#[test]
fn tag_plans() {
    let c = chapters("https://www.youtube.com/watch?v=abc", &["One", "Two"]);
    let fid = c.file_id();
    let jobs = c.tag_plan(Format::Mp3);
    assert_eq!(jobs.len(), 2);
    assert_eq!(jobs[0].input_name, format!("1_{}.mp3", fid));
    assert_eq!(jobs[0].input_name, c.split_file(0, Format::Mp3));
    assert_eq!(jobs[0].output_name, "01. One.mp3");
    assert_eq!(jobs[1].input_name, format!("2_{}.mp3", fid));
    assert_eq!(jobs[1].input_name, c.split_file(1, Format::Mp3));
    assert_eq!(jobs[1].output_name, "02. Two.mp3");
    assert_eq!((jobs[1].tag.track, jobs[1].tag.track_total), (2, 2));

    let t = track("https://www.youtube.com/watch?v=abc");
    let id = t.id();
    let p = playlist(vec![t]);
    let jobs = p.tag_plan(Format::Flac);
    assert_eq!(jobs[0].input_name, format!("{}.flac", id));
    assert_eq!(jobs[0].output_name, "01. T.flac");

    let tag = Tag {
        title: "Tenth".to_string(),
        album_title: String::new(),
        track: 10,
        track_total: 10,
        genre: String::new(),
        artists: String::new(),
        album_artists: String::new(),
        release_year: String::new(),
    };
    assert_eq!(tagged_file_name(&tag, Format::Flac), "10. Tenth.flac");
}

#[test]
fn postprocess_names_and_args() {
    assert_eq!(split_file_name(0, "abcd", Format::Flac), "1_abcd.flac");
    assert_eq!(split_file_name(11, "abcd", Format::Mp3), "12_abcd.mp3");
    assert_eq!(converted_file_name("0123", Format::Mp3), "0123.mp3");
    let p = playlist(vec![track("https://www.youtube.com/watch?v=abc")]);
    let jobs = p.convert_plan(Format::Flac);
    assert_eq!(jobs.len(), 1);
    assert_eq!(jobs[0].input_name, p.tracks()[0].id());
    assert_eq!(jobs[0].output_name, format!("{}.flac", p.tracks()[0].id()));
    assert_eq!(jobs[0].output_name, p.tag_plan(Format::Flac)[0].input_name);
    assert!(removes_download(true, false));
    assert!(!removes_download(true, true));
    assert!(!removes_download(false, false));
    assert_eq!(next_split(0, 2, true, false), SplitStep::Split(0));
    assert_eq!(next_split(1, 2, false, false), SplitStep::Fail);
    assert_eq!(next_split(2, 2, true, false), SplitStep::RemoveSource);
    assert_eq!(next_split(2, 2, true, true), SplitStep::Done);
    assert_eq!(next_split(0, 0, true, true), SplitStep::Done);
    let text = |a: &FfmpegArg| match a {
        FfmpegArg::Text(s) => s.clone(),
        FfmpegArg::InputFile => "<in>".to_string(),
        FfmpegArg::OutputFile => "<out>".to_string(),
    };
    let conv: Vec<String> = convert_args(Format::Mp3).iter().map(text).collect();
    assert_eq!(
        conv,
        strings(&[
            "-y", "-nostats", "-hide_banner", "-loglevel", "repeat+level+info", "-i", "<in>",
            "-ignore_unknown", "-map", "0:a", "-map_metadata", "-1", "-c:a", "libmp3lame", "-q:a",
            "2", "<out>",
        ])
    );
    let split: Vec<String> = split_args("1.5", "20", Format::Flac).iter().map(text).collect();
    assert_eq!(
        split,
        strings(&[
            "-y", "-nostats", "-hide_banner", "-loglevel", "repeat+level+info", "-ss", "1.5",
            "-to", "20", "-i", "<in>", "-ignore_unknown", "-map", "0:a", "-map_metadata", "-1",
            "-c:a", "flac", "-q:a", "8", "<out>",
        ])
    );
}

#[test]
fn ffmpeg_log_lines() {
    assert_eq!(
        ffmpeg_log_parse("[mp3 @ 0x55] [warning]   Estimating duration"),
        Some(("warning", "Estimating duration"))
    );
    assert_eq!(ffmpeg_log_parse("[info] done"), Some(("info", "done")));
    assert_eq!(ffmpeg_log_parse("no label"), None);
    assert_eq!(ffmpeg_log_parse("[unclosed label"), None);
    assert_eq!(ffmpeg_log_parse("[a] x [b"), Some(("a", "x [b")));
    assert_eq!(ffmpeg_log_parse("[]"), Some(("", "")));
    assert_eq!(
        ffmpeg_log_parse("[info] Stream #0:0 [0x1]: Audio"),
        Some(("info", "Stream #0:0 [0x1]: Audio"))
    );
    assert_eq!(ffmpeg_log_parse("  [error] x"), Some(("error", "x")));
    assert_eq!(ffmpeg_log_parse("text [info] later"), Some(("info", "later")));
    assert_eq!(ffmpeg_log_parse("x [warning] y"), Some(("warning", "y")));
    assert_eq!(ffmpeg_log_parse("a [x] b [y]  c [d"), Some(("y", "c [d")));
    assert_eq!(ffmpeg_log_parse("text ] then [ open"), None);
    assert_eq!(ffmpeg_record("note [error] failed"), Some((Level::Error, "failed")));
    assert_eq!(ffmpeg_record("[info] Stream #0:0 [0x1]: Audio"), Some((Level::Trace, "Stream #0:0 [0x1]: Audio")));
    assert_eq!(ffmpeg_record("[in#0] [info] Input"), Some((Level::Trace, "Input")));
    assert_eq!(ffmpeg_record("[warning] w"), Some((Level::Warn, "w")));
    assert_eq!(ffmpeg_record("[error] bad"), Some((Level::Error, "bad")));
    assert_eq!(ffmpeg_record("[verbose] v"), None);
    assert_eq!(ffmpeg_record("plain"), None);
}

#[test]
fn logger_records() {
    assert_eq!(strip_label("[youtube] abc: Downloading"), "abc: Downloading");
    assert_eq!(strip_label("[youtube abc"), "[youtube abc");
    assert_eq!(strip_label("no label"), "no label");
    assert_eq!(MDLogger::debug("[debug] [info] x"), (Level::Trace, "x"));
    assert_eq!(MDLogger::debug("[youtube] y"), (Level::Debug, "y"));
    assert_eq!(MDLogger::debug("plain"), (Level::Debug, "plain"));
    assert_eq!(MDLogger::warning("[w] careful"), (Level::Warn, "[w] careful"));
    assert_eq!(MDLogger::error("ERROR: [youtube] gone"), (Level::Error, "gone"));
    assert_eq!(MDLogger::error("[youtube] gone"), (Level::Error, "[youtube] gone"));
    assert_eq!(Level::Warn.as_str(), "WARN");
}

#[test]
fn verbosity_filters() {
    let f = |verbose, quiet| Verbosity { verbose, quiet }.filter();
    assert_eq!(f(0, 0), LevelFilter::Info);
    assert_eq!(f(1, 0), LevelFilter::Debug);
    assert_eq!(f(2, 0), LevelFilter::Trace);
    assert_eq!(f(9, 0), LevelFilter::Trace);
    assert_eq!(f(0, 1), LevelFilter::Warn);
    assert_eq!(f(0, 3), LevelFilter::Off);
    assert_eq!(f(0, 200), LevelFilter::Off);
    assert_eq!(f(5, 1), LevelFilter::Debug);
    assert_eq!(LevelFilter::Info.increment_severity().decrement_severity(), LevelFilter::Info);
    assert_eq!(LevelFilter::Trace.increment_severity(), LevelFilter::Trace);
    assert_eq!(LevelFilter::Off.decrement_severity(), LevelFilter::Off);
    assert!(LevelFilter::Info.allows(Level::Warn));
    assert!(LevelFilter::Info.allows(Level::Info));
    assert!(!LevelFilter::Info.allows(Level::Debug));
    assert!(!LevelFilter::Off.allows(Level::Error));
}

#[test]
fn fetch_plans() {
    let args = FetchArgs {
        mode: FetchMode { chapters: false, playlist: true },
        recursive: false,
        id: strings(&["first"]),
        url: vec![url("https://a.example/1"), url("https://a.example/2")],
    };
    let plan = fetch_impl(&args);
    assert_eq!(plan.mode, FetchEnum::Playlist);
    assert_eq!(plan.steps.len(), 2);
    match &plan.steps[0] {
        FetchStep::Fetch { url, id } => {
            assert_eq!(url.as_str(), "https://a.example/1");
            assert_eq!(id.as_deref(), Some("first"));
        }
        other => panic!("unexpected {:?}", other),
    }
    match &plan.steps[1] {
        FetchStep::Fetch { url, id } => {
            assert_eq!(url.as_str(), "https://a.example/2");
            assert_eq!(*id, None);
        }
        other => panic!("unexpected {:?}", other),
    }

    let args = FetchArgs {
        mode: FetchMode { chapters: true, playlist: false },
        recursive: true,
        id: strings(&["a", "b", "c"]),
        url: vec![url("https://a.example/1")],
    };
    let plan = fetch_impl(&args);
    assert_eq!(plan.mode, FetchEnum::ChaptersRecursive);
    assert_eq!(plan.steps.len(), 3);
    assert!(matches!(&plan.steps[1], FetchStep::UnusedId(s) if s == "b"));
    assert!(matches!(&plan.steps[2], FetchStep::UnusedId(s) if s == "c"));
    let args = FetchArgs { recursive: false, ..args };
    assert_eq!(args.fetch_mode(), FetchEnum::Chapters);
}

#[test]
fn download_plans_and_outcomes() {
    let p = playlist(vec![
        track("file:///music/a.flac"),
        track("https://example.com/x"),
        track("https://www.youtube.com/watch?v=abc"),
    ]);
    let steps = p.download_plan();
    assert_eq!(steps.len(), 3);
    match &steps[0] {
        DownloadStep::Fetch { index: 0, action: DownloadAction::Copy, file_name } => {
            assert_eq!(*file_name, p.tracks()[0].id())
        }
        other => panic!("unexpected {:?}", other),
    }
    assert!(matches!(steps[1], DownloadStep::Skip { index: 1 }));
    assert!(matches!(
        steps[2],
        DownloadStep::Fetch { index: 2, action: DownloadAction::Download, .. }
    ));
    assert!(download_outcome(&vec![true, true]).is_ok());
    assert!(download_outcome(&vec![]).is_ok());
    assert!(matches!(download_outcome(&vec![true, false]), Err(DownloadError::Incomplete)));

    assert!(chapters("https://www.youtube.com/watch?v=abc", &[]).download_check().is_ok());
    match chapters("https://www.youtube.com/watch?v=abc&list=x", &[]).download_check() {
        Err(DownloadError::InvalidURL(u)) => {
            assert_eq!(u.as_str(), "https://www.youtube.com/watch?v=abc&list=x")
        }
        other => panic!("unexpected {:?}", other),
    }
}

fn fetched(id: &str, chapters: Option<Vec<u32>>) -> FetchedChapters<u32> {
    FetchedChapters {
        id: id.to_string(),
        playlist_index: None,
        url: format!("https://www.youtube.com/watch?v={}", id),
        title: String::new(),
        release_year: String::new(),
        album_artists: vec![],
        genre: String::new(),
        cover: String::new(),
        tracks: chapters,
    }
}

#[test]
fn fetched_specs() {
    let at = |id: &str, index: u64, chapters: Option<Vec<u32>>| FetchedChapters {
        playlist_index: Some(index),
        ..fetched(id, chapters)
    };
    let entries = vec![at("a", 1, Some(vec![1])), at("b", 2, None), at("c", 3, Some(vec![]))];
    let named = number_entries(entries, Some("mix"));
    assert_eq!(named.len(), 2);
    assert_eq!(named[0].id, "mix_1");
    assert_eq!(named[0].url, "https://www.youtube.com/watch?v=a");
    assert_eq!(named[1].id, "mix_3");
    assert_eq!(named[1].url, "https://www.youtube.com/watch?v=c");
    let entries = vec![fetched("a", None), fetched("b", Some(vec![2]))];
    let named = number_entries(entries, Some("foo"));
    assert_eq!(named.len(), 1);
    assert_eq!(named[0].id, "foo_2");
    let entries = vec![fetched("a", Some(vec![1])), fetched("b", None)];
    let kept = number_entries(entries, None);
    assert_eq!(kept.len(), 2);
    assert_eq!(kept[1].id, "b");
    assert_eq!(mdl::fetch::spec_file_name("mix_0"), "mix_0.toml");

    assert_eq!(fetched("a", None).with_id(Some("mine")).id, "mine");
    assert_eq!(mdl::fetch::spec_file_name("x"), "x.toml");
    assert_eq!(fetched("a", None).with_id(None).id, "a");

    let t = |extractor: &str| Track {
        id: "42".to_string(),
        extractor: extractor.to_string(),
        title: String::new(),
        artists: vec![],
        track_num: 1,
    };
    assert_eq!(t("youtube").spec_url(), Ok("https://www.youtube.com/watch?v=42".to_string()));
    assert_eq!(
        t("soundcloud").spec_url(),
        Ok("https://api-v2.soundcloud.com/tracks/42".to_string())
    );
    assert_eq!(t("vimeo").spec_url(), Err("unsupported extractor: vimeo".to_string()));

    let p = FetchedPlaylist {
        id: "auto".to_string(),
        title: "t".to_string(),
        release_year: String::new(),
        album_artists: vec![],
        genre: String::new(),
        track_total: 2,
        cover: String::new(),
        tracks: vec![],
    };
    let p = p.with_id(Some("custom"));
    assert_eq!((p.id.as_str(), p.title.as_str(), p.track_total), ("custom", "t", 2));
}

#[test]
fn cover_types() {
    let png = [0x89u8, b'P', b'N', b'G', 0x0D, 0x0A, 0x1A, 0x0A, 0, 0, 0, 0];
    assert_eq!(cover_mime(&png, "cover.png"), Ok("image/png"));
    let jpeg = [0xFFu8, 0xD8, 0xFF, 0xE0, 0, 0, 0, 0];
    assert_eq!(cover_mime(&jpeg, "c"), Ok("image/jpeg"));
    assert_eq!(cover_mime(b"plain text", "notes.txt"), Err("notes.txt".to_string()));
}

#[test]
fn spec_kinds() {
    let kind = |keys: &[&str]| Spec::detect_kind(&strings(keys), "x.toml");
    assert!(matches!(kind(&["playlist", "track"]), Ok(SpecKind::Playlist)));
    assert!(matches!(kind(&["chapters", "playlist"]), Ok(SpecKind::Playlist)));
    assert!(matches!(kind(&["track", "chapters"]), Ok(SpecKind::Chapters)));
    match kind(&["track"]) {
        Err(SpecError::UnknownFormat(p)) => assert_eq!(p, "x.toml"),
        other => panic!("unexpected {:?}", other),
    }
}

#[test]
fn spec_kinds_from_toml() {
    let kind = |text: &str| Spec::spec_kind_of(text.as_bytes(), "a/b.toml");
    let playlist = "[playlist]\nid = \"x\"\n\n[[track]]\ntitle = \"t\"\n";
    assert!(matches!(kind(playlist), Ok(SpecKind::Playlist)));
    let chapters = "[chapters]\nid = \"c\"\n[[track]]\ntitle = \"t\"\n";
    assert!(matches!(kind(chapters), Ok(SpecKind::Chapters)));
    assert!(matches!(kind("[chapters]\n[playlist]\n"), Ok(SpecKind::Playlist)));
    match kind("[album]\nid = 1\n") {
        Err(SpecError::UnknownFormat(p)) => assert_eq!(p, "a/b.toml"),
        other => panic!("unexpected {:?}", other),
    }
    match kind("[playlist\nid = ") {
        Err(SpecError::Deserialization(p, message)) => {
            assert_eq!(p, "a/b.toml");
            assert!(!message.is_empty());
        }
        other => panic!("unexpected {:?}", other),
    }
    match Spec::spec_kind_of(&[0xff, 0xfe, b'['], "bin.toml") {
        Err(SpecError::Deserialization(p, _)) => assert_eq!(p, "bin.toml"),
        other => panic!("unexpected {:?}", other),
    }
}

#[test]
fn download_run_order() {
    let args = DownloadArgs { outdir: None::<String>, spec: strings(&["a.toml", "b.toml"]) };
    let plan = download_impl(&args);
    assert_eq!(plan.specs, 2);
    assert_eq!(plan.work, vec![AlbumWork::Download]);
    let mut step = plan.first();
    let mut seen = Vec::new();
    while step != RunStep::Done {
        seen.push(step);
        step = plan.next(step, true);
    }
    assert_eq!(
        seen,
        vec![RunStep::Read(0), RunStep::Work(0, 0), RunStep::Read(1), RunStep::Work(1, 0)]
    );
    assert_eq!(plan.next(RunStep::Read(1), false), RunStep::Stop);
    assert_eq!(plan.next(RunStep::Stop, true), RunStep::Stop);
}

#[test]
fn tag_run_order() {
    let args = TagArgs {
        target: Format::Mp3,
        indir: None::<String>,
        outdir: None,
        keep: true,
        spec: strings(&["one.toml"]),
    };
    let plan = tag_impl(&args);
    assert_eq!(plan.work, vec![AlbumWork::Postprocess, AlbumWork::Tag]);
    assert_eq!(plan.first(), RunStep::Read(0));
    assert_eq!(plan.next(RunStep::Read(0), true), RunStep::Work(0, 0));
    assert_eq!(plan.next(RunStep::Work(0, 0), true), RunStep::Work(0, 1));
    assert_eq!(plan.next(RunStep::Work(0, 1), true), RunStep::Done);
    assert_eq!(plan.next(RunStep::Work(0, 0), false), RunStep::Stop);
    let empty = tag_impl(&TagArgs {
        target: Format::Flac,
        indir: None::<String>,
        outdir: None,
        keep: false,
        spec: Vec::new(),
    });
    assert_eq!(empty.first(), RunStep::Done);
}

#[test]
fn fetched_track_urls_pass() {
    let t = |extractor: &str, id: &str| Track {
        id: id.to_string(),
        extractor: extractor.to_string(),
        title: String::new(),
        artists: vec![],
        track_num: 1,
    };
    for (extractor, id) in [("youtube", "dQw4w9WgXcQ"), ("youtube", "a_b-C"), ("soundcloud", "123456")] {
        let text = t(extractor, id).spec_url().unwrap();
        let u = Url::parse(&text).unwrap();
        assert_eq!(u.as_str(), text);
        assert!(track(&text).is_url_ok());
    }
    assert!(!track("https://api-v2.soundcloud.com/tracks/abc").is_url_ok());

    let v = mdl::fetch::get_video_url(&url("https://www.youtube.com/watch?list=L&v=xyz")).unwrap();
    let mut c = chapters("https://example.org/", &["a"]);
    c.header.url = v;
    assert!(c.is_url_ok());
}
