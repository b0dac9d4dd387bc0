use neri_player_desktop::downloads::{
    check_not_downloaded, download_filename, ext_from_content_type, referer_for_url, remove_download, sanitize_filename,
    DownloadedTrack,
};
use neri_player_desktop::lyrics_source::{lrc_lines, netease_lines, next_lyrics_step, pick_search_match, LyricsAction, LyricsAnswer};
use neri_player_desktop::netease::{
    best_bili_stream, check_lyrics_code, download_bitrate, missing_track_batches, quality_level, song_ids_field, song_url_result, BiliAudioResult,
    NeteaseLyrics, NeteaseSearchResult, NeteaseSongUrl,
};
use neri_player_desktop::playback::{
    clamp_loudness_gain, clamped_position, equalizer_levels, finished_after_query, may_have_finished, track_end_tick,
};
use neri_player_desktop::scanner::{is_audio_extension, local_track};
use neri_player_desktop::state::TrackSource;

fn dl(id: &str) -> DownloadedTrack {
    DownloadedTrack {
        id: id.to_string(),
        title: String::new(),
        artist: String::new(),
        album: String::new(),
        duration_ms: 0,
        cover_url: None,
        source: String::new(),
        file_path: format!("/d/{}.mp3", id),
        file_size: 1,
        downloaded_at: 0,
    }
}

#[test]
fn file_names_are_made_safe() {
    assert_eq!(sanitize_filename("  a/b:c*?\"<>|d  "), "a_b_c______d");
    assert_eq!(download_filename("AC/DC", "Song?", "mp3"), "AC_DC - Song_.mp3");
    assert_eq!(download_filename("", " Solo ", "flac"), "Solo.flac");
}

#[test]
fn extensions_and_referers() {
    assert_eq!(ext_from_content_type("audio/mp4"), "m4a");
    assert_eq!(ext_from_content_type("audio/ogg; codecs=opus"), "ogg");
    assert_eq!(ext_from_content_type("audio/webm"), "webm");
    assert_eq!(ext_from_content_type("audio/flac"), "flac");
    assert_eq!(ext_from_content_type("audio/x-wav"), "wav");
    assert_eq!(ext_from_content_type("audio/mpeg"), "mp3");
    assert_eq!(referer_for_url("https://upos.bilivideo.com/x"), "https://www.bilibili.com");
    assert_eq!(referer_for_url("https://rr1.googlevideo.com/x"), "https://music.youtube.com");
    assert_eq!(referer_for_url("https://m701.music.126.net/x"), "https://music.163.com");
}

#[test]
fn manifest_checks_and_removal() {
    let mut m = vec![dl("a"), dl("b"), dl("a")];
    assert_eq!(check_not_downloaded(&m, "a").err().unwrap().message(), "Track already downloaded");
    assert!(check_not_downloaded(&m, "z").is_ok());
    let gone = remove_download(&mut m, "a").ok().unwrap();
    assert_eq!(gone.file_path, "/d/a.mp3");
    assert_eq!(m.iter().map(|t| t.id.clone()).collect::<Vec<_>>(), vec!["b", "a"]);
    assert_eq!(remove_download(&mut m, "z").err().unwrap().message(), "Download not found");
}

#[test]
fn netease_request_choices() {
    assert_eq!(quality_level("high"), "higher");
    assert_eq!(quality_level("jymaster"), "jymaster");
    assert_eq!(quality_level("best"), "exhigh");
    assert_eq!(download_bitrate("standard"), 128000);
    assert_eq!(download_bitrate("hires"), 1999000);
    assert_eq!(download_bitrate("?"), 320000);
    assert_eq!(song_ids_field(12345), "[12345]");
    assert!(check_lyrics_code(200).is_ok());
    assert_eq!(check_lyrics_code(-460).err().unwrap().message(), "Lyrics API code: -460");
    let u = song_url_result(&NeteaseSongUrl { url: Some("u".to_string()), br: 320000, size: 9, audio_type: "mp3".to_string() });
    assert_eq!((u.url.as_deref(), u.bitrate, u.format.as_str()), (Some("u"), 320000, "mp3"));
    let s = |u: &str| BiliAudioResult { url: u.to_string(), bandwidth: 1, codecs: "mp4a".to_string() };
    assert_eq!(best_bili_stream(vec![s("first"), s("second")]).ok().unwrap().url, "first");
    assert_eq!(best_bili_stream(vec![]).err().unwrap().message(), "No audio stream found");
}

#[test]
fn lyrics_choice_prefers_word_timed_and_attaches_translation() {
    let d = NeteaseLyrics {
        lrc: Some("[00:01.00]Plain".to_string()),
        tlyric: Some("[00:01.00]Plain translated".to_string()),
        yrc: Some("[1000,2000](1000,2000,0)Word".to_string()),
        ytlrc: Some("[00:01.10]Word translated".to_string()),
    };
    let lines = netease_lines(&d).unwrap();
    assert_eq!(lines[0].text, "Word");
    assert_eq!(lines[0].translation.as_deref(), Some("Word translated"));
    let plain = NeteaseLyrics { lrc: Some("[00:01.00]Plain".to_string()), tlyric: None, yrc: Some("  ".to_string()), ytlrc: None };
    let lines = netease_lines(&plain).unwrap();
    assert_eq!(lines[0].text, "Plain");
    assert_eq!(lines[0].translation, None);
    let none = NeteaseLyrics { lrc: Some("no tags".to_string()), tlyric: None, yrc: None, ytlrc: None };
    assert!(netease_lines(&none).is_none());
    assert!(lrc_lines("[00:00.50]x").is_some());
    assert!(lrc_lines("").is_none());
}

#[test]
fn search_match_prefers_the_title() {
    let r = |id: u64, name: &str| NeteaseSearchResult {
        id,
        name: name.to_string(),
        artists: vec![],
        album: String::new(),
        duration_ms: 0,
        cover_url: None,
    };
    assert_eq!(pick_search_match(&vec![r(1, "Other"), r(2, "HELLO"), r(3, "hello")], "Hello"), Some(2));
    assert_eq!(pick_search_match(&vec![r(1, "Other")], "Hello"), Some(1));
    assert_eq!(pick_search_match(&vec![], "Hello"), None);
}

#[test]
fn playback_decisions() {
    assert_eq!(clamp_loudness_gain(-3), 0);
    assert_eq!(clamp_loudness_gain(2000), 1500);
    assert_eq!(equalizer_levels(&vec![1, 2, 3, 4, 5], &vec![-2000, 100]), vec![-1500, 100, 3, 4, 5]);
    assert_eq!(equalizer_levels(&vec![0; 5], &vec![9, 9, 9, 9, 9, 9, 9]), vec![9; 5]);
    assert_eq!(clamped_position(1000, 500, 1200), 1200);
    assert_eq!(clamped_position(1000, 500, 0), 1500);
    assert!(!may_have_finished(None));
    assert!(!may_have_finished(Some(2999)));
    assert!(may_have_finished(Some(3000)));
    assert!(finished_after_query(true, 0, 0));
    assert!(!finished_after_query(true, 60000, 54000));
    assert!(finished_after_query(true, 60000, 55000));
    assert!(finished_after_query(true, 3000, 0));
    assert!(!finished_after_query(false, 0, 0));
    assert_eq!(track_end_tick(true, false), (true, true));
    assert_eq!(track_end_tick(true, true), (false, true));
    assert_eq!(track_end_tick(false, true), (false, false));
}

#[test]
fn scanned_files() {
    assert!(is_audio_extension("FLAC"));
    assert!(!is_audio_extension("txt"));
    let t = local_track("/m/a.mp3", Some("a".to_string()), None, None, Some("Al".to_string()), 42);
    assert_eq!(t.id, "local:/m/a.mp3");
    assert_eq!(t.title, "a");
    assert_eq!(t.artist, "Unknown Artist");
    assert_eq!(t.album, "Al");
    assert_eq!(t.source, TrackSource::Local);
    assert_eq!(t.url, "/m/a.mp3");
    let u = local_track("/m/b", None, None, None, None, 0);
    assert_eq!(u.title, "Unknown");
}

#[test]
fn sanitized_names_hold_no_unsafe_characters() {
    let s = sanitize_filename(" <Best|Of> \"2024\": a/b\\c? ");
    assert_eq!(s, "_Best_Of_ _2024__ a_b_c_");
    assert!(!s.chars().any(|c| "/\\:*?\"<>|".contains(c)));
}

#[test]
fn missing_playlist_tracks_come_in_batches_of_300() {
    let ids: Vec<u64> = (0..650).collect();
    let batches = missing_track_batches(&ids, 20);
    let lens: Vec<usize> = batches.iter().map(|b| b.len()).collect();
    assert_eq!(lens, vec![300, 300, 30]);
    assert_eq!(batches[0][0], 20);
    assert_eq!(batches.concat(), (20..650).collect::<Vec<u64>>());
    assert!(missing_track_batches(&ids, 650).is_empty());
    assert!(missing_track_batches(&ids, 900).is_empty());
    assert_eq!(missing_track_batches(&vec![7, 8, 9], 1), vec![vec![8, 9]]);
}

fn step_name(a: &LyricsAction) -> String {
    match a {
        LyricsAction::ReadSidecar => "sidecar".to_string(),
        LyricsAction::SearchNetease => "search".to_string(),
        LyricsAction::FetchNetease(id) => format!("fetch {}", id),
        LyricsAction::AskLrcLib => "lrclib".to_string(),
        LyricsAction::SearchLrcLib => "lrclib search".to_string(),
        LyricsAction::Finish(lines) => format!("finish {}", lines.len()),
    }
}

#[test]
fn lyrics_sources_are_asked_in_order() {
    let step = |id: Option<u64>, a: LyricsAnswer| step_name(&next_lyrics_step(id, "Song", &a));
    assert_eq!(step(None, LyricsAnswer::Begin { has_audio_file: true }), "sidecar");
    assert_eq!(step(Some(7), LyricsAnswer::Begin { has_audio_file: false }), "fetch 7");
    assert_eq!(step(None, LyricsAnswer::Sidecar(Some("[00:01.00]a\n[00:02.00]b".to_string()))), "finish 2");
    assert_eq!(step(None, LyricsAnswer::Sidecar(Some("no tags".to_string()))), "search");
    assert_eq!(step(Some(3), LyricsAnswer::Sidecar(None)), "fetch 3");
    let results = vec![
        NeteaseSearchResult { id: 1, name: "Other".to_string(), artists: vec![], album: String::new(), duration_ms: 0, cover_url: None },
        NeteaseSearchResult { id: 2, name: "song".to_string(), artists: vec![], album: String::new(), duration_ms: 0, cover_url: None },
    ];
    assert_eq!(step(None, LyricsAnswer::NeteaseSearch(Some(results))), "fetch 2");
    assert_eq!(step(None, LyricsAnswer::NeteaseSearch(Some(vec![]))), "lrclib");
    assert_eq!(step(None, LyricsAnswer::NeteaseSearch(None)), "lrclib");
    let none = NeteaseLyrics { lrc: None, tlyric: None, yrc: None, ytlrc: None };
    assert_eq!(step(None, LyricsAnswer::NeteaseAnswer(Some(none))), "lrclib");
    assert_eq!(step(None, LyricsAnswer::LrcLibExact(None)), "lrclib search");
    assert_eq!(step(None, LyricsAnswer::LrcLibExact(Some("[00:01.00]x".to_string()))), "finish 1");
    assert_eq!(step(None, LyricsAnswer::LrcLibSearch(vec![None, Some("plain".to_string()), Some("[00:01.00]y".to_string())])), "finish 1");
    assert_eq!(step(None, LyricsAnswer::LrcLibSearch(vec![None])), "finish 0");
}
