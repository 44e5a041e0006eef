use music_tools::crawl::FetchError;
use music_tools::download::{
    next_after_resolution, output_file_name, sanitize_filename, select_songs, DownloadOutcome, SongDownload,
};
use music_tools::Song;

fn song(title: &str) -> Song {
    Song {
        title: title.to_string(),
        artist: "A".to_string(),
        url: format!("https://songhub.lk/song/{}", title),
        download_url: None,
    }
}

#[test]
fn sanitize_replaces_forbidden_characters() {
    let s = sanitize_filename("A/B:C?D");
    assert_eq!(s, "A_B_C_D");
    assert!(!s.chars().any(|c| "<>:\"/\\|?*".contains(c)));
}

#[test]
fn sanitize_trims_whitespace() {
    assert_eq!(sanitize_filename("  <Hello> | *World*  "), "_Hello_ _ _World_");
    assert_eq!(sanitize_filename("   "), "");
}

#[test]
fn file_name_appends_extension() {
    assert_eq!(output_file_name(" Ma\\Sihine? "), "Ma_Sihine_.mp3");
}

#[test]
fn one_failed_song_does_not_abort_the_batch() {
    let titles = ["One", "Two", "Three", "Four", "Five"];
    let mut outcome = DownloadOutcome::new();
    for (i, t) in titles.iter().enumerate() {
        let d = if i == 2 { SongDownload::NoMediaUrl } else { SongDownload::Saved };
        outcome.record(t, &d);
    }
    assert_eq!(outcome.failed.len(), 1);
    assert!(outcome.failed[0].contains("Three"));
    assert_eq!(outcome.succeeded.len(), 4);
    assert!(outcome.succeeded.iter().all(|l| !l.contains("Three")));
}

#[test]
fn log_lines_name_the_cause() {
    let mut outcome = DownloadOutcome::new();
    outcome.record("Song", &SongDownload::ResolveFailed("timed out".to_string()));
    outcome.record("Song", &SongDownload::TransferFailed("disk full".to_string()));
    outcome.record("Song", &SongDownload::NoMediaUrl);
    outcome.record("Song", &SongDownload::Saved);
    assert_eq!(outcome.failed[0], "Failed to get URL for Song: timed out");
    assert_eq!(outcome.failed[1], "Failed to download Song: disk full");
    assert_eq!(outcome.failed[2], "No download URL for: Song");
    assert_eq!(outcome.succeeded[0], "\u{2713} Downloaded: Song");
}

#[test]
fn selection_skips_indices_past_the_end() {
    let songs = vec![song("a"), song("b"), song("c")];
    let chosen = select_songs(&songs, &vec![2, 7, 0]);
    let t: Vec<String> = chosen.iter().map(|s| s.title.clone()).collect();
    assert_eq!(t, vec!["c", "a"]);
}

#[test]
fn resolution_decides_the_next_step() {
    match next_after_resolution(Ok(Some("https://a/b.mp3".to_string()))) {
        Ok(url) => assert_eq!(url, "https://a/b.mp3"),
        Err(_) => panic!("a found address is transferred"),
    }
    assert!(matches!(next_after_resolution(Ok(None)), Err(SongDownload::NoMediaUrl)));
    match next_after_resolution(Err(FetchError::BadStatus(503))) {
        Err(SongDownload::ResolveFailed(m)) => assert_eq!(m, "request failed with status: 503"),
        _ => panic!("a failed page fetch ends the song"),
    }
}
