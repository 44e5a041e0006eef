use music_tools::audio_converter::OutputFormat;
use music_tools::bindings::HtmlElement;
use music_tools::search::{filter_artists, search_results, search_results_from, search_url_exec};
use music_tools::settings::AppSettings;
use music_tools::Artist;

fn artist(name: &str) -> Artist {
    Artist { name: name.to_string(), slug: name.to_lowercase(), url: String::new() }
}

#[test]
fn search_page_yields_songs_and_unique_artists() {
    let html = r#"<a href="/song/one"> One </a><a href="/mp3/two.mp3">Two</a>
        <a href="/artist/amara">Amara<span>x</span></a><a href="/artist/amara">Amara</a>
        <a href="/artist/empty">  </a><a href="/about">About</a>"#;
    let r = search_results(html, "amara");
    let titles: Vec<String> = r.songs.iter().map(|s| s.title.clone()).collect();
    assert_eq!(titles, vec!["One", "Two"]);
    assert_eq!(r.songs[0].artist, "amara");
    assert_eq!(r.artists, vec!["Amara"]);
}

#[test]
fn search_artist_uses_first_text_node() {
    let links = vec![HtmlElement {
        href: Some("/artist/x".to_string()),
        data_url: None,
        text: "First Second".to_string(),
        first_text: Some(" First ".to_string()),
    }];
    let r = search_results_from(&links, "q");
    assert_eq!(r.artists, vec!["First"]);
    assert!(r.songs.is_empty());
}

#[test]
fn search_address_is_percent_encoded() {
    assert_eq!(search_url_exec("Nanda Malini"), "https://songhub.lk/search?q=Nanda%20Malini");
}

#[test]
fn filter_keeps_matching_names_ignoring_case() {
    let all = vec![artist("Amara"), artist("Bathiya"), artist("Samara")];
    let r = filter_artists(&all, "  MARA ");
    let names: Vec<String> = r.iter().map(|a| a.name.clone()).collect();
    assert_eq!(names, vec!["Amara", "Samara"]);
}

#[test]
fn filter_keeps_all_for_empty_or_letter_query() {
    let all = vec![artist("Amara"), artist("Bathiya")];
    assert_eq!(filter_artists(&all, "").len(), 2);
    assert_eq!(filter_artists(&all, "z").len(), 2);
    assert_eq!(filter_artists(&all, "7").len(), 0);
}

#[test]
fn settings_directories_are_checked_for_existence() {
    let mut s = AppSettings::default();
    assert_eq!(s.get_download_directory(|_| true), None);
    s.set_download_directory(Some("/music"));
    s.set_metadata_folder(Some("/tags"));
    assert_eq!(s.get_download_directory(|p| p == "/music"), Some("/music".to_string()));
    assert_eq!(s.get_download_directory(|_| false), None);
    assert_eq!(s.get_metadata_folder(|_| true), Some("/tags".to_string()));
    s.set_download_directory(None);
    assert_eq!(s.last_download_directory, None);
    assert_eq!(s.last_metadata_folder, Some("/tags".to_string()));
}

#[test]
fn output_formats_in_menu_order() {
    let names: Vec<&str> = OutputFormat::all().iter().map(|f| f.as_str()).collect();
    assert_eq!(names, vec!["MP3", "FLAC", "WAV", "OGG", "AAC"]);
    assert_eq!(OutputFormat::default(), OutputFormat::MP3);
}
