use music_tools::bindings::HtmlElement;
use music_tools::extract::{
    artists_from_links, extract_artists, extract_download_url, extract_songs, media_url_from,
    songs_from_links, sort_songs,
};
use music_tools::{Artist, Song};

fn link(href: &str, text: &str) -> HtmlElement {
    HtmlElement {
        href: Some(href.to_string()),
        data_url: None,
        text: text.to_string(),
        first_text: Some(text.to_string()),
    }
}

fn names(artists: &[Artist]) -> Vec<String> {
    artists.iter().map(|a| a.name.clone()).collect()
}

fn titles(songs: &[Song]) -> Vec<String> {
    songs.iter().map(|s| s.title.clone()).collect()
}

#[test]
fn empty_link_text_names_artist_from_slug() {
    let artists = artists_from_links(&vec![link("/artist/john-doe", "")]);
    assert_eq!(artists.len(), 1);
    assert_eq!(artists[0].name, "John Doe");
    assert_eq!(artists[0].slug, "john-doe");
    assert_eq!(artists[0].url, "https://songhub.lk/artist/john-doe");
}

#[test]
fn empty_anchor_in_document_names_artist_from_slug() {
    let html = r#"<html><body><a href="/artist/john-doe"></a></body></html>"#;
    let artists = extract_artists(html);
    assert_eq!(artists.len(), 1);
    assert_eq!(artists[0].name, "John Doe");
}

#[test]
fn one_character_name_falls_back_to_slug() {
    let artists = artists_from_links(&vec![link("/artist/x-ray-band", "X")]);
    assert_eq!(artists[0].name, "X Ray Band");
}

#[test]
fn vendor_suffixes_are_stripped_ignoring_case() {
    let artists = artists_from_links(&vec![
        link("/artist/a", "Amara MP3 Songs"),
        link("/artist/b", "Bathiya mp3 song"),
        link("/artist/c", "  Chitral Mp3  "),
    ]);
    assert_eq!(names(&artists), vec!["Amara", "Bathiya", "Chitral"]);
}

#[test]
fn doubled_name_is_collapsed() {
    let artists = artists_from_links(&vec![link("/artist/artist-name", "Artist Name Artist Name")]);
    assert_eq!(artists[0].name, "Artist Name");
}

#[test]
fn different_halves_are_kept() {
    let artists = artists_from_links(&vec![link("/artist/duo", "Sunil Edirisinghe Nanda Malini")]);
    assert_eq!(artists[0].name, "Sunil Edirisinghe Nanda Malini");
}

#[test]
fn href_forms_are_normalized() {
    let artists = artists_from_links(&vec![
        link("https://songhub.lk/artist/abs-one", "Abs One"),
        link("artist/rel-two", "Rel Two"),
        link("/artist/root-three", "Root Three"),
        link("/artist/", "Bare Prefix"),
        link("/artist", "Bare Word"),
        link("/song/not-an-artist", "Song"),
        link("/artist/artist", "Self"),
        link("/artist/x/artist/y", "Nested"),
    ]);
    let slugs: Vec<String> = artists.iter().map(|a| a.slug.clone()).collect();
    assert_eq!(slugs, vec!["abs-one", "rel-two", "root-three"]);
}

#[test]
fn unparsable_absolute_href_is_skipped() {
    let artists = artists_from_links(&vec![link("http://[bad/artist/x", "X Band")]);
    assert!(artists.is_empty());
}

#[test]
fn extracting_twice_gives_the_same_artists() {
    let html = r#"<a href="/artist/b-one">B One</a><a href="/artist/a-two">A Two mp3</a><a href="/artist/b-one"><img/>B One</a>"#;
    let first = extract_artists(html);
    let second = extract_artists(html);
    assert_eq!(first.len(), 3);
    assert_eq!(names(&first), names(&second));
    let s1: Vec<String> = first.iter().map(|a| a.slug.clone()).collect();
    let s2: Vec<String> = second.iter().map(|a| a.slug.clone()).collect();
    assert_eq!(s1, s2);
}

#[test]
fn malformed_markup_yields_what_is_there() {
    let html = r#"<div><a href="/artist/ok-one">Ok One<p><a href="/artist/two">"#;
    let artists = extract_artists(html);
    assert_eq!(artists[0].slug, "ok-one");
    assert_eq!(extract_artists("").len(), 0);
}

#[test]
fn song_links_are_filtered_and_titled() {
    let songs = songs_from_links(
        &vec![
            link("/song/dawn", "Dawn mp3 song"),
            link("/artist/x/song/y", "Cross Link"),
            link("https://cdn.example/mp3/night.mp3", "Night"),
            link("/about", "About"),
            link("/song/empty", "   "),
            link("music/song/rel", "Rel mp3 songs"),
        ],
        &"Amara".to_string(),
    );
    assert_eq!(titles(&songs), vec!["Dawn", "Night", "Rel"]);
    assert_eq!(songs[0].url, "https://songhub.lk/song/dawn");
    assert_eq!(songs[1].url, "https://cdn.example/mp3/night.mp3");
    assert_eq!(songs[2].url, "https://songhub.lk/music/song/rel");
    assert_eq!(songs[0].artist, "Amara");
    assert!(songs[0].download_url.is_none());
}

#[test]
fn songs_sort_by_title_ignoring_case() {
    let songs = songs_from_links(
        &vec![link("/song/1", "beta"), link("/song/2", "Alpha"), link("/song/3", "Gamma"), link("/song/4", "ALPHA two")],
        &"X".to_string(),
    );
    let sorted = sort_songs(songs);
    assert_eq!(titles(&sorted), vec!["Alpha", "ALPHA two", "beta", "Gamma"]);
}

#[test]
fn artist_page_lists_sorted_songs_with_heading_name() {
    let html = r#"<html><body><h1>Amara Ranatunga Songs</h1>
        <a href="/song/zebra">zebra</a>
        <a href="/song/apple">Apple mp3 song</a>
        <a href="/artist/amara/song/x">cross</a>
        <a href="/mp3/mango.mp3">Mango</a></body></html>"#;
    let songs = extract_songs(html, "amara-ranatunga");
    assert_eq!(titles(&songs), vec!["Apple", "Mango", "zebra"]);
    assert!(songs.iter().all(|s| s.artist == "Amara Ranatunga"));
}

#[test]
fn artist_page_without_heading_uses_slug() {
    let html = r#"<a href="/song/one">One</a>"#;
    let songs = extract_songs(html, "nanda-malini");
    assert_eq!(songs[0].artist, "nanda malini");
}

#[test]
fn embedded_media_url_is_found_first() {
    let html = r#"<script>var src = "https://media.songhub.lk/files/track.mp3";</script>
        <a href="/download/123">Download</a>"#;
    assert_eq!(
        extract_download_url(html),
        Some("https://media.songhub.lk/files/track.mp3".to_string())
    );
}

#[test]
fn download_link_is_the_fallback() {
    let html = r#"<a href="/about">About</a><a href="/download/123">Download</a>"#;
    assert_eq!(extract_download_url(html), Some("https://songhub.lk/download/123".to_string()));
}

#[test]
fn button_data_url_is_used() {
    let html = r#"<button data-url="/files/x.mp3">Play</button>"#;
    assert_eq!(extract_download_url(html), Some("https://songhub.lk/files/x.mp3".to_string()));
}

#[test]
fn no_media_is_none() {
    assert_eq!(extract_download_url("<p>nothing here</p>"), None);
}

#[test]
fn media_url_prefers_embedded_match() {
    let candidates = vec![link("/download/9", "d")];
    assert_eq!(
        media_url_from(Some("https://a/b.mp3".to_string()), &candidates),
        Some("https://a/b.mp3".to_string())
    );
    assert_eq!(media_url_from(None, &candidates), Some("https://songhub.lk/download/9".to_string()));
    let data_only = vec![HtmlElement {
        href: Some("/page".to_string()),
        data_url: Some("x.mp3".to_string()),
        text: String::new(),
        first_text: None,
    }];
    assert_eq!(media_url_from(None, &data_only), Some("https://songhub.lk/x.mp3".to_string()));
    assert_eq!(media_url_from(None, &vec![link("/page", "p")]), None);
}
