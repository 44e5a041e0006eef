//! Reading a search-results page, and narrowing a loaded artist list by a
//! typed query.
use vstd::prelude::*;

use crate::bindings::{
    ElementView, HtmlElement, elements_view, html_select, lower_of, lowercase, percent_encoded,
    select_elements, url_encode,
};
use crate::catalog::{
    Artist, ArtistView, BASE_URL, SearchResults, Song, SongView, absolute_url, absolute_url_exec,
    artists_view, songs_view,
};
use crate::download::lines_view;
use crate::text::{chars_of, contains, contains_exec, push_all, string_of, trim, trim_chars};

verus! {

/// The address of the search page for `query`.
pub open spec fn search_url(query: Seq<char>) -> Seq<char> {
    BASE_URL@ + "/search?q="@ + percent_encoded(query)
}

pub fn search_url_exec(query: &str) -> (r: String)
    ensures
        r@ == search_url(query@),
{
    let mut r = chars_of(BASE_URL);
    push_all(&mut r, &chars_of("/search?q="));
    push_all(&mut r, &chars_of(&url_encode(query)));
    string_of(&r)
}

/// A search hit: a link to a song page or media file with non-empty text.
pub open spec fn search_song_of_link(e: ElementView, artist: Seq<char>) -> Option<SongView> {
    match e.href {
        Some(h) => {
            let title = trim(e.text);
            if title.len() > 0 && (contains(h, "/song/"@) || contains(h, "/mp3/"@)) {
                Some(SongView { title, artist, url: absolute_url(h), download_url: None })
            } else {
                None
            }
        },
        None => None,
    }
}

pub open spec fn search_songs(es: Seq<ElementView>, artist: Seq<char>) -> Seq<SongView>
    decreases es.len(),
{
    if es.len() == 0 {
        Seq::empty()
    } else {
        let r = search_songs(es.drop_last(), artist);
        match search_song_of_link(es.last(), artist) {
            Some(x) => r.push(x),
            None => r,
        }
    }
}

/// The artist name a link shows: the trimmed first text node of a link to
/// an artist page, where that is not empty.
pub open spec fn artist_label(e: ElementView) -> Option<Seq<char>> {
    match (e.href, e.first_text) {
        (Some(h), Some(t)) => if contains(h, "/artist/"@) && trim(t).len() > 0 {
            Some(trim(t))
        } else {
            None
        },
        _ => None,
    }
}

/// The artist names that the links show, each once, in order of first sight.
pub open spec fn artist_labels(es: Seq<ElementView>) -> Seq<Seq<char>>
    decreases es.len(),
{
    if es.len() == 0 {
        Seq::empty()
    } else {
        let r = artist_labels(es.drop_last());
        match artist_label(es.last()) {
            Some(n) => if r.contains(n) {
                r
            } else {
                r.push(n)
            },
            None => r,
        }
    }
}

fn names_contain(names: &Vec<String>, n: &String) -> (r: bool)
    ensures
        r == lines_view(names@).contains(n@),
{
    let ghost nv = lines_view(names@);
    let mut i: usize = 0;
    while i < names.len()
        invariant
            i <= names.len(),
            nv == lines_view(names@),
            forall|j: int| 0 <= j < i ==> nv[j] != n@,
        decreases names.len() - i,
    {
        if names[i] == *n {
            assert(nv[i as int] == n@);
            return true;
        }
        i = i + 1;
    }
    false
}

/// The songs and artist names found among the links of a search page; the
/// songs are credited to `query`.
pub fn search_results_from(links: &Vec<HtmlElement>, query: &str) -> (r: SearchResults)
    ensures
        songs_view(r.songs@) == search_songs(elements_view(links@), query@),
        lines_view(r.artists@) == artist_labels(elements_view(links@)),
{
    let ghost es = elements_view(links@);
    let mut songs: Vec<Song> = Vec::new();
    let mut artists: Vec<String> = Vec::new();
    let song_path = chars_of("/song/");
    let mp3_path = chars_of("/mp3/");
    let artist_path = chars_of("/artist/");
    let mut i: usize = 0;
    assert(es.subrange(0, 0) =~= Seq::<ElementView>::empty());
    assert(songs_view(songs@) =~= Seq::<SongView>::empty());
    assert(lines_view(artists@) =~= Seq::<Seq<char>>::empty());
    while i < links.len()
        invariant
            i <= links.len(),
            es == elements_view(links@),
            song_path@ == "/song/"@,
            mp3_path@ == "/mp3/"@,
            artist_path@ == "/artist/"@,
            songs_view(songs@) == search_songs(es.subrange(0, i as int), query@),
            lines_view(artists@) == artist_labels(es.subrange(0, i as int)),
        decreases links.len() - i,
    {
        let ghost sub = es.subrange(0, i as int + 1);
        assert(sub.drop_last() =~= es.subrange(0, i as int));
        assert(sub.last() == links@[i as int]@);
        let link = &links[i];
        if let Some(h) = &link.href {
            let hc = chars_of(h);
            let title = trim_chars(&chars_of(&link.text));
            if title.len() > 0 && (contains_exec(&hc, &song_path) || contains_exec(&hc, &mp3_path)) {
                let song = Song {
                    title: string_of(&title),
                    artist: string_of(&chars_of(query)),
                    url: string_of(&absolute_url_exec(&hc)),
                    download_url: None,
                };
                let ghost before = songs@;
                songs.push(song);
                assert(songs_view(songs@) =~= songs_view(before).push(song@));
            }
            if let Some(t) = &link.first_text {
                let name = trim_chars(&chars_of(t));
                if contains_exec(&hc, &artist_path) && name.len() > 0 {
                    let n = string_of(&name);
                    if !names_contain(&artists, &n) {
                        let ghost before = artists@;
                        artists.push(n);
                        assert(lines_view(artists@) =~= lines_view(before).push(name@));
                    }
                }
            }
        }
        i = i + 1;
    }
    assert(es.subrange(0, links.len() as int) =~= es);
    SearchResults { songs, artists }
}

/// The songs and artist names on the search page `html`.
pub fn search_results(html: &str, query: &str) -> (r: SearchResults)
    ensures
        ({
            let es = match html_select(html@, "a"@) {
                Some(es) => es,
                None => Seq::empty(),
            };
            songs_view(r.songs@) == search_songs(es, query@) && lines_view(r.artists@)
                == artist_labels(es)
        }),
{
    let links = match select_elements(html, "a") {
        Some(links) => links,
        None => {
            let v: Vec<HtmlElement> = Vec::new();
            assert(elements_view(v@) =~= Seq::<ElementView>::empty());
            v
        },
    };
    search_results_from(&links, query)
}

/// A query of one ASCII letter: it names a letter listing to load rather
/// than a filter.
pub open spec fn is_letter_query(q: Seq<char>) -> bool {
    q.len() == 1 && (('a' <= q[0] && q[0] <= 'z') || ('A' <= q[0] && q[0] <= 'Z'))
}

/// The artists whose name, in lower case, holds `lq`.
pub open spec fn artists_matching(all: Seq<ArtistView>, lq: Seq<char>) -> Seq<ArtistView>
    decreases all.len(),
{
    if all.len() == 0 {
        Seq::empty()
    } else {
        let r = artists_matching(all.drop_last(), lq);
        if contains(lower_of(all.last().name), lq) {
            r.push(all.last())
        } else {
            r
        }
    }
}

/// The artists that the typed query keeps: all of them for an empty query or
/// a single letter, else those whose name holds the query, ignoring case.
pub open spec fn filtered_artists(all: Seq<ArtistView>, query: Seq<char>) -> Seq<ArtistView> {
    let q = trim(query);
    if q.len() == 0 || is_letter_query(q) {
        all
    } else {
        artists_matching(all, lower_of(q))
    }
}

fn copy_artist(a: &Artist) -> (r: Artist)
    ensures
        r@ == a@,
{
    Artist { name: a.name.clone(), slug: a.slug.clone(), url: a.url.clone() }
}

/// The loaded artists narrowed by the typed query.
pub fn filter_artists(all: &Vec<Artist>, query: &str) -> (r: Vec<Artist>)
    ensures
        artists_view(r@) == filtered_artists(artists_view(all@), query@),
{
    let q = trim_chars(&chars_of(query));
    let letter = q.len() == 1 && (('a' <= q[0] && q[0] <= 'z') || ('A' <= q[0] && q[0] <= 'Z'));
    let keep_all = q.len() == 0 || letter;
    let lq = if keep_all {
        Vec::new()
    } else {
        chars_of(&lowercase(&string_of(&q)))
    };
    let ghost av = artists_view(all@);
    let mut r: Vec<Artist> = Vec::new();
    let mut i: usize = 0;
    assert(av.subrange(0, 0) =~= Seq::<ArtistView>::empty());
    assert(artists_view(r@) =~= Seq::<ArtistView>::empty());
    while i < all.len()
        invariant
            i <= all.len(),
            av == artists_view(all@),
            !keep_all ==> lq@ == lower_of(q@),
            keep_all ==> artists_view(r@) == av.subrange(0, i as int),
            !keep_all ==> artists_view(r@) == artists_matching(av.subrange(0, i as int), lq@),
        decreases all.len() - i,
    {
        let ghost sub = av.subrange(0, i as int + 1);
        assert(sub.drop_last() =~= av.subrange(0, i as int));
        assert(sub.last() == all@[i as int]@);
        let ghost before = r@;
        if keep_all || contains_exec(&chars_of(&lowercase(&all[i].name)), &lq) {
            r.push(copy_artist(&all[i]));
            assert(artists_view(r@) =~= artists_view(before).push(all@[i as int]@));
        }
        assert(keep_all ==> artists_view(r@) =~= av.subrange(0, i as int + 1));
        i = i + 1;
    }
    assert(av.subrange(0, all.len() as int) =~= av);
    r
}

} // verus!
