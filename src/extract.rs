//! Pure extraction rules: from the elements of a catalog page to artists,
//! songs and a media address.
use vstd::prelude::*;

use crate::bindings::{
    ElementView, HtmlElement, elements_view, html_select, regex_first_match, select_elements,
    first_match, lower_of, lowercase, upper_of, uppercase_char, url_path, url_path_of,
};
use crate::order::{seq_le, sort_by_keys};
use crate::catalog::{
    Artist, ArtistView, Song, SongView, absolute_url, absolute_url_exec, artist_page_url,
    artist_page_url_exec, artists_view, opt_view, songs_view,
};
use crate::text::{
    chars_equal, chars_of, contains, contains_exec, copy_range, ends_with, ends_with_exec,
    is_space, is_space_char, push_all, starts_with, starts_with_exec, string_of,
    strip_suffix_ci, strip_suffix_ci_exec, trim, trim_chars,
};

verus! {

/// Path prefix of artist pages.
pub const ARTIST_PREFIX: &'static str = "/artist/";

/// Regular expression for an absolute media address embedded anywhere in a page.
pub const MEDIA_URL_PATTERN: &'static str = "https?://[^\"'\\s]+\\.mp3";

/// Elements of a song page that may carry a download link.
pub const DOWNLOAD_SELECTOR: &'static str = "a[href*='download'], a[href*='.mp3'], button[data-url], a[data-download]";

/// Link text with the vendor suffixes " mp3 songs", " mp3 song" and " mp3"
/// removed (each once, in that order, ignoring ASCII case) and surrounding
/// whitespace trimmed.
pub open spec fn strip_vendor(text: Seq<char>) -> Seq<char> {
    trim(
        strip_suffix_ci(
            strip_suffix_ci(strip_suffix_ci(trim(text), " mp3 songs"@), " mp3 song"@),
            " mp3"@,
        ),
    )
}

pub fn strip_vendor_exec(text: &Vec<char>) -> (r: Vec<char>)
    ensures
        r@ == strip_vendor(text@),
{
    let t = trim_chars(text);
    let a = strip_suffix_ci_exec(&t, &chars_of(" mp3 songs"));
    let b = strip_suffix_ci_exec(&a, &chars_of(" mp3 song"));
    let c = strip_suffix_ci_exec(&b, &chars_of(" mp3"));
    trim_chars(&c)
}

/// A name written twice, "X X", becomes "X": the text has an odd length, its
/// middle character is whitespace and the halves on either side are equal.
pub open spec fn collapse_halves(n: Seq<char>) -> Seq<char> {
    let k = (n.len() / 2) as int;
    if n.len() % 2 == 1 && n.len() >= 3 && is_space(n[k]) && n.subrange(0, k) == n.subrange(
        k + 1,
        n.len() as int,
    ) {
        n.subrange(0, k)
    } else {
        n
    }
}

pub fn collapse_halves_exec(n: &Vec<char>) -> (r: Vec<char>)
    ensures
        r@ == collapse_halves(n@),
{
    let len = n.len();
    let k = len / 2;
    if len % 2 == 1 && len >= 3 && is_space_char(n[k]) {
        let first = copy_range(n, 0, k);
        let second = copy_range(n, k + 1, len);
        if chars_equal(&first, &second) {
            return first;
        }
    }
    let r = copy_range(n, 0, len);
    assert(r@ =~= n@);
    r
}

/// A display name made from a slug: each hyphen becomes a space and the first
/// character of each hyphen-separated segment is upper-cased.
pub open spec fn title_from_slug(s: Seq<char>) -> Seq<char>
    decreases s.len(),
{
    if s.len() == 0 {
        Seq::empty()
    } else {
        let t = title_from_slug(s.drop_last());
        let c = s.last();
        if c == '-' {
            t.push(' ')
        } else if s.len() == 1 || s[s.len() - 2] == '-' {
            t + upper_of(c)
        } else {
            t.push(c)
        }
    }
}

pub fn title_from_slug_exec(s: &Vec<char>) -> (r: Vec<char>)
    ensures
        r@ == title_from_slug(s@),
{
    let mut r: Vec<char> = Vec::new();
    let mut i: usize = 0;
    assert(s@.subrange(0, 0) =~= Seq::<char>::empty());
    while i < s.len()
        invariant
            i <= s.len(),
            r@ == title_from_slug(s@.subrange(0, i as int)),
        decreases s.len() - i,
    {
        let ghost pre = s@.subrange(0, i as int + 1);
        assert(pre.drop_last() =~= s@.subrange(0, i as int));
        assert(pre.last() == s@[i as int]);
        if i >= 1 {
            assert(pre[pre.len() - 2] == s@[i - 1]);
        }
        let c = s[i];
        if c == '-' {
            r.push(' ');
        } else if i == 0 || s[i - 1] == '-' {
            push_all(&mut r, &uppercase_char(c));
        } else {
            r.push(c);
        }
        i = i + 1;
    }
    assert(s@.subrange(0, s@.len() as int) =~= s@);
    r
}

/// The display name of an artist link: the cleaned link text, or, where that
/// is shorter than two characters, a name made from the slug.
pub open spec fn display_name(text: Seq<char>, slug: Seq<char>) -> Seq<char> {
    let n = collapse_halves(strip_vendor(text));
    if n.len() < 2 {
        title_from_slug(slug)
    } else {
        n
    }
}

pub fn display_name_exec(text: &Vec<char>, slug: &Vec<char>) -> (r: Vec<char>)
    ensures
        r@ == display_name(text@, slug@),
{
    let n = collapse_halves_exec(&strip_vendor_exec(text));
    if n.len() < 2 {
        title_from_slug_exec(slug)
    } else {
        n
    }
}

/// The path of a link that may lead to an artist page: the parsed path of an
/// absolute address, or a root-relative or relative artist path.
pub open spec fn artist_path(href: Seq<char>) -> Option<Seq<char>> {
    if starts_with(href, "http"@) {
        url_path_of(href)
    } else if starts_with(href, ARTIST_PREFIX@) {
        Some(href)
    } else if starts_with(href, "artist/"@) {
        Some("/"@ + href)
    } else {
        None
    }
}

/// The slug of an artist link: what follows the artist prefix, trimmed; none
/// where that is empty, is the word "artist" or holds the prefix again.
pub open spec fn slug_of(href: Seq<char>) -> Option<Seq<char>> {
    match artist_path(href) {
        Some(p) => if starts_with(p, ARTIST_PREFIX@) {
            let slug = trim(p.subrange(ARTIST_PREFIX@.len() as int, p.len() as int));
            if slug.len() == 0 || contains(slug, ARTIST_PREFIX@) || slug == "artist"@ {
                None
            } else {
                Some(slug)
            }
        } else {
            None
        },
        None => None,
    }
}

fn artist_path_exec(href: &Vec<char>) -> (r: Option<Vec<char>>)
    ensures
        match r {
            Some(p) => artist_path(href@) == Some(p@),
            None => artist_path(href@) is None,
        },
{
    if starts_with_exec(href, &chars_of("http")) {
        match url_path(&string_of(href)) {
            Some(p) => Some(chars_of(&p)),
            None => None,
        }
    } else if starts_with_exec(href, &chars_of(ARTIST_PREFIX)) {
        Some(copy_range(href, 0, href.len()))
    } else if starts_with_exec(href, &chars_of("artist/")) {
        let mut p = chars_of("/");
        push_all(&mut p, href);
        Some(p)
    } else {
        None
    }
}

pub fn slug_of_exec(href: &Vec<char>) -> (r: Option<Vec<char>>)
    ensures
        match r {
            Some(s) => slug_of(href@) == Some(s@),
            None => slug_of(href@) is None,
        },
{
    let path = match artist_path_exec(href) {
        Some(p) => p,
        None => return None,
    };
    let prefix = chars_of(ARTIST_PREFIX);
    if !starts_with_exec(&path, &prefix) {
        return None;
    }
    let slug = trim_chars(&copy_range(&path, prefix.len(), path.len()));
    if slug.len() == 0 || contains_exec(&slug, &prefix) || chars_equal(&slug, &chars_of("artist")) {
        None
    } else {
        Some(slug)
    }
}

/// The artist that a link names, if it is an artist link with a usable name.
pub open spec fn artist_of_link(e: ElementView) -> Option<ArtistView> {
    match e.href {
        Some(h) => match slug_of(h) {
            Some(slug) => {
                let name = display_name(e.text, slug);
                if name.len() == 0 {
                    None
                } else {
                    Some(ArtistView { name, slug, url: artist_page_url(slug) })
                }
            },
            None => None,
        },
        None => None,
    }
}

/// The artists that the links name, in document order.
pub open spec fn artists_from(es: Seq<ElementView>) -> Seq<ArtistView>
    decreases es.len(),
{
    if es.len() == 0 {
        Seq::empty()
    } else {
        let r = artists_from(es.drop_last());
        match artist_of_link(es.last()) {
            Some(a) => r.push(a),
            None => r,
        }
    }
}

pub fn artist_from_link(e: &HtmlElement) -> (r: Option<Artist>)
    ensures
        match r {
            Some(a) => artist_of_link(e@) == Some(a@),
            None => artist_of_link(e@) is None,
        },
{
    let href = match &e.href {
        Some(h) => chars_of(h),
        None => return None,
    };
    let slug = match slug_of_exec(&href) {
        Some(s) => s,
        None => return None,
    };
    let name = display_name_exec(&chars_of(&e.text), &slug);
    if name.len() == 0 {
        return None;
    }
    let url = artist_page_url_exec(&slug);
    Some(Artist { name: string_of(&name), slug: string_of(&slug), url: string_of(&url) })
}

/// The artists named by `links`, in order; one per artist link, duplicates kept.
pub fn artists_from_links(links: &Vec<HtmlElement>) -> (r: Vec<Artist>)
    ensures
        artists_view(r@) == artists_from(elements_view(links@)),
{
    let mut r: Vec<Artist> = Vec::new();
    let mut i: usize = 0;
    assert(elements_view(links@).subrange(0, 0) =~= Seq::<ElementView>::empty());
    assert(artists_view(r@) =~= Seq::<ArtistView>::empty());
    while i < links.len()
        invariant
            i <= links.len(),
            artists_view(r@) == artists_from(elements_view(links@).subrange(0, i as int)),
        decreases links.len() - i,
    {
        let ghost es = elements_view(links@).subrange(0, i as int + 1);
        assert(es.drop_last() =~= elements_view(links@).subrange(0, i as int));
        assert(es.last() == links@[i as int]@);
        match artist_from_link(&links[i]) {
            Some(a) => {
                let ghost before = r@;
                r.push(a);
                assert(artists_view(r@) =~= artists_view(before).push(a@));
            },
            None => {},
        }
        i = i + 1;
    }
    assert(elements_view(links@).subrange(0, links@.len() as int) =~= elements_view(links@));
    r
}

/// The artists that the anchors of the document `html` name, in document order.
pub open spec fn extracted_artists(html: Seq<char>) -> Seq<ArtistView> {
    match html_select(html, "a"@) {
        Some(es) => artists_from(es),
        None => Seq::empty(),
    }
}

/// Extracting the artists of one document twice yields identical sequences:
/// what `extract_artists` returns is determined by the document alone.
pub proof fn lemma_extraction_repeatable(
    html: Seq<char>,
    first: Seq<ArtistView>,
    second: Seq<ArtistView>,
)
    requires
        first == extracted_artists(html),
        second == extracted_artists(html),
    ensures
        first == second,
{
}

/// The artists that the anchors of `html` name, in document order.
pub fn extract_artists(html: &str) -> (r: Vec<Artist>)
    ensures
        artists_view(r@) == extracted_artists(html@),
{
    match select_elements(html, "a") {
        Some(links) => artists_from_links(&links),
        None => {
            let r: Vec<Artist> = Vec::new();
            assert(artists_view(r@) =~= Seq::<ArtistView>::empty());
            r
        },
    }
}

/// A link leads to a song page or a media file, and not to an artist page.
pub open spec fn is_song_href(h: Seq<char>) -> bool {
    !contains(h, ARTIST_PREFIX@) && (contains(h, "/song/"@) || contains(h, "/mp3/"@))
}

/// The song that a link names, credited to `artist`, if it is a song link
/// with a non-empty title.
pub open spec fn song_of_link(e: ElementView, artist: Seq<char>) -> Option<SongView> {
    match e.href {
        Some(h) => {
            let title = strip_vendor(e.text);
            if is_song_href(h) && title.len() > 0 {
                Some(SongView { title, artist, url: absolute_url(h), download_url: None })
            } else {
                None
            }
        },
        None => None,
    }
}

/// The songs that the links name, in document order.
pub open spec fn songs_from(es: Seq<ElementView>, artist: Seq<char>) -> Seq<SongView>
    decreases es.len(),
{
    if es.len() == 0 {
        Seq::empty()
    } else {
        let r = songs_from(es.drop_last(), artist);
        match song_of_link(es.last(), artist) {
            Some(x) => r.push(x),
            None => r,
        }
    }
}

pub fn song_from_link(e: &HtmlElement, artist: &String) -> (r: Option<Song>)
    ensures
        match r {
            Some(x) => song_of_link(e@, artist@) == Some(x@),
            None => song_of_link(e@, artist@) is None,
        },
{
    let href = match &e.href {
        Some(h) => chars_of(h),
        None => return None,
    };
    let title = strip_vendor_exec(&chars_of(&e.text));
    let is_song = !contains_exec(&href, &chars_of(ARTIST_PREFIX)) && (contains_exec(
        &href,
        &chars_of("/song/"),
    ) || contains_exec(&href, &chars_of("/mp3/")));
    if !is_song || title.len() == 0 {
        return None;
    }
    let url = absolute_url_exec(&href);
    Some(
        Song {
            title: string_of(&title),
            artist: string_of(&chars_of(artist.as_str())),
            url: string_of(&url),
            download_url: None,
        },
    )
}

/// The songs named by `links`, credited to `artist`, in document order.
pub fn songs_from_links(links: &Vec<HtmlElement>, artist: &String) -> (r: Vec<Song>)
    ensures
        songs_view(r@) == songs_from(elements_view(links@), artist@),
{
    let mut r: Vec<Song> = Vec::new();
    let mut i: usize = 0;
    assert(elements_view(links@).subrange(0, 0) =~= Seq::<ElementView>::empty());
    assert(songs_view(r@) =~= Seq::<SongView>::empty());
    while i < links.len()
        invariant
            i <= links.len(),
            songs_view(r@) == songs_from(elements_view(links@).subrange(0, i as int), artist@),
        decreases links.len() - i,
    {
        let ghost es = elements_view(links@).subrange(0, i as int + 1);
        assert(es.drop_last() =~= elements_view(links@).subrange(0, i as int));
        assert(es.last() == links@[i as int]@);
        match song_from_link(&links[i], artist) {
            Some(x) => {
                let ghost before = r@;
                r.push(x);
                assert(songs_view(r@) =~= songs_view(before).push(x@));
            },
            None => {},
        }
        i = i + 1;
    }
    assert(elements_view(links@).subrange(0, links@.len() as int) =~= elements_view(links@));
    r
}

/// Titles ascend when compared in lower case.
pub open spec fn titles_ascending(s: Seq<SongView>) -> bool {
    forall|i: int|
        0 <= i && i + 1 < s.len() ==> seq_le(lower_of(#[trigger] s[i].title), lower_of(s[i + 1].title))
}

/// `songs` ordered by title, ignoring case.
pub fn sort_songs(songs: Vec<Song>) -> (r: Vec<Song>)
    ensures
        songs_view(r@).to_multiset() == songs_view(songs@).to_multiset(),
        titles_ascending(songs_view(r@)),
{
    let mut keys: Vec<Vec<char>> = Vec::new();
    let mut i: usize = 0;
    while i < songs.len()
        invariant
            i <= songs.len(),
            keys.len() == i,
            forall|j: int| 0 <= j < i ==> (#[trigger] keys[j])@ == lower_of(songs[j].title@),
        decreases songs.len() - i,
    {
        keys.push(chars_of(&lowercase(&songs[i].title)));
        i = i + 1;
    }
    let ghost key = |x: SongView| lower_of(x.title);
    let r = sort_by_keys(songs, keys, Ghost(key));
    proof {
        let vs = songs_view(r@);
        assert forall|i: int| 0 <= i && i + 1 < vs.len() implies seq_le(
            lower_of(#[trigger] vs[i].title),
            lower_of(vs[i + 1].title),
        ) by {
            assert(seq_le(key(vs[i]), key(vs[i + 1])));
        }
    }
    r
}

/// The artist named by the heading of an artist page: the heading without
/// its " Songs" or " mp3 songs" suffix, or, without either, the slug with
/// hyphens as spaces.
pub open spec fn listing_artist_name(heading: Option<Seq<char>>, slug: Seq<char>) -> Seq<char> {
    let fallback = Seq::new(slug.len(), |i: int| if slug[i] == '-' { ' ' } else { slug[i] });
    match heading {
        Some(t) => if ends_with(t, " Songs"@) {
            trim(t.subrange(0, t.len() - " Songs"@.len()))
        } else if ends_with(t, " mp3 songs"@) {
            trim(t.subrange(0, t.len() - " mp3 songs"@.len()))
        } else {
            fallback
        },
        None => fallback,
    }
}

/// The text of the first of the selected elements.
pub open spec fn first_text(sel: Option<Seq<ElementView>>) -> Option<Seq<char>> {
    match sel {
        Some(es) => if es.len() > 0 {
            Some(es[0].text)
        } else {
            None
        },
        None => None,
    }
}

pub fn listing_artist_name_exec(heading: Option<String>, slug: &str) -> (r: String)
    ensures
        r@ == listing_artist_name(opt_view(heading), slug@),
{
    if let Some(h) = heading {
        let t = chars_of(&h);
        let songs = chars_of(" Songs");
        let mp3_songs = chars_of(" mp3 songs");
        if ends_with_exec(&t, &songs) {
            return string_of(&trim_chars(&copy_range(&t, 0, t.len() - songs.len())));
        } else if ends_with_exec(&t, &mp3_songs) {
            return string_of(&trim_chars(&copy_range(&t, 0, t.len() - mp3_songs.len())));
        }
    }
    let s = chars_of(slug);
    let mut r: Vec<char> = Vec::new();
    let mut i: usize = 0;
    while i < s.len()
        invariant
            i <= s.len(),
            r@ == Seq::new(i as nat, |j: int| if s@[j] == '-' { ' ' } else { s@[j] }),
        decreases s.len() - i,
    {
        if s[i] == '-' {
            r.push(' ');
        } else {
            r.push(s[i]);
        }
        i = i + 1;
    }
    string_of(&r)
}

/// The songs listed on an artist's page, credited to the artist that its
/// first `h1` heading names, ordered by title ignoring case.
pub fn extract_songs(html: &str, artist_slug: &str) -> (r: Vec<Song>)
    ensures
        songs_view(r@).to_multiset() == (match html_select(html@, "a"@) {
            Some(es) => songs_from(
                es,
                listing_artist_name(first_text(html_select(html@, "h1"@)), artist_slug@),
            ),
            None => Seq::empty(),
        }).to_multiset(),
        titles_ascending(songs_view(r@)),
{
    let heading = match select_elements(html, "h1") {
        Some(hs) => if hs.len() > 0 {
            Some(string_of(&chars_of(&hs[0].text)))
        } else {
            None
        },
        None => None,
    };
    let artist = listing_artist_name_exec(heading, artist_slug);
    let found = match select_elements(html, "a") {
        Some(links) => songs_from_links(&links, &artist),
        None => {
            let r: Vec<Song> = Vec::new();
            assert(songs_view(r@) =~= Seq::<SongView>::empty());
            r
        },
    };
    sort_songs(found)
}

/// The download target of one element: its `href` where that names a media
/// file or a download, else its `data-url` where that names a media file;
/// made absolute.
pub open spec fn link_target(e: ElementView) -> Option<Seq<char>> {
    let from_href = match e.href {
        Some(h) => if contains(h, ".mp3"@) || contains(h, "download"@) {
            Some(absolute_url(h))
        } else {
            None
        },
        None => None,
    };
    if from_href is Some {
        from_href
    } else {
        match e.data_url {
            Some(d) => if contains(d, ".mp3"@) {
                Some(absolute_url(d))
            } else {
                None
            },
            None => None,
        }
    }
}

/// The first download target among the elements, in order.
pub open spec fn first_link_target(es: Seq<ElementView>) -> Option<Seq<char>>
    decreases es.len(),
{
    if es.len() == 0 {
        None
    } else {
        match link_target(es[0]) {
            Some(u) => Some(u),
            None => first_link_target(es.drop_first()),
        }
    }
}

/// The media address of a song page: an address embedded in the page where
/// one was found, else the first download target among the candidates.
pub open spec fn media_url(embedded: Option<Seq<char>>, candidates: Seq<ElementView>) -> Option<
    Seq<char>,
> {
    match embedded {
        Some(m) => Some(m),
        None => first_link_target(candidates),
    }
}

fn link_target_exec(e: &HtmlElement) -> (r: Option<Vec<char>>)
    ensures
        match r {
            Some(u) => link_target(e@) == Some(u@),
            None => link_target(e@) is None,
        },
{
    let mp3 = chars_of(".mp3");
    if let Some(h) = &e.href {
        let h = chars_of(h);
        if contains_exec(&h, &mp3) || contains_exec(&h, &chars_of("download")) {
            return Some(absolute_url_exec(&h));
        }
    }
    if let Some(d) = &e.data_url {
        let d = chars_of(d);
        if contains_exec(&d, &mp3) {
            return Some(absolute_url_exec(&d));
        }
    }
    None
}

/// The media address given the embedded match and the candidate elements.
pub fn media_url_from(embedded: Option<String>, candidates: &Vec<HtmlElement>) -> (r: Option<
    String,
>)
    ensures
        opt_view(r) == media_url(opt_view(embedded), elements_view(candidates@)),
{
    if let Some(m) = embedded {
        return Some(m);
    }
    let ghost es = elements_view(candidates@);
    let mut i: usize = 0;
    assert(es.subrange(0, es.len() as int) =~= es);
    while i < candidates.len()
        invariant
            i <= candidates.len() == es.len(),
            es == elements_view(candidates@),
            embedded is None,
            first_link_target(es) == first_link_target(es.subrange(i as int, es.len() as int)),
        decreases candidates.len() - i,
    {
        let ghost rest = es.subrange(i as int, es.len() as int);
        assert(rest[0] == candidates@[i as int]@);
        assert(rest.drop_first() =~= es.subrange(i + 1, es.len() as int));
        if let Some(u) = link_target_exec(&candidates[i]) {
            assert(first_link_target(rest) == Some(u@));
            return Some(string_of(&u));
        }
        i = i + 1;
    }
    None
}

/// The media address of a song page, if any: the first absolute media
/// address anywhere in the raw page, else the first download link.
pub fn extract_download_url(html: &str) -> (r: Option<String>)
    ensures
        opt_view(r) == media_url(
            regex_first_match(MEDIA_URL_PATTERN@, html@),
            match html_select(html@, DOWNLOAD_SELECTOR@) {
                Some(es) => es,
                None => Seq::empty(),
            },
        ),
{
    let embedded = first_match(MEDIA_URL_PATTERN, html);
    let candidates = match select_elements(html, DOWNLOAD_SELECTOR) {
        Some(es) => es,
        None => {
            let es: Vec<HtmlElement> = Vec::new();
            assert(elements_view(es@) =~= Seq::<ElementView>::empty());
            es
        },
    };
    media_url_from(embedded, &candidates)
}

} // verus!
