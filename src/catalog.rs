//! The catalog's records (artists, songs) and the addresses of its pages.
use vstd::prelude::*;

use crate::text::{chars_of, decimal, decimal_exec, push_all, starts_with, starts_with_exec, string_of};

verus! {

/// The site that is crawled.
pub const BASE_URL: &'static str = "https://songhub.lk";

/// Extension of the media files that are downloaded.
pub const MEDIA_EXTENSION: &'static str = ".mp3";

#[derive(Debug, Clone)]
pub struct Song {
    pub title: String,
    pub artist: String,
    pub url: String,
    pub download_url: Option<String>,
}

pub struct SongView {
    pub title: Seq<char>,
    pub artist: Seq<char>,
    pub url: Seq<char>,
    pub download_url: Option<Seq<char>>,
}

pub open spec fn opt_view(o: Option<String>) -> Option<Seq<char>> {
    match o {
        Some(s) => Some(s@),
        None => None,
    }
}

impl View for Song {
    type V = SongView;

    open spec fn view(&self) -> SongView {
        SongView {
            title: self.title@,
            artist: self.artist@,
            url: self.url@,
            download_url: opt_view(self.download_url),
        }
    }
}

#[derive(Debug, Clone)]
pub struct Artist {
    pub name: String,
    pub slug: String,
    pub url: String,
}

pub struct ArtistView {
    pub name: Seq<char>,
    pub slug: Seq<char>,
    pub url: Seq<char>,
}

impl View for Artist {
    type V = ArtistView;

    open spec fn view(&self) -> ArtistView {
        ArtistView { name: self.name@, slug: self.slug@, url: self.url@ }
    }
}

/// The views of the items of `s`, in order.
pub open spec fn views<T: View>(s: Seq<T>) -> Seq<T::V> {
    s.map_values(|t: T| t@)
}

pub open spec fn artists_view(s: Seq<Artist>) -> Seq<ArtistView> {
    views(s)
}

pub open spec fn songs_view(s: Seq<Song>) -> Seq<SongView> {
    views(s)
}

#[derive(Debug, Clone)]
pub struct SearchResults {
    pub songs: Vec<Song>,
    pub artists: Vec<String>,
}

/// `href` made absolute: kept when it already names a scheme, otherwise
/// resolved against the site's base address.
pub open spec fn absolute_url(href: Seq<char>) -> Seq<char> {
    if starts_with(href, "http"@) {
        href
    } else if starts_with(href, "/"@) {
        BASE_URL@ + href
    } else {
        BASE_URL@ + "/"@ + href
    }
}

pub fn absolute_url_exec(href: &Vec<char>) -> (r: Vec<char>)
    ensures
        r@ == absolute_url(href@),
{
    if starts_with_exec(href, &chars_of("http")) {
        let mut r: Vec<char> = Vec::new();
        push_all(&mut r, href);
        assert(r@ =~= href@);
        r
    } else {
        let mut r = chars_of(BASE_URL);
        if !starts_with_exec(href, &chars_of("/")) {
            push_all(&mut r, &chars_of("/"));
        }
        push_all(&mut r, href);
        r
    }
}

/// The address of an artist's page.
pub open spec fn artist_page_url(slug: Seq<char>) -> Seq<char> {
    BASE_URL@ + "/artist/"@ + slug
}

pub fn artist_page_url_exec(slug: &Vec<char>) -> (r: Vec<char>)
    ensures
        r@ == artist_page_url(slug@),
{
    let mut r = chars_of(BASE_URL);
    push_all(&mut r, &chars_of("/artist/"));
    push_all(&mut r, slug);
    r
}

/// The address of the page of an artist, by slug.
pub fn artist_url(slug: &str) -> (r: String)
    ensures
        r@ == artist_page_url(slug@),
{
    string_of(&artist_page_url_exec(&chars_of(slug)))
}

/// `c` in lower case where it is an ASCII capital letter.
pub open spec fn ascii_lower(c: char) -> char {
    if 'A' <= c && c <= 'Z' {
        ((c as u32) + 32) as char
    } else {
        c
    }
}

pub fn ascii_lower_exec(c: char) -> (r: char)
    ensures
        r == ascii_lower(c),
{
    if 'A' <= c && c <= 'Z' {
        let b = c as u8;
        assert(b as u32 == c as u32);
        (b + 32) as char
    } else {
        c
    }
}

/// The address of a page of the artist listing: the overview without a
/// letter, otherwise the given page of the listing for that letter (the
/// first page carries no page number).
pub open spec fn listing_url(letter: Option<char>, page: nat) -> Seq<char> {
    match letter {
        None => BASE_URL@ + "/artist"@,
        Some(l) => if page <= 1 {
            BASE_URL@ + "/artist?letter="@ + seq![ascii_lower(l)]
        } else {
            BASE_URL@ + "/artist?letter="@ + seq![ascii_lower(l)] + "&page="@ + decimal(page)
        },
    }
}

pub fn listing_url_exec(letter: Option<char>, page: u32) -> (r: String)
    ensures
        r@ == listing_url(letter, page as nat),
{
    let mut r = chars_of(BASE_URL);
    match letter {
        None => {
            push_all(&mut r, &chars_of("/artist"));
        },
        Some(l) => {
            push_all(&mut r, &chars_of("/artist?letter="));
            r.push(ascii_lower_exec(l));
            if page > 1 {
                push_all(&mut r, &chars_of("&page="));
                push_all(&mut r, &decimal_exec(page));
            }
        },
    }
    string_of(&r)
}

} // verus!
