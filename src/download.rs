//! The computable part of a batch download: the file name of each song and
//! the per-song log lines of the batch's outcome. Resolving, transferring and
//! the bound on concurrent transfers are the caller's part.
use vstd::prelude::*;

use crate::catalog::{MEDIA_EXTENSION, Song, SongView, songs_view};
use crate::crawl::{FetchError, fetch_error_message};
use crate::text::{
    chars_of, is_space, lemma_trim_edges, lemma_trim_is_subrange, push_all, string_of, trim,
    trim_chars,
};

verus! {

/// Most transfers in flight at once.
pub const MAX_CONCURRENT_DOWNLOADS: usize = 5;

/// Pause before each song-page request, in milliseconds.
pub const RESOLVE_DELAY_MS: u64 = 300;

/// Default per-request deadline of the shared client, in seconds.
pub const CLIENT_TIMEOUT_SECS: u64 = 30;

/// The User-Agent that every request carries.
pub const USER_AGENT: &'static str = "Mozilla/5.0 (Windows NT 10.0; Win64; x64) AppleWebKit/537.36 (KHTML, like Gecko) Chrome/120.0.0.0 Safari/537.36";

/// Characters that file systems refuse in a file name.
pub open spec fn is_forbidden(c: char) -> bool {
    c == '<' || c == '>' || c == ':' || c == '"' || c == '/' || c == '\\' || c == '|' || c == '?'
        || c == '*'
}

/// `s` with each forbidden character replaced by `_`, then trimmed.
pub open spec fn sanitize(s: Seq<char>) -> Seq<char> {
    trim(Seq::new(s.len(), |i: int| if is_forbidden(s[i]) { '_' } else { s[i] }))
}

/// A title made safe as a file name: no forbidden character, no whitespace
/// at either end.
pub fn sanitize_filename(name: &str) -> (r: String)
    ensures
        r@ == sanitize(name@),
        forall|i: int| 0 <= i < r@.len() ==> !is_forbidden(#[trigger] r@[i]),
        r@.len() > 0 ==> !is_space(r@[0]) && !is_space(r@.last()),
{
    let s = chars_of(name);
    let mut mapped: Vec<char> = Vec::new();
    let mut i: usize = 0;
    while i < s.len()
        invariant
            i <= s.len(),
            mapped@ == Seq::new(i as nat, |j: int| if is_forbidden(s@[j]) { '_' } else { s@[j] }),
        decreases s.len() - i,
    {
        let c = s[i];
        if c == '<' || c == '>' || c == ':' || c == '"' || c == '/' || c == '\\' || c == '|' || c
            == '?' || c == '*' {
            mapped.push('_');
        } else {
            mapped.push(c);
        }
        i = i + 1;
    }
    let t = trim_chars(&mapped);
    proof {
        lemma_trim_edges(mapped@);
        lemma_trim_is_subrange(mapped@);
        let (a, b) = choose|a: int, b: int|
            0 <= a <= b <= mapped@.len() && trim(mapped@) == mapped@.subrange(a, b);
        assert forall|k: int| 0 <= k < t@.len() implies !is_forbidden(#[trigger] t@[k]) by {
            assert(t@[k] == mapped@[a + k]);
        }
    }
    string_of(&t)
}

/// The file name a song is saved under.
pub open spec fn file_name(title: Seq<char>) -> Seq<char> {
    sanitize(title) + MEDIA_EXTENSION@
}

pub fn output_file_name(title: &str) -> (r: String)
    ensures
        r@ == file_name(title@),
{
    let mut r = chars_of(&sanitize_filename(title));
    push_all(&mut r, &chars_of(MEDIA_EXTENSION));
    string_of(&r)
}

/// How the download of one song ended.
#[derive(Debug, Clone)]
pub enum SongDownload {
    /// The file was written.
    Saved,
    /// The song page was fetched but holds no media address.
    NoMediaUrl,
    /// The song page could not be fetched; the cause.
    ResolveFailed(String),
    /// The media could not be fetched or written; the cause.
    TransferFailed(String),
}

/// What follows a song page's resolution: the transfer from the media
/// address found, or the end of that song's download.
pub fn next_after_resolution(resolved: Result<Option<String>, FetchError>) -> (r: Result<
    String,
    SongDownload,
>)
    ensures
        match resolved {
            Ok(Some(url)) => r == Ok::<String, SongDownload>(url),
            Ok(None) => r matches Err(SongDownload::NoMediaUrl),
            Err(e) => r matches Err(SongDownload::ResolveFailed(m)) && m@ == fetch_error_message(e),
        },
{
    match resolved {
        Ok(Some(url)) => Ok(url),
        Ok(None) => Err(SongDownload::NoMediaUrl),
        Err(e) => Err(SongDownload::ResolveFailed(e.message())),
    }
}

/// The log line for one song.
pub open spec fn log_line(title: Seq<char>, d: SongDownload) -> Seq<char> {
    match d {
        SongDownload::Saved => "\u{2713} Downloaded: "@ + title,
        SongDownload::NoMediaUrl => "No download URL for: "@ + title,
        SongDownload::ResolveFailed(e) => "Failed to get URL for "@ + title + ": "@ + e@,
        SongDownload::TransferFailed(e) => "Failed to download "@ + title + ": "@ + e@,
    }
}

pub fn log_line_exec(title: &str, d: &SongDownload) -> (r: String)
    ensures
        r@ == log_line(title@, *d),
{
    let t = chars_of(title);
    let mut r: Vec<char>;
    match d {
        SongDownload::Saved => {
            r = chars_of("\u{2713} Downloaded: ");
            push_all(&mut r, &t);
        },
        SongDownload::NoMediaUrl => {
            r = chars_of("No download URL for: ");
            push_all(&mut r, &t);
        },
        SongDownload::ResolveFailed(e) => {
            r = chars_of("Failed to get URL for ");
            push_all(&mut r, &t);
            push_all(&mut r, &chars_of(": "));
            push_all(&mut r, &chars_of(e));
        },
        SongDownload::TransferFailed(e) => {
            r = chars_of("Failed to download ");
            push_all(&mut r, &t);
            push_all(&mut r, &chars_of(": "));
            push_all(&mut r, &chars_of(e));
        },
    }
    string_of(&r)
}

pub open spec fn lines_view(v: Seq<String>) -> Seq<Seq<char>> {
    v.map_values(|s: String| s@)
}

/// The result of one batch: a log line per song, split by success.
#[derive(Debug, Clone)]
pub struct DownloadOutcome {
    pub succeeded: Vec<String>,
    pub failed: Vec<String>,
}

impl DownloadOutcome {
    pub fn new() -> (r: DownloadOutcome)
        ensures
            r.succeeded@.len() == 0,
            r.failed@.len() == 0,
    {
        DownloadOutcome { succeeded: Vec::new(), failed: Vec::new() }
    }

    /// Records how one song's download ended: one line, under `succeeded`
    /// where the file was saved and under `failed` otherwise.
    pub fn record(&mut self, title: &str, d: &SongDownload)
        ensures
            d is Saved ==> lines_view(final(self).succeeded@) == lines_view(old(self).succeeded@).push(
                log_line(title@, *d),
            ) && final(self).failed@ == old(self).failed@,
            !(d is Saved) ==> lines_view(final(self).failed@) == lines_view(old(self).failed@).push(
                log_line(title@, *d),
            ) && final(self).succeeded@ == old(self).succeeded@,
            final(self).succeeded@.len() + final(self).failed@.len() == old(self).succeeded@.len()
                + old(self).failed@.len() + 1,
    {
        let line = log_line_exec(title, d);
        let ghost s0 = self.succeeded@;
        let ghost f0 = self.failed@;
        match d {
            SongDownload::Saved => {
                self.succeeded.push(line);
                assert(lines_view(self.succeeded@) =~= lines_view(s0).push(line@));
                assert(self.succeeded@.len() == s0.len() + 1);
            },
            _ => {
                self.failed.push(line);
                assert(lines_view(self.failed@) =~= lines_view(f0).push(line@));
            },
        }
    }
}

/// The songs at `indices`, in that order; indices past the end are skipped.
pub open spec fn picked(songs: Seq<SongView>, indices: Seq<usize>) -> Seq<SongView>
    decreases indices.len(),
{
    if indices.len() == 0 {
        Seq::empty()
    } else {
        let r = picked(songs, indices.drop_last());
        let k = indices.last() as int;
        if k < songs.len() {
            r.push(songs[k])
        } else {
            r
        }
    }
}

fn copy_song(s: &Song) -> (r: Song)
    ensures
        r@ == s@,
{
    let download_url = match &s.download_url {
        Some(u) => Some(u.clone()),
        None => None,
    };
    Song { title: s.title.clone(), artist: s.artist.clone(), url: s.url.clone(), download_url }
}

/// The chosen songs of a listing, by index.
pub fn select_songs(songs: &Vec<Song>, indices: &Vec<usize>) -> (r: Vec<Song>)
    ensures
        songs_view(r@) == picked(songs_view(songs@), indices@),
{
    let mut r: Vec<Song> = Vec::new();
    let mut i: usize = 0;
    assert(indices@.subrange(0, 0) =~= Seq::<usize>::empty());
    assert(songs_view(r@) =~= Seq::<SongView>::empty());
    while i < indices.len()
        invariant
            i <= indices.len(),
            songs_view(r@) == picked(songs_view(songs@), indices@.subrange(0, i as int)),
        decreases indices.len() - i,
    {
        let ghost sub = indices@.subrange(0, i as int + 1);
        assert(sub.drop_last() =~= indices@.subrange(0, i as int));
        let k = indices[i];
        if k < songs.len() {
            let ghost before = r@;
            r.push(copy_song(&songs[k]));
            assert(songs_view(r@) =~= songs_view(before).push(songs@[k as int]@));
        }
        i = i + 1;
    }
    assert(indices@.subrange(0, indices@.len() as int) =~= indices@);
    r
}

} // verus!
