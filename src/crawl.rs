//! The artist directory crawler as a state machine: it says which listing
//! pages to fetch next, takes their parsed contents back, deduplicates by
//! slug and decides when the enumeration is complete. Fetching (and the
//! concurrency bound on it) is the caller's part.
use vstd::prelude::*;

use crate::catalog::{Artist, ArtistView, artists_view, listing_url, listing_url_exec};
use crate::order::{seq_le, sort_by_keys};
use crate::text::{chars_of, decimal, decimal_exec, push_all, string_of};

verus! {

/// Most crawl-page fetches in flight at once.
pub const MAX_CONCURRENT_REQUESTS: usize = 8;

/// Pages fetched together after the first page of a letter.
pub const BATCH_SIZE: u32 = 5;

/// The last listing page that is ever fetched.
pub const MAX_PAGES: u32 = 50;

/// Per-request deadline for a crawl page, in seconds.
pub const PAGE_FETCH_TIMEOUT_SECS: u64 = 10;

/// Pause before each crawl-page request, in milliseconds.
pub const RATE_LIMIT_DELAY_MS: u64 = 100;

/// Why one page fetch failed.
#[derive(Debug, Clone)]
pub enum FetchError {
    Network(String),
    Timeout,
    BadStatus(u16),
}

/// A response status is accepted when it is 2xx; any other is `BadStatus`.
pub fn check_status(code: u16) -> (r: Result<(), FetchError>)
    ensures
        r is Ok <==> 200 <= code < 300,
        r matches Err(e) ==> e == FetchError::BadStatus(code),
{
    if 200 <= code && code < 300 {
        Ok(())
    } else {
        Err(FetchError::BadStatus(code))
    }
}

/// The text shown for a failed fetch.
pub open spec fn fetch_error_message(e: FetchError) -> Seq<char> {
    match e {
        FetchError::Network(cause) => "network error: "@ + cause@,
        FetchError::Timeout => "request timeout"@,
        FetchError::BadStatus(code) => "request failed with status: "@ + decimal(code as nat),
    }
}

impl FetchError {
    pub fn message(&self) -> (r: String)
        ensures
            r@ == fetch_error_message(*self),
    {
        let mut r: Vec<char>;
        match self {
            FetchError::Network(cause) => {
                r = chars_of("network error: ");
                push_all(&mut r, &chars_of(cause));
            },
            FetchError::Timeout => {
                r = chars_of("request timeout");
            },
            FetchError::BadStatus(code) => {
                r = chars_of("request failed with status: ");
                push_all(&mut r, &decimal_exec(*code as u32));
            },
        }
        string_of(&r)
    }
}

/// The one failure that ends an enumeration: its first page could not be had.
#[derive(Debug, Clone)]
pub enum CrawlError {
    FirstPage(FetchError),
}

pub open spec fn has_slug(c: Seq<ArtistView>, slug: Seq<char>) -> bool {
    exists|i: int| 0 <= i < c.len() && (#[trigger] c[i]).slug == slug
}

pub open spec fn slugs_distinct(c: Seq<ArtistView>) -> bool {
    forall|i: int, j: int| 0 <= i < j < c.len() ==> (#[trigger] c[i]).slug != (#[trigger] c[j]).slug
}

pub open spec fn names_ascending(s: Seq<ArtistView>) -> bool {
    forall|i: int| 0 <= i && i + 1 < s.len() ==> seq_le(#[trigger] s[i].name, s[i + 1].name)
}

/// `c` followed by the artists of `page` whose slug was not yet seen, each
/// taken the first time its slug appears.
pub open spec fn absorb(c: Seq<ArtistView>, page: Seq<ArtistView>) -> Seq<ArtistView>
    decreases page.len(),
{
    if page.len() == 0 {
        c
    } else {
        let r = absorb(c, page.drop_last());
        if has_slug(r, page.last().slug) {
            r
        } else {
            r.push(page.last())
        }
    }
}

/// The artists a fetched page contributes; a failed fetch contributes none.
pub open spec fn page_view(p: Result<Vec<Artist>, FetchError>) -> Seq<ArtistView> {
    match p {
        Ok(v) => artists_view(v@),
        Err(_) => Seq::empty(),
    }
}

/// `c` after absorbing the pages in order.
pub open spec fn absorb_pages(c: Seq<ArtistView>, pages: Seq<Result<Vec<Artist>, FetchError>>) -> Seq<
    ArtistView,
>
    decreases pages.len(),
{
    if pages.len() == 0 {
        c
    } else {
        absorb(absorb_pages(c, pages.drop_last()), page_view(pages.last()))
    }
}

/// How many pages the batch that starts at `first` holds.
pub open spec fn batch_len(first: nat) -> nat {
    if first > MAX_PAGES {
        0
    } else if first + BATCH_SIZE > MAX_PAGES + 1 {
        (MAX_PAGES + 1 - first) as nat
    } else {
        BATCH_SIZE as nat
    }
}

/// A batch never asks for more pages than the crawl-page bound lets run at
/// once.
pub proof fn lemma_batch_within_bound(first: nat)
    ensures
        batch_len(first) <= BATCH_SIZE,
        BATCH_SIZE <= MAX_CONCURRENT_REQUESTS,
{
}

/// One page to fetch: its number and address.
#[derive(Debug, Clone)]
pub struct PageRequest {
    pub page: u32,
    pub url: String,
}

/// `reqs` asks for the pages of the batch that starts at `first`, in order.
pub open spec fn is_batch(reqs: Seq<PageRequest>, letter: Option<char>, first: nat) -> bool {
    &&& reqs.len() == batch_len(first)
    &&& forall|i: int|
        0 <= i < reqs.len() ==> (#[trigger] reqs[i]).page == first + i && reqs[i].url@
            == listing_url(letter, (first + i) as nat)
}

/// `out` is the final listing for the artists `c`: the same artists, ordered
/// by name, with no slug twice.
pub open spec fn is_listing_of(out: Seq<ArtistView>, c: Seq<ArtistView>) -> bool {
    &&& out.to_multiset() == c.to_multiset()
    &&& names_ascending(out)
    &&& slugs_distinct(out)
}

/// The slugs that `c` holds.
pub open spec fn slug_set(c: Seq<ArtistView>) -> Set<Seq<char>> {
    c.map_values(|a: ArtistView| a.slug).to_set()
}

/// An enumeration result holds exactly as many artists as distinct slugs.
pub proof fn lemma_listing_counts_distinct_slugs(out: Seq<ArtistView>, c: Seq<ArtistView>)
    requires
        is_listing_of(out, c),
    ensures
        out.len() == slug_set(out).len(),
{
    let slugs = out.map_values(|a: ArtistView| a.slug);
    assert forall|i: int, j: int| 0 <= i < slugs.len() && 0 <= j < slugs.len() && i != j implies slugs[i]
        != slugs[j] by {
        if i < j {
            assert(out[i].slug != out[j].slug);
        } else {
            assert(out[j].slug != out[i].slug);
        }
    }
    slugs.unique_seq_to_set();
}

/// What the caller does next.
#[derive(Debug, Clone)]
pub enum CrawlAction {
    /// Fetch these pages (concurrently, under the shared bound) and hand
    /// their parsed artists back in the same order.
    Fetch(Vec<PageRequest>),
    /// The enumeration is complete.
    Done(Vec<Artist>),
}

#[derive(Debug, Clone, Copy, PartialEq, Eq)]
pub enum CrawlStage {
    FirstPage,
    Batch,
    Finished,
}

/// The progress of one enumeration: the artists collected so far (no slug
/// twice) and the first page of the batch that is awaited.
#[derive(Debug, Clone)]
pub struct ArtistCrawl {
    pub letter: Option<char>,
    pub collected: Vec<Artist>,
    pub next_page: u32,
    pub stage: CrawlStage,
}

pub proof fn lemma_absorb_keeps_distinct(c: Seq<ArtistView>, page: Seq<ArtistView>)
    requires
        slugs_distinct(c),
    ensures
        slugs_distinct(absorb(c, page)),
        absorb(c, page).len() >= c.len(),
    decreases page.len(),
{
    if page.len() > 0 {
        lemma_absorb_keeps_distinct(c, page.drop_last());
        let r = absorb(c, page.drop_last());
        if !has_slug(r, page.last().slug) {
            let n = r.push(page.last());
            assert forall|i: int, j: int| 0 <= i < j < n.len() implies (#[trigger] n[i]).slug
                != (#[trigger] n[j]).slug by {
                if j == r.len() {
                    assert(n[i] == r[i]);
                } else {
                    assert(n[i] == r[i] && n[j] == r[j]);
                }
            }
        }
    }
}

pub proof fn lemma_absorb_pages_keeps_distinct(
    c: Seq<ArtistView>,
    pages: Seq<Result<Vec<Artist>, FetchError>>,
)
    requires
        slugs_distinct(c),
    ensures
        slugs_distinct(absorb_pages(c, pages)),
        absorb_pages(c, pages).len() >= c.len(),
    decreases pages.len(),
{
    if pages.len() > 0 {
        lemma_absorb_pages_keeps_distinct(c, pages.drop_last());
        lemma_absorb_keeps_distinct(absorb_pages(c, pages.drop_last()), page_view(pages.last()));
    }
}

/// A reordering keeps slugs distinct.
pub proof fn lemma_permutation_keeps_distinct(a: Seq<ArtistView>, b: Seq<ArtistView>)
    requires
        slugs_distinct(a),
        a.to_multiset() == b.to_multiset(),
    ensures
        slugs_distinct(b),
{
    broadcast use vstd::seq_lib::group_to_multiset_ensures, vstd::multiset::group_multiset_axioms;

    assert(a.no_duplicates()) by {
        assert forall|i: int, j: int| 0 <= i < a.len() && 0 <= j < a.len() && i != j implies a[i]
            != a[j] by {
            if i < j {
                assert(a[i].slug != a[j].slug);
            } else {
                assert(a[j].slug != a[i].slug);
            }
        }
    }
    a.lemma_multiset_has_no_duplicates();
    b.lemma_multiset_has_no_duplicates_conv();
    assert forall|i: int, j: int| 0 <= i < j < b.len() implies (#[trigger] b[i]).slug
        != (#[trigger] b[j]).slug by {
        if b[i].slug == b[j].slug {
            assert(b[i] != b[j]);
            vstd::seq_lib::to_multiset_contains(b, b[i]);
            vstd::seq_lib::to_multiset_contains(b, b[j]);
            vstd::seq_lib::to_multiset_contains(a, b[i]);
            vstd::seq_lib::to_multiset_contains(a, b[j]);
            assert(b.contains(b[i]) && b.contains(b[j]));
            let p = choose|p: int| 0 <= p < a.len() && a[p] == b[i];
            let q = choose|q: int| 0 <= q < a.len() && a[q] == b[j];
            assert(p != q);
            if p < q {
                assert(a[p].slug != a[q].slug);
            } else {
                assert(a[q].slug != a[p].slug);
            }
        }
    }
}

/// Whether an artist with slug `slug` is among `c`.
pub fn slug_seen(c: &Vec<Artist>, slug: &String) -> (r: bool)
    ensures
        r == has_slug(artists_view(c@), slug@),
{
    let ghost cv = artists_view(c@);
    let mut i: usize = 0;
    while i < c.len()
        invariant
            i <= c.len(),
            cv == artists_view(c@),
            forall|j: int| 0 <= j < i ==> (#[trigger] cv[j]).slug != slug@,
        decreases c.len() - i,
    {
        if c[i].slug == *slug {
            assert(cv[i as int].slug == slug@);
            return true;
        }
        i = i + 1;
    }
    false
}

/// Appends to `collected` the artists of `page` whose slug it does not hold yet.
pub fn absorb_page(collected: &mut Vec<Artist>, page: &Vec<Artist>)
    ensures
        artists_view(final(collected)@) == absorb(artists_view(old(collected)@), artists_view(page@)),
{
    let ghost start = artists_view(collected@);
    let ghost pv = artists_view(page@);
    let rest = page;
    let mut i: usize = 0;
    let n = rest.len();
    assert(pv.subrange(0, 0) =~= Seq::<ArtistView>::empty());
    while i < n
        invariant
            i <= n == pv.len(),
            pv == artists_view(page@),
            rest@ == page@,
            artists_view(collected@) == absorb(start, pv.subrange(0, i as int)),
        decreases n - i,
    {
        let ghost sub = pv.subrange(0, i as int + 1);
        assert(sub.drop_last() =~= pv.subrange(0, i as int));
        assert(sub.last() == rest@[i as int]@);
        if !slug_seen(collected, &rest[i].slug) {
            let a = Artist {
                name: rest[i].name.clone(),
                slug: rest[i].slug.clone(),
                url: rest[i].url.clone(),
            };
            let ghost before = collected@;
            collected.push(a);
            assert(artists_view(collected@) =~= artists_view(before).push(rest@[i as int]@));
        }
        i = i + 1;
    }
    assert(pv.subrange(0, n as int) =~= pv);
}

/// `artists` ordered by name.
pub fn sort_artists(artists: Vec<Artist>) -> (r: Vec<Artist>)
    ensures
        artists_view(r@).to_multiset() == artists_view(artists@).to_multiset(),
        names_ascending(artists_view(r@)),
{
    let mut keys: Vec<Vec<char>> = Vec::new();
    let mut i: usize = 0;
    while i < artists.len()
        invariant
            i <= artists.len(),
            keys.len() == i,
            forall|j: int| 0 <= j < i ==> (#[trigger] keys[j])@ == artists[j].name@,
        decreases artists.len() - i,
    {
        keys.push(chars_of(&artists[i].name));
        i = i + 1;
    }
    let ghost key = |a: ArtistView| a.name;
    let r = sort_by_keys(artists, keys, Ghost(key));
    proof {
        let vs = artists_view(r@);
        assert forall|i: int| 0 <= i && i + 1 < vs.len() implies seq_le(
            #[trigger] vs[i].name,
            vs[i + 1].name,
        ) by {
            assert(seq_le(key(vs[i]), key(vs[i + 1])));
        }
    }
    r
}

/// The requests for the batch of pages that starts at `first`.
pub fn batch_requests(letter: Option<char>, first: u32) -> (r: Vec<PageRequest>)
    requires
        first <= MAX_PAGES,
    ensures
        is_batch(r@, letter, first as nat),
{
    let mut r: Vec<PageRequest> = Vec::new();
    let mut page: u32 = first;
    while page <= MAX_PAGES && page < first + BATCH_SIZE
        invariant
            first <= page <= MAX_PAGES + 1,
            page <= first + BATCH_SIZE,
            r.len() == page - first,
            forall|i: int|
                0 <= i < r.len() ==> (#[trigger] r@[i]).page == first + i && r@[i].url@
                    == listing_url(letter, (first + i) as nat),
        decreases MAX_PAGES + 1 - page,
    {
        r.push(PageRequest { page, url: listing_url_exec(letter, page) });
        page = page + 1;
    }
    r
}

impl ArtistCrawl {
    pub open spec fn collected_view(&self) -> Seq<ArtistView> {
        artists_view(self.collected@)
    }

    /// The state's invariant: no slug is collected twice, and an awaited
    /// batch starts at a page that may still be fetched.
    pub open spec fn wf(&self) -> bool {
        &&& slugs_distinct(self.collected_view())
        &&& self.stage == CrawlStage::Batch ==> 2 <= self.next_page <= MAX_PAGES
    }

    /// A new enumeration, for one letter or for the unfiltered overview.
    pub fn new(letter: Option<char>) -> (r: ArtistCrawl)
        ensures
            r.wf(),
            r.letter == letter,
            r.collected_view() == Seq::<ArtistView>::empty(),
            r.stage == CrawlStage::FirstPage,
    {
        let r = ArtistCrawl { letter, collected: Vec::new(), next_page: 1, stage: CrawlStage::FirstPage };
        assert(r.collected_view() =~= Seq::<ArtistView>::empty());
        r
    }

    /// The address of the first listing page.
    pub fn first_page_url(&self) -> (r: String)
        ensures
            r@ == listing_url(self.letter, 1),
    {
        listing_url_exec(self.letter, 1)
    }

    /// Hands out the collected artists, ordered by name, and ends the crawl.
    fn finish(&mut self) -> (r: Vec<Artist>)
        requires
            old(self).wf(),
        ensures
            is_listing_of(artists_view(r@), old(self).collected_view()),
            final(self).stage == CrawlStage::Finished,
            final(self).letter == old(self).letter,
            final(self).collected_view() == Seq::<ArtistView>::empty(),
            final(self).wf(),
    {
        let mut out: Vec<Artist> = Vec::new();
        core::mem::swap(&mut out, &mut self.collected);
        self.stage = CrawlStage::Finished;
        let r = sort_artists(out);
        proof {
            lemma_permutation_keeps_distinct(artists_view(out@), artists_view(r@));
            assert(self.collected_view() =~= Seq::<ArtistView>::empty());
        }
        r
    }

    /// Takes the first page's result. A failed first page ends the enumeration
    /// with an error. Without a letter the first page is the whole listing;
    /// with one, the first batch of further pages is asked for.
    pub fn on_first_page(&mut self, page: Result<Vec<Artist>, FetchError>) -> (r: Result<
        CrawlAction,
        CrawlError,
    >)
        requires
            old(self).wf(),
            old(self).stage == CrawlStage::FirstPage,
        ensures
            final(self).wf(),
            final(self).letter == old(self).letter,
            match page {
                Err(e) => r == Err::<CrawlAction, CrawlError>(CrawlError::FirstPage(e))
                    && final(self).stage == CrawlStage::Finished,
                Ok(v) => {
                    let c = absorb(old(self).collected_view(), artists_view(v@));
                    match r {
                        Ok(CrawlAction::Done(out)) => old(self).letter is None && is_listing_of(
                            artists_view(out@),
                            c,
                        ) && final(self).stage == CrawlStage::Finished,
                        Ok(CrawlAction::Fetch(reqs)) => old(self).letter is Some && is_batch(
                            reqs@,
                            old(self).letter,
                            2,
                        ) && final(self).collected_view() == c && final(self).next_page == 2
                            && final(self).stage == CrawlStage::Batch,
                        Err(_) => false,
                    }
                },
            },
    {
        match page {
            Err(e) => {
                self.stage = CrawlStage::Finished;
                Err(CrawlError::FirstPage(e))
            },
            Ok(v) => {
                proof {
                    lemma_absorb_keeps_distinct(self.collected_view(), artists_view(v@));
                }
                absorb_page(&mut self.collected, &v);
                if self.letter.is_none() {
                    Ok(CrawlAction::Done(self.finish()))
                } else {
                    self.next_page = 2;
                    self.stage = CrawlStage::Batch;
                    Ok(CrawlAction::Fetch(batch_requests(self.letter, 2)))
                }
            },
        }
    }

    /// Takes the results of the awaited batch, in page order; a failed page
    /// counts as empty. The crawl ends when the batch added no new artist or
    /// when the next batch would start past the last page.
    pub fn on_batch(&mut self, pages: Vec<Result<Vec<Artist>, FetchError>>) -> (r: CrawlAction)
        requires
            old(self).wf(),
            old(self).stage == CrawlStage::Batch,
            pages.len() == batch_len(old(self).next_page as nat),
        ensures
            final(self).wf(),
            final(self).letter == old(self).letter,
            ({
                let c = absorb_pages(old(self).collected_view(), pages@);
                let next = old(self).next_page + BATCH_SIZE;
                if c.len() == old(self).collected_view().len() || next > MAX_PAGES {
                    r matches CrawlAction::Done(out) && is_listing_of(artists_view(out@), c)
                        && final(self).stage == CrawlStage::Finished
                } else {
                    r matches CrawlAction::Fetch(reqs) && is_batch(reqs@, old(self).letter, next as nat)
                        && final(self).collected_view() == c && final(self).next_page == next
                        && final(self).stage == CrawlStage::Batch
                }
            }),
    {
        let ghost start = self.collected_view();
        let ghost all = pages@;
        let before = self.collected.len();
        let n = pages.len();
        let mut i: usize = 0;
        assert(all.subrange(0, 0) =~= Seq::<Result<Vec<Artist>, FetchError>>::empty());
        while i < n
            invariant
                i <= n == all.len(),
                all == pages@,
                self.collected_view() == absorb_pages(start, all.subrange(0, i as int)),
                slugs_distinct(self.collected_view()),
                self.letter == old(self).letter,
                self.next_page == old(self).next_page,
                self.stage == old(self).stage,
            decreases n - i,
        {
            let ghost sub = all.subrange(0, i as int + 1);
            assert(sub.drop_last() =~= all.subrange(0, i as int));
            assert(sub.last() == pages@[i as int]);
            proof {
                lemma_absorb_keeps_distinct(self.collected_view(), page_view(pages@[i as int]));
            }
            match &pages[i] {
                Ok(v) => absorb_page(&mut self.collected, v),
                Err(_) => {
                    assert(page_view(pages@[i as int]) =~= Seq::<ArtistView>::empty());
                },
            }
            i = i + 1;
        }
        assert(all.subrange(0, n as int) =~= all);
        proof {
            lemma_absorb_pages_keeps_distinct(start, all);
        }
        let next = self.next_page + BATCH_SIZE;
        if self.collected.len() == before || next > MAX_PAGES {
            CrawlAction::Done(self.finish())
        } else {
            self.next_page = next;
            CrawlAction::Fetch(batch_requests(self.letter, next))
        }
    }
}

} // verus!
