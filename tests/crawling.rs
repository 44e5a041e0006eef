use music_tools::crawl::{check_status, ArtistCrawl, CrawlAction, CrawlError, CrawlStage, FetchError};
use music_tools::catalog::{artist_url, listing_url_exec};
use music_tools::extract::extract_artists;
use music_tools::Artist;

fn slugs(artists: &[Artist]) -> Vec<String> {
    artists.iter().map(|a| a.slug.clone()).collect()
}

#[test]
fn three_page_crawl_counts_distinct_slugs() {
    let page1 = r#"<a href="/artist/gamini">Gamini</a><a href="/artist/gayan">Gayan</a>"#;
    let page2 = r#"<a href="https://songhub.lk/artist/gamini"> Gamini mp3 songs </a><a href="/artist/gihan">Gihan</a>"#;
    let page3 = r#"<a href="artist/geetha">Geetha</a>"#;
    let mut crawl = ArtistCrawl::new(Some('G'));
    assert_eq!(crawl.first_page_url(), "https://songhub.lk/artist?letter=g");
    let first = crawl.on_first_page(Ok(extract_artists(page1))).unwrap();
    let reqs = match first {
        CrawlAction::Fetch(reqs) => reqs,
        CrawlAction::Done(_) => panic!("a letter crawl goes on after its first page"),
    };
    let pages: Vec<u32> = reqs.iter().map(|r| r.page).collect();
    assert_eq!(pages, vec![2, 3, 4, 5, 6]);
    assert_eq!(reqs[0].url, "https://songhub.lk/artist?letter=g&page=2");
    let batch = vec![
        Ok(extract_artists(page2)),
        Ok(extract_artists(page3)),
        Ok(Vec::new()),
        Err(FetchError::Timeout),
        Err(FetchError::BadStatus(404)),
    ];
    let next = match crawl.on_batch(batch) {
        CrawlAction::Fetch(reqs) => reqs,
        CrawlAction::Done(_) => panic!("new artists were found"),
    };
    assert_eq!(next[0].page, 7);
    let empty: Vec<Result<Vec<Artist>, FetchError>> = (0..5).map(|_| Ok(Vec::new())).collect();
    let done = match crawl.on_batch(empty) {
        CrawlAction::Done(list) => list,
        CrawlAction::Fetch(_) => panic!("an empty batch ends the crawl"),
    };
    assert_eq!(done.len(), 4);
    assert_eq!(slugs(&done), vec!["gamini", "gayan", "geetha", "gihan"]);
    assert_eq!(crawl.stage, CrawlStage::Finished);
}

#[test]
fn unfiltered_first_page_timeout_is_a_hard_error() {
    let mut crawl = ArtistCrawl::new(None);
    assert_eq!(crawl.first_page_url(), "https://songhub.lk/artist");
    match crawl.on_first_page(Err(FetchError::Timeout)) {
        Err(CrawlError::FirstPage(FetchError::Timeout)) => {}
        _ => panic!("the first page's failure must propagate"),
    }
}

#[test]
fn unfiltered_listing_is_one_sorted_deduplicated_page() {
    let page = r#"<a href="/artist/zed">Zed</a><a href="/artist/abe">Abe</a><a href="/artist/zed"><img/></a><a href="/artist/Bee">bee</a>"#;
    let mut crawl = ArtistCrawl::new(None);
    let list = match crawl.on_first_page(Ok(extract_artists(page))).unwrap() {
        CrawlAction::Done(list) => list,
        CrawlAction::Fetch(_) => panic!("the overview is not paginated"),
    };
    let names: Vec<String> = list.iter().map(|a| a.name.clone()).collect();
    assert_eq!(names, vec!["Abe", "Zed", "bee"]);
}

#[test]
fn letter_crawl_stops_at_page_ceiling() {
    let mut crawl = ArtistCrawl::new(Some('k'));
    let mut n: u32 = 0;
    let mut action = crawl.on_first_page(Ok(Vec::new())).unwrap();
    let mut last_pages = Vec::new();
    loop {
        match action {
            CrawlAction::Fetch(reqs) => {
                last_pages = reqs.iter().map(|r| r.page).collect();
                let pages: Vec<Result<Vec<Artist>, FetchError>> = reqs
                    .iter()
                    .map(|r| {
                        n += 1;
                        Ok(vec![Artist {
                            name: format!("K{}", r.page),
                            slug: format!("k-{}", r.page),
                            url: artist_url(&format!("k-{}", r.page)),
                        }])
                    })
                    .collect();
                action = crawl.on_batch(pages);
            }
            CrawlAction::Done(list) => {
                assert_eq!(list.len(), 49);
                break;
            }
        }
    }
    assert_eq!(n, 49);
    assert_eq!(last_pages, vec![47, 48, 49, 50]);
}

#[test]
fn failed_later_pages_count_as_empty() {
    let mut crawl = ArtistCrawl::new(Some('a'));
    let page1 = vec![Artist { name: "A".to_string(), slug: "a".to_string(), url: artist_url("a") }];
    crawl.on_first_page(Ok(page1)).unwrap();
    let failing: Vec<Result<Vec<Artist>, FetchError>> =
        (0..5).map(|_| Err(FetchError::Network("reset".to_string()))).collect();
    match crawl.on_batch(failing) {
        CrawlAction::Done(list) => assert_eq!(slugs(&list), vec!["a"]),
        CrawlAction::Fetch(_) => panic!("nothing new was found"),
    }
}

#[test]
fn listing_addresses() {
    assert_eq!(listing_url_exec(Some('Q'), 1), "https://songhub.lk/artist?letter=q");
    assert_eq!(listing_url_exec(Some('q'), 12), "https://songhub.lk/artist?letter=q&page=12");
    assert_eq!(listing_url_exec(None, 3), "https://songhub.lk/artist");
    assert_eq!(artist_url("john-doe"), "https://songhub.lk/artist/john-doe");
}

#[test]
fn only_2xx_statuses_are_accepted() {
    assert!(check_status(200).is_ok());
    assert!(check_status(299).is_ok());
    assert!(matches!(check_status(404), Err(FetchError::BadStatus(404))));
    assert!(matches!(check_status(301), Err(FetchError::BadStatus(301))));
    assert!(matches!(check_status(199), Err(FetchError::BadStatus(199))));
}

#[test]
fn fetch_errors_have_messages() {
    assert_eq!(FetchError::Timeout.message(), "request timeout");
    assert_eq!(FetchError::Network("reset".to_string()).message(), "network error: reset");
    assert_eq!(FetchError::BadStatus(404).message(), "request failed with status: 404");
    assert_eq!(FetchError::BadStatus(0).message(), "request failed with status: 0");
}
