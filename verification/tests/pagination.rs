use url_shortener::repo::InMemoryUrlRepo;
use url_shortener::service::UrlServiceImpl;
use url_shortener::types::{UrlRepo, UrlService};

fn setup() -> UrlServiceImpl<InMemoryUrlRepo> {
    UrlServiceImpl { url_repo: InMemoryUrlRepo::new(String::from("test salt"), 8) }
}

#[test]
fn test_empty_history_page() {
    let sut = setup();
    let page = sut.get_urls_for_user("user", 0);
    assert_eq!(page.total, 0);
    assert_eq!(page.page_count, 0);
    assert_eq!(page.next, None);
    assert_eq!(page.prev, None);
    assert!(page.results.is_empty());
}

#[test]
fn test_thirty_records_page_zero() {
    let mut sut = setup();
    for i in 0..30 {
        let target = format!("http://test.com/{}", i);
        sut.shorten(&target, "user").unwrap();
    }
    let page = sut.get_urls_for_user("user", 0);
    assert_eq!(page.total, 30);
    assert_eq!(page.page_count, 1);
    assert_eq!(page.next, None);
    assert_eq!(page.prev, None);
    assert_eq!(page.results.len(), 25);
}

#[test]
fn test_thirty_records_page_one() {
    let mut sut = setup();
    for i in 0..30 {
        let target = format!("http://test.com/{}", i);
        sut.shorten(&target, "user").unwrap();
    }
    let page = sut.get_urls_for_user("user", 1);
    assert_eq!(page.results.len(), 5);
    assert_eq!(page.prev, Some(0));
    assert_eq!(page.next, None);
}

#[test]
fn test_sixty_records_middle_page() {
    let mut sut = setup();
    for i in 0..60 {
        let target = format!("http://test.com/{}", i);
        sut.shorten(&target, "user").unwrap();
    }
    let page = sut.get_urls_for_user("user", 0);
    assert_eq!(page.total, 60);
    assert_eq!(page.page_count, 2);
    assert_eq!(page.next, Some(1));
    assert_eq!(page.prev, None);
    let page = sut.get_urls_for_user("user", 1);
    assert_eq!(page.next, None);
    assert_eq!(page.prev, Some(0));
    assert_eq!(page.results.len(), 25);
}

#[test]
fn test_history_reverse_chronological() {
    let mut sut = setup();
    let a = sut.shorten("http://a.test", "user").unwrap();
    let b = sut.shorten("http://b.test", "user").unwrap();
    let res = sut.url_repo.get_urls_for_user("user", 0, 2);
    assert_eq!(res, vec![b, a]);
}

#[test]
fn test_page_lists_most_recent_first() {
    let mut sut = setup();
    for i in 0..30 {
        let target = format!("http://test.com/{}", i);
        sut.shorten(&target, "user").unwrap();
    }
    let page = sut.get_urls_for_user("user", 0);
    assert_eq!(page.results[0].url, "http://test.com/29");
    assert_eq!(page.results[24].url, "http://test.com/5");
    let page = sut.get_urls_for_user("user", 1);
    assert_eq!(page.results[0].url, "http://test.com/4");
    assert_eq!(page.results[4].url, "http://test.com/0");
}

#[test]
fn test_page_past_end() {
    let mut sut = setup();
    sut.shorten("http://a.test", "user").unwrap();
    sut.shorten("http://b.test", "user").unwrap();
    let page = sut.get_urls_for_user("user", 5);
    assert_eq!(page.total, 2);
    assert_eq!(page.page_count, 0);
    assert_eq!(page.next, None);
    assert_eq!(page.prev, Some(4));
    assert!(page.results.is_empty());
}

#[test]
fn test_histories_are_per_user() {
    let mut sut = setup();
    sut.shorten("http://a.test", "alice").unwrap();
    sut.shorten("http://b.test", "bob").unwrap();
    let page = sut.get_urls_for_user("alice", 0);
    assert_eq!(page.total, 1);
    assert_eq!(page.results.len(), 1);
    assert_eq!(page.results[0].url, "http://a.test");
}
