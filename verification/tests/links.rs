use url_shortener::repo::InMemoryUrlRepo;
use url_shortener::service::UrlServiceImpl;
use url_shortener::types::{ResponseUrl, Url, UrlService};
use url_shortener::utils::BuildUrl;

#[test]
fn test_build_url_local() {
    let url = Url { id: String::from("abc"), url: String::from("http://test.com"), count: 0 };
    assert_eq!(url.build_url("localhost:8080"), "http://localhost:8080/abc");
}

#[test]
fn test_build_url_public() {
    let url = Url { id: String::from("abc"), url: String::from("http://test.com"), count: 7 };
    assert_eq!(url.build_url("sho.rt"), "https://sho.rt/abc");
}

#[test]
fn test_response_url_fields() {
    let url = Url { id: String::from("abc"), url: String::from("http://test.com"), count: 3 };
    let resp = ResponseUrl::from_url(&url, "sho.rt");
    assert_eq!(resp.id, "abc");
    assert_eq!(resp.short_url, "https://sho.rt/abc");
    assert_eq!(resp.long_url, "http://test.com");
    assert_eq!(resp.count, 3);
}

#[test]
fn test_paginated_into_response() {
    let mut sut = UrlServiceImpl {
        url_repo: InMemoryUrlRepo::new(String::from("test salt"), 8),
    };
    let a = sut.shorten("http://a.test", "user").unwrap();
    let b = sut.shorten("http://b.test", "user").unwrap();
    let page = sut.get_urls_for_user("user", 0);
    let resp = page.into_response("sho.rt");
    assert_eq!(resp.total, 2);
    assert_eq!(resp.page_count, 0);
    assert_eq!(resp.next, None);
    assert_eq!(resp.prev, None);
    assert_eq!(resp.results.len(), 2);
    assert_eq!(resp.results[0].id, b.id);
    assert_eq!(resp.results[0].short_url, format!("https://sho.rt/{}", b.id));
    assert_eq!(resp.results[0].long_url, "http://b.test");
    assert_eq!(resp.results[1].id, a.id);
    assert_eq!(resp.results[1].long_url, "http://a.test");
}
