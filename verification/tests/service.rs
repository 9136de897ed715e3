use url_shortener::error::UrlErrorKind;
use url_shortener::repo::InMemoryUrlRepo;
use url_shortener::service::UrlServiceImpl;
use url_shortener::types::UrlService;

fn setup() -> UrlServiceImpl<InMemoryUrlRepo> {
    UrlServiceImpl { url_repo: InMemoryUrlRepo::new(String::from("test salt"), 8) }
}

#[test]
fn test_shorten_and_get_success() {
    let long_url = "http://test.com";
    let user = "user";

    let mut sut = setup();

    let url = sut.shorten(long_url, user).ok().unwrap();
    assert_eq!(url.url, long_url);
    assert_eq!(url.count, 0);

    let result = sut.get(&url.id).ok();
    let expected = Some(url.clone());
    assert_eq!(expected, result);
}

#[test]
fn test_get_counts_the_visit() {
    let mut sut = setup();
    let url = sut.shorten("http://test.com", "user").unwrap();
    // the record handed back is the one read, before the count lands
    assert_eq!(sut.get(&url.id).unwrap().count, 0);
    assert_eq!(sut.get(&url.id).unwrap().count, 1);
    assert_eq!(sut.get(&url.id).unwrap().count, 2);
}

#[test]
fn test_get_unknown_not_found() {
    let mut sut = setup();
    let err = sut.get("unknown-code").unwrap_err();
    assert_eq!(err.kind, UrlErrorKind::NotFound);
}

#[test]
fn test_new_user_distinct() {
    let mut sut = setup();
    let user_1 = sut.new_user().unwrap();
    let user_2 = sut.new_user().unwrap();
    assert_ne!(user_1, user_2);
}
