use url_shortener::error::UrlErrorKind;
use url_shortener::repo::InMemoryUrlRepo;
use url_shortener::types::UrlRepo;

fn setup() -> InMemoryUrlRepo {
    InMemoryUrlRepo::new(String::from("test salt"), 8)
}

#[test]
fn test_get_key() {
    let sut = setup();
    let key = sut.get_key("test_id");
    assert_eq!("url_shortener:urls:test_id", key);
}

#[test]
fn test_get_user_key() {
    let sut = setup();
    let key = sut.get_user_key("user");
    assert_eq!("url_shortener:users:user", key);
}

#[test]
fn test_next_key() {
    let mut sut = setup();
    let next_key_1 = sut.get_next_key().ok();
    let next_key_2 = sut.get_next_key().ok();
    assert_ne!(None, next_key_1);
    assert_ne!(next_key_1, next_key_2);
}

#[test]
fn test_next_key_min_length() {
    let mut sut = setup();
    let next_key = sut.get_next_key().unwrap();
    assert!(next_key.chars().count() >= 8);
}

#[test]
fn test_generate() {
    let mut sut = setup();
    let url = sut.generate("http://test.com").ok();
    assert!(matches!(url, Some(_url)));
}

#[test]
fn test_generate_and_get() {
    let mut sut = setup();
    let unexists = sut.get("unexists").ok();
    assert_eq!(None, unexists);
    let url_1 = sut.generate("http://test.com").ok().unwrap();
    let url_2 = sut.get(&url_1.id).ok().unwrap();
    assert_eq!(url_2, url_1);
}

#[test]
fn test_get_unknown_kind() {
    let sut = setup();
    let err = sut.get("unexists").unwrap_err();
    assert_eq!(err.kind, UrlErrorKind::NotFound);
}

#[test]
fn test_incr() {
    let mut sut = setup();
    let url_1 = sut.generate("http://test.com").unwrap();
    assert_eq!(url_1.count, 0);
    sut.increment_counter(&url_1.id).ok();
    let url_2 = sut.get(&url_1.id).unwrap();
    assert_eq!(url_2.count, 1);
}

#[test]
fn test_incr_repeated() {
    let mut sut = setup();
    let url = sut.generate("http://test.com").unwrap();
    for _ in 0..3 {
        assert_eq!(Ok(true), sut.increment_counter(&url.id));
    }
    let read = sut.get(&url.id).unwrap();
    assert_eq!(read.count, 3);
}

#[test]
fn test_incr_missing_is_storage_error() {
    let mut sut = setup();
    let err = sut.increment_counter("unexists").unwrap_err();
    assert_eq!(err.kind, UrlErrorKind::StorageError);
}

#[test]
fn test_new_user() {
    let mut sut = setup();
    let user_1 = sut.new_user().ok();
    let user_2 = sut.new_user().ok();
    assert_ne!(None, user_1);
    assert_ne!(user_1, user_2);
}

#[test]
fn test_generate_for_user() {
    let mut sut = setup();
    let url = sut.generate_for_user("http://test.com", "user").ok();
    assert_ne!(None, url);
    assert!(matches!(url, Some(url) if url.url == "http://test.com"))
}

#[test]
fn test_get_last_for_user() {
    let mut sut = setup();
    let url_1 = sut.generate_for_user("http://test.com", "user_new").unwrap();
    let url_2 = sut.generate_for_user("http://test.com", "user_new").unwrap();
    let res = sut.get_last_n_for_user("user_new", 2);
    assert_eq!(res, vec![url_2, url_1]);
}

#[test]
fn test_count_urls_for_user() {
    let mut sut = setup();
    assert_eq!(Ok(0), sut.count_urls_for_user("user"));
    sut.generate_for_user("http://one.test", "user").unwrap();
    sut.generate_for_user("http://two.test", "user").unwrap();
    assert_eq!(Ok(2), sut.count_urls_for_user("user"));
    assert_eq!(Ok(0), sut.count_urls_for_user("other"));
}

#[test]
fn test_get_urls_for_user_range() {
    let mut sut = setup();
    let a = sut.generate_for_user("http://a.test", "user").unwrap();
    let b = sut.generate_for_user("http://b.test", "user").unwrap();
    let c = sut.generate_for_user("http://c.test", "user").unwrap();
    // reverse-chronological: [c, b, a]; range [1, 3) is [b, a]
    let res = sut.get_urls_for_user("user", 1, 3);
    assert_eq!(res, vec![b.clone(), a.clone()]);
    let all = sut.get_urls_for_user("user", 0, 10);
    assert_eq!(all, vec![c, b, a]);
}

#[test]
fn test_codes_distinct() {
    let mut sut = setup();
    let mut seen: Vec<String> = Vec::new();
    for _ in 0..100 {
        let url = sut.generate("http://test.com").unwrap();
        assert!(!seen.contains(&url.id));
        seen.push(url.id);
    }
}
