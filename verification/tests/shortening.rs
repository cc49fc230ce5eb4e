use flashurl::service::is_valid_url;
use flashurl::service::resolve;
use flashurl::service::shorten;
use flashurl::service::ResolveError;
use flashurl::service::ShortenError;
use flashurl::store::StoreError;
use flashurl::store::UrlStore;

#[test]
fn shorten_rejects_non_http_scheme() {
    let mut store = UrlStore::new();
    let r = shorten(&mut store, &String::from("ftp://example.com"));
    assert!(matches!(r, Err(ShortenError::ValidationError)));
    assert_eq!(store.len(), 0);
}

#[test]
fn shorten_accepts_https() {
    let mut store = UrlStore::new();
    let r = shorten(&mut store, &String::from("https://example.com"));
    assert!(r.is_ok());
    assert_eq!(store.len(), 1);
}

#[test]
fn shorten_accepts_http() {
    let mut store = UrlStore::new();
    let r = shorten(&mut store, &String::from("http://example.com/a?b=c"));
    assert!(r.is_ok());
    assert_eq!(store.len(), 1);
}

#[test]
fn shorten_is_idempotent() {
    let mut store = UrlStore::new();
    let url = String::from("https://example.com/long/path");
    let first = shorten(&mut store, &url).unwrap();
    let second = shorten(&mut store, &url).unwrap();
    assert_eq!(first, second);
    assert_eq!(store.len(), 1);
}

#[test]
fn repeated_shorten_persists_one_row() {
    let mut store = UrlStore::new();
    let url = String::from("https://example.com/popular");
    let code = shorten(&mut store, &url).unwrap();
    for _ in 0..20 {
        let again = shorten(&mut store, &url).unwrap();
        assert_eq!(again, code);
    }
    assert_eq!(store.len(), 1);
}

#[test]
fn distinct_urls_get_distinct_codes() {
    let mut store = UrlStore::new();
    let a = shorten(&mut store, &String::from("https://example.com/a")).unwrap();
    let b = shorten(&mut store, &String::from("https://example.com/b")).unwrap();
    assert_ne!(a, b);
    assert_eq!(store.len(), 2);
}

#[test]
fn round_trip_resolves_to_original() {
    let mut store = UrlStore::new();
    let url = String::from("https://example.com/round/trip");
    let code = shorten(&mut store, &url).unwrap();
    let resolved = resolve(&store, &code).unwrap();
    assert_eq!(resolved, url);
}

#[test]
fn resolve_unknown_code_is_not_found() {
    let store = UrlStore::new();
    let r = resolve(&store, &String::from("ZZZZZZ"));
    assert!(matches!(r, Err(ResolveError::NotFound)));

    let mut store = UrlStore::new();
    shorten(&mut store, &String::from("https://example.com")).unwrap();
    let r = resolve(&store, &String::from("ZZZZZZ"));
    assert!(matches!(r, Err(ResolveError::NotFound)));
}

#[test]
fn validation_checks_the_scheme_prefix() {
    assert!(is_valid_url(&String::from("http://x")));
    assert!(is_valid_url(&String::from("https://x")));
    assert!(is_valid_url(&String::from("https://")));
    assert!(!is_valid_url(&String::from("")));
    assert!(!is_valid_url(&String::from("http:/x")));
    assert!(!is_valid_url(&String::from("HTTPS://x")));
    assert!(!is_valid_url(&String::from("ftp://example.com")));
    assert!(!is_valid_url(&String::from("example.com/http://")));
}

#[test]
fn insert_refuses_duplicate_keys() {
    let mut store = UrlStore::new();
    assert!(store.insert(String::from("abc123"), String::from("http://x")).is_ok());
    let dup_code = store.insert(String::from("abc123"), String::from("http://y"));
    assert!(matches!(dup_code, Err(StoreError::DuplicateKey)));
    let dup_url = store.insert(String::from("xyz789"), String::from("http://x"));
    assert!(matches!(dup_url, Err(StoreError::DuplicateKey)));
    assert_eq!(store.len(), 1);
}

#[test]
fn find_by_long_url_returns_issued_code() {
    let mut store = UrlStore::new();
    let url = String::from("https://example.com/find");
    let code = shorten(&mut store, &url).unwrap();
    assert_eq!(store.find_by_long_url(&url), Some(code));
    assert_eq!(store.find_by_long_url(&String::from("https://other")), None);
}
