use yaus::locator::{derive_locator, locator_from_digest, LOCATOR_LEN};
use yaus::service::{short_url, shorten, url_from_query, ShortenError, HOST};
use yaus::store::{LocatorStore, Status, StoreError};

const EXAMPLE: &str = "https://example.com/a/b?c=1";

#[test]
fn derive_is_deterministic() {
    let a = derive_locator(EXAMPLE);
    let b = derive_locator(EXAMPLE);
    assert_eq!(a, b);
    assert_eq!(a.len(), LOCATOR_LEN);
}

#[test]
fn derive_example_url() {
    assert_eq!(derive_locator(EXAMPLE), "2513d8d");
}

#[test]
fn derive_other_urls() {
    assert_eq!(derive_locator("https://example.com/"), "0f115db");
    assert_eq!(derive_locator(""), "e3b0c44");
    assert_eq!(derive_locator("https://exämple.com/ü"), "5de1426");
    assert_ne!(derive_locator("https://example.com/"), derive_locator("https://Example.com/"));
}

#[test]
fn locator_from_digest_takes_hex_prefix() {
    assert_eq!(locator_from_digest(&[0xab, 0x01, 0x23, 0x45, 0x67]), "ab01234");
    assert_eq!(locator_from_digest(&[0x0f]), "0f");
    assert_eq!(locator_from_digest(&[]), "");
    assert_eq!(locator_from_digest(&[0xff, 0x00, 0x9a, 0xc5]), "ff009ac");
}

#[test]
fn resolve_twice_creates_then_finds() {
    let mut store = LocatorStore::new();
    let first = store.resolve_or_create(EXAMPLE).unwrap();
    assert_eq!(first.status, Status::Created);
    assert_eq!(first.locator, "2513d8d");
    let second = store.resolve_or_create(EXAMPLE).unwrap();
    assert_eq!(second.status, Status::Existing);
    assert_eq!(second.locator, first.locator);
    assert_eq!(store.len(), 1);
}

#[test]
fn resolved_locator_leads_back() {
    let mut store = LocatorStore::new();
    let urls = ["https://example.com/", EXAMPLE, "https://rust-lang.org/learn"];
    for u in urls.iter() {
        let s = store.resolve_or_create(u).unwrap();
        assert_eq!(store.lookup(&s.locator), Some(u.to_string()));
        assert_eq!(store.find_locator(u), Some(s.locator.clone()));
    }
    assert_eq!(store.len(), 3);
}

#[test]
fn resolve_is_case_sensitive() {
    let mut store = LocatorStore::new();
    let a = store.resolve_or_create("https://example.com/A").unwrap();
    let b = store.resolve_or_create("https://example.com/a").unwrap();
    assert_eq!(a.status, Status::Created);
    assert_eq!(b.status, Status::Created);
    assert_ne!(a.locator, b.locator);
    assert_eq!(store.len(), 2);
}

#[test]
fn locator_conflict_is_reported() {
    let mut store = LocatorStore::new();
    let r = store.insert_record("t0".to_string(), "https://a.example/".to_string(), "abc1234".to_string());
    assert_eq!(r, Ok(()));
    let c = store.resolve_with_candidate("https://b.example/", "abc1234".to_string(), "t1".to_string());
    assert!(matches!(c, Err(StoreError::LocatorTaken)));
    assert_eq!(store.len(), 1);
    assert_eq!(store.lookup("abc1234"), Some("https://a.example/".to_string()));
    assert_eq!(store.find_locator("https://b.example/"), None);
}

#[test]
fn insert_record_refuses_duplicates() {
    let mut store = LocatorStore::new();
    assert_eq!(store.insert_record("t0".to_string(), "https://a.example/".to_string(), "1111111".to_string()), Ok(()));
    assert_eq!(
        store.insert_record("t1".to_string(), "https://a.example/".to_string(), "2222222".to_string()),
        Err(StoreError::UrlTaken)
    );
    assert_eq!(
        store.insert_record("t1".to_string(), "https://c.example/".to_string(), "1111111".to_string()),
        Err(StoreError::LocatorTaken)
    );
    assert_eq!(store.len(), 1);
    assert_eq!(store.insert_record("t2".to_string(), "https://c.example/".to_string(), "3333333".to_string()), Ok(()));
    assert_eq!(store.len(), 2);
}

#[test]
fn resolve_with_candidate_existing_keeps_stored_locator() {
    let mut store = LocatorStore::new();
    let a = store.resolve_with_candidate("https://a.example/", "aaaaaaa".to_string(), "t0".to_string()).unwrap();
    assert_eq!(a.status, Status::Created);
    assert_eq!(a.locator, "aaaaaaa");
    let b = store.resolve_with_candidate("https://a.example/", "bbbbbbb".to_string(), "t1".to_string()).unwrap();
    assert_eq!(b.status, Status::Existing);
    assert_eq!(b.locator, "aaaaaaa");
    assert_eq!(store.lookup("bbbbbbb"), None);
}

#[test]
fn many_callers_one_record() {
    let mut store = LocatorStore::new();
    store.resolve_or_create("https://other.example/").unwrap();
    let mut created = 0;
    let mut existing = 0;
    let mut locators = Vec::new();
    for _ in 0..8 {
        let s = store.resolve_or_create(EXAMPLE).unwrap();
        match s.status {
            Status::Created => created += 1,
            Status::Existing => existing += 1,
        }
        locators.push(s.locator);
    }
    assert_eq!(created, 1);
    assert_eq!(existing, 7);
    assert!(locators.iter().all(|l| l == "2513d8d"));
    assert_eq!(store.len(), 2);
}

#[test]
fn unknown_locator_is_absent() {
    let mut store = LocatorStore::new();
    assert_eq!(store.lookup("nonexistent"), None);
    store.resolve_or_create(EXAMPLE).unwrap();
    assert_eq!(store.lookup("nonexistent"), None);
    assert_eq!(store.lookup("2513D8D"), None);
    assert_eq!(store.lookup(""), None);
}

#[test]
fn query_carries_url() {
    assert_eq!(url_from_query("url=https://example.com/"), Some("https://example.com/".to_string()));
    assert_eq!(url_from_query("url="), Some(String::new()));
    assert_eq!(url_from_query("uri=https://example.com/"), None);
    assert_eq!(url_from_query("ur"), None);
    assert_eq!(url_from_query(""), None);
    assert_eq!(url_from_query("URL=x"), None);
}

#[test]
fn short_url_joins_host_and_locator() {
    assert_eq!(HOST, "https://yaus.pw/");
    assert_eq!(short_url("2513d8d"), "https://yaus.pw/2513d8d");
}

#[test]
fn shorten_example_twice() {
    let mut store = LocatorStore::new();
    let q = format!("url={}", EXAMPLE);
    let first = shorten(&mut store, Some(&q)).unwrap();
    assert_eq!(first.url, "https://yaus.pw/2513d8d");
    assert_eq!(first.status, Status::Created);
    let second = shorten(&mut store, Some(&q)).unwrap();
    assert_eq!(second.url, "https://yaus.pw/2513d8d");
    assert_eq!(second.status, Status::Existing);
    assert_eq!(store.lookup("2513d8d"), Some(EXAMPLE.to_string()));
}

#[test]
fn shorten_refuses_bad_requests() {
    let mut store = LocatorStore::new();
    assert!(matches!(shorten(&mut store, None), Err(ShortenError::MissingUrl)));
    assert!(matches!(shorten(&mut store, Some("foo=bar")), Err(ShortenError::MalformedQuery)));
    assert!(matches!(shorten(&mut store, Some("ur")), Err(ShortenError::MalformedQuery)));
    assert!(matches!(shorten(&mut store, Some("url=not a url")), Err(ShortenError::MalformedUrl)));
    assert!(matches!(shorten(&mut store, Some("url=")), Err(ShortenError::MalformedUrl)));
    assert!(matches!(shorten(&mut store, Some("url=mailto:someone@example.com")), Err(ShortenError::MalformedUrl)));
    assert_eq!(store.len(), 0);
}

#[test]
fn shorten_reports_conflict() {
    let mut store = LocatorStore::new();
    store.insert_record("t0".to_string(), "https://a.example/".to_string(), "2513d8d".to_string()).unwrap();
    let q = format!("url={}", EXAMPLE);
    assert!(matches!(shorten(&mut store, Some(&q)), Err(ShortenError::Conflict)));
    assert_eq!(store.len(), 1);
}
