use ninety_two::errors::NinetyTwoError;
use ninety_two::handlers;
use ninety_two::record::{Record, RecordJSON, RecordStore};

fn json(slug: &str, url: &str, overwrite: bool) -> RecordJSON {
    RecordJSON { slug: slug.to_owned(), url: url.to_owned(), overwrite }
}

#[test]
fn create_then_fetch_returns_record() {
    let mut store = RecordStore::new();
    let r = Record::create_at(&json("abc", "http://x.com", false), &mut store, 100).unwrap();
    assert_eq!(r.id, 1);
    assert_eq!(r.slug, "abc");
    assert_eq!(r.url, "http://x.com");
    assert_eq!(r.created_at, 100);
    assert_eq!(r.last_used_at, None);
    let f = Record::fetch_by_slug(&String::from("abc"), &store).unwrap();
    assert_eq!(f.id, 1);
    assert_eq!(f.slug, "abc");
    assert_eq!(f.url, "http://x.com");
    assert_eq!(f.created_at, 100);
    assert_eq!(f.last_used_at, None);
}

#[test]
fn create_conflict_reports_already_exists() {
    let mut store = RecordStore::new();
    Record::create_at(&json("abc", "http://x.com", false), &mut store, 100).unwrap();
    let r = Record::create_at(&json("abc", "http://y.com", false), &mut store, 101);
    assert!(matches!(r, Err(NinetyTwoError::RecordAlreadyExist)));
    let f = Record::fetch_by_slug(&String::from("abc"), &store).unwrap();
    assert_eq!(f.url, "http://x.com");
}

#[test]
fn conflict_without_overwrite_keeps_url() {
    let mut store = RecordStore::new();
    handlers::create_at(&json("abc", "http://x.com", false), &mut store, 100).unwrap();
    let r = handlers::create_at(&json("abc", "http://y.com", false), &mut store, 101);
    let e = r.err().unwrap();
    assert_eq!(e.code, 409);
    assert_eq!(e.http_status, 409);
    let f = Record::fetch_by_slug(&String::from("abc"), &store).unwrap();
    assert_eq!(f.url, "http://x.com");
}

#[test]
fn overwrite_replaces_url() {
    let mut store = RecordStore::new();
    handlers::create_at(&json("abc", "http://x.com", false), &mut store, 100).unwrap();
    let r = handlers::create_at(&json("abc", "http://y.com", true), &mut store, 101).unwrap();
    assert_eq!(r.id, 1);
    assert_eq!(r.slug, "abc");
    assert_eq!(r.url, "http://y.com");
    let f = Record::fetch_by_slug(&String::from("abc"), &store).unwrap();
    assert_eq!(f.url, "http://y.com");
    assert_eq!(store.records.len(), 1);
}

#[test]
fn create_overwrite_example() {
    let mut store = RecordStore::new();
    let r1 = handlers::create_at(&json("abc", "http://x.com", false), &mut store, 10).unwrap();
    assert_eq!(r1.slug, "abc");
    assert_eq!(r1.url, "http://x.com");
    let r2 = handlers::create_at(&json("abc", "http://y.com", false), &mut store, 11);
    assert!(r2.is_err());
    assert_eq!(r2.err().unwrap().http_status, 409);
    let r3 = handlers::create_at(&json("abc", "http://y.com", true), &mut store, 12).unwrap();
    assert_eq!(r3.slug, "abc");
    assert_eq!(r3.url, "http://y.com");
}

#[test]
fn update_missing_slug_returns_none() {
    let mut store = RecordStore::new();
    Record::create_at(&json("abc", "http://x.com", false), &mut store, 100).unwrap();
    let r = Record::update(&json("zzz", "http://y.com", true), &mut store);
    assert!(r.is_none());
    assert_eq!(store.records.len(), 1);
    assert_eq!(store.records[0].url, "http://x.com");
}

#[test]
fn update_last_used_missing_id_returns_none() {
    let mut store = RecordStore::new();
    Record::create_at(&json("abc", "http://x.com", false), &mut store, 100).unwrap();
    let r = Record::update_last_used_at(7, &mut store, 200);
    assert!(r.is_none());
    assert_eq!(store.records[0].last_used_at, None);
}

#[test]
fn fetch_last_used_orders_nulls_last() {
    let mut store = RecordStore::new();
    Record::create_at(&json("a", "http://a", false), &mut store, 10).unwrap();
    Record::create_at(&json("b", "http://b", false), &mut store, 11).unwrap();
    Record::create_at(&json("c", "http://c", false), &mut store, 12).unwrap();
    Record::update_last_used_at(1, &mut store, 50).unwrap();
    Record::update_last_used_at(3, &mut store, 60).unwrap();
    let r = Record::fetch_last_used(10, &store);
    let slugs: Vec<&str> = r.iter().map(|x| x.slug.as_str()).collect();
    assert_eq!(slugs, vec!["c", "a", "b"]);
    assert_eq!(r[0].last_used_at, Some(60));
    assert_eq!(r[1].last_used_at, Some(50));
    assert_eq!(r[2].last_used_at, None);
}

#[test]
fn fetch_last_used_ties_broken_by_id_desc() {
    let mut store = RecordStore::new();
    Record::create_at(&json("a", "http://a", false), &mut store, 10).unwrap();
    Record::create_at(&json("b", "http://b", false), &mut store, 11).unwrap();
    Record::create_at(&json("c", "http://c", false), &mut store, 12).unwrap();
    Record::update_last_used_at(1, &mut store, 60).unwrap();
    Record::update_last_used_at(3, &mut store, 60).unwrap();
    let r = Record::fetch_last_used(10, &store);
    let ids: Vec<i32> = r.iter().map(|x| x.id).collect();
    assert_eq!(ids, vec![3, 1, 2]);
}

#[test]
fn never_used_rows_sort_by_id_desc() {
    let mut store = RecordStore::new();
    Record::create_at(&json("a", "http://a", false), &mut store, 10).unwrap();
    Record::create_at(&json("b", "http://b", false), &mut store, 11).unwrap();
    let r = Record::fetch_last_used(10, &store);
    let ids: Vec<i32> = r.iter().map(|x| x.id).collect();
    assert_eq!(ids, vec![2, 1]);
}

#[test]
fn fetch_last_used_caps_count() {
    let mut store = RecordStore::new();
    Record::create_at(&json("a", "http://a", false), &mut store, 10).unwrap();
    Record::create_at(&json("b", "http://b", false), &mut store, 11).unwrap();
    Record::create_at(&json("c", "http://c", false), &mut store, 12).unwrap();
    let r = Record::fetch_last_used(2, &store);
    assert_eq!(r.len(), 2);
    let r0 = Record::fetch_last_used(0, &store);
    assert_eq!(r0.len(), 0);
}

#[test]
fn resolving_a_slug_touches_it() {
    let mut store = RecordStore::new();
    Record::create_at(&json("a", "http://a", false), &mut store, 10).unwrap();
    Record::create_at(&json("b", "http://b", false), &mut store, 11).unwrap();
    Record::update_last_used_at(2, &mut store, 40).unwrap();
    let hit = handlers::fetch_by_slug_at(&String::from("a"), &mut store, 500).unwrap();
    assert_eq!(hit.slug, "a");
    assert_eq!(hit.last_used_at, None);
    let r = Record::fetch_last_used(10, &store);
    assert_eq!(r[0].slug, "a");
    assert_eq!(r[0].last_used_at, Some(500));
    assert_eq!(r[1].slug, "b");
}

#[test]
fn resolving_a_missing_slug_changes_nothing() {
    let mut store = RecordStore::new();
    Record::create_at(&json("a", "http://a", false), &mut store, 10).unwrap();
    let miss = handlers::fetch_by_slug_at(&String::from("zzz"), &mut store, 500);
    assert!(miss.is_none());
    assert_eq!(store.records[0].last_used_at, None);
}

#[test]
fn clock_backed_calls_work() {
    let mut store = RecordStore::new();
    let r = Record::create(&json("abc", "http://x.com", false), &mut store).unwrap();
    assert_eq!(r.id, 1);
    assert_eq!(r.last_used_at, None);
    let hit = handlers::fetch_by_slug(&String::from("abc"), &mut store).unwrap();
    assert_eq!(hit.slug, "abc");
    assert!(store.records[0].last_used_at.is_some());
    let listed = handlers::fetch_recent_used(None, &store);
    assert_eq!(listed.len(), 1);
    assert_eq!(listed[0].slug, "abc");
}

#[test]
fn parse_count_reads_numbers_and_falls_back() {
    assert_eq!(handlers::parse_count(None), 5);
    assert_eq!(handlers::parse_count(Some(b"7".as_slice())), 7);
    assert_eq!(handlers::parse_count(Some(b"007".as_slice())), 7);
    assert_eq!(handlers::parse_count(Some(b"+12".as_slice())), 12);
    assert_eq!(handlers::parse_count(Some(b"-3".as_slice())), -3);
    assert_eq!(handlers::parse_count(Some(b"".as_slice())), 5);
    assert_eq!(handlers::parse_count(Some(b"+".as_slice())), 5);
    assert_eq!(handlers::parse_count(Some(b"-".as_slice())), 5);
    assert_eq!(handlers::parse_count(Some(b"abc".as_slice())), 5);
    assert_eq!(handlers::parse_count(Some(b"12x".as_slice())), 5);
    assert_eq!(handlers::parse_count(Some(b" 5".as_slice())), 5);
    assert_eq!(handlers::parse_count(Some(b"2147483647".as_slice())), 2147483647);
    assert_eq!(handlers::parse_count(Some(b"2147483648".as_slice())), 5);
    assert_eq!(handlers::parse_count(Some(b"-2147483648".as_slice())), -2147483648);
    assert_eq!(handlers::parse_count(Some(b"-2147483649".as_slice())), 5);
    assert_eq!(handlers::parse_count(Some(b"99999999999999999999".as_slice())), 5);
}

#[test]
fn fetch_recent_used_honours_count_param() {
    let mut store = RecordStore::new();
    Record::create_at(&json("a", "http://a", false), &mut store, 10).unwrap();
    Record::create_at(&json("b", "http://b", false), &mut store, 11).unwrap();
    Record::create_at(&json("c", "http://c", false), &mut store, 12).unwrap();
    let r = handlers::fetch_recent_used(Some(b"2".as_slice()), &store);
    assert_eq!(r.len(), 2);
    let all = handlers::fetch_recent_used(Some(b"junk".as_slice()), &store);
    assert_eq!(all.len(), 3);
}
