use shorten_rs::record::{ShortenUrl, MAX_VISITS};
use shorten_rs::table::UrlTable;

#[test]
fn new_table_is_empty() {
    let mut table = UrlTable::new();
    assert_eq!(table.len(), 0);
    assert_eq!(table.read(&"nonexistent".to_string()).unwrap_err(), "Url not found !");
    assert_eq!(table.len(), 0);
}

#[test]
fn insert_appends_the_issued_record() {
    let mut table = UrlTable::new();
    let rec = table.insert(
        "http://localhost:8080",
        "https://example.com/page".to_string(),
        "abcdefghij".to_string(),
    );
    assert_eq!(rec.short_id, "abcdefghij");
    assert_eq!(rec.url, "https://example.com/page");
    assert_eq!(rec.target_url, "http://localhost:8080/abcdefghij");
    assert_eq!(rec.visits, 0);
    assert_eq!(table.len(), 1);
}

#[test]
fn table_read_counts_visits() {
    let mut table = UrlTable::new();
    table.insert("http://d", "https://example.com/1".to_string(), "id00000001".to_string());
    table.insert("http://d", "https://example.com/2".to_string(), "id00000002".to_string());

    let first = table.read(&"id00000002".to_string()).unwrap();
    assert_eq!(first.url, "https://example.com/2");
    assert_eq!(first.target_url, "http://d/id00000002");
    assert_eq!(first.visits, 1);
    assert_eq!(table.read(&"id00000002".to_string()).unwrap().visits, 2);
    assert_eq!(table.read(&"id00000002".to_string()).unwrap().visits, 3);
    assert_eq!(table.read(&"id00000001".to_string()).unwrap().visits, 1);
    assert_eq!(table.len(), 2);
}

#[test]
fn table_read_of_unknown_identifier_changes_nothing() {
    let mut table = UrlTable::new();
    table.insert("http://d", "https://example.com/1".to_string(), "id00000001".to_string());
    assert_eq!(table.read(&"id00000009".to_string()).unwrap_err(), "Url not found !");
    assert_eq!(table.read(&"id0000000".to_string()).unwrap_err(), "Url not found !");
    assert_eq!(table.read(&"ID00000001".to_string()).unwrap_err(), "Url not found !");
    assert_eq!(table.len(), 1);
    assert_eq!(table.read(&"id00000001".to_string()).unwrap().visits, 1);
}

#[test]
fn repeated_identifier_resolves_to_the_older_record() {
    let mut table = UrlTable::new();
    table.insert("http://d", "https://example.com/old".to_string(), "samesame00".to_string());
    table.insert("http://d", "https://example.com/new".to_string(), "samesame00".to_string());
    assert_eq!(table.len(), 2);
    let found = table.read(&"samesame00".to_string()).unwrap();
    assert_eq!(found.url, "https://example.com/old");
    assert_eq!(found.visits, 1);
    let again = table.read(&"samesame00".to_string()).unwrap();
    assert_eq!(again.url, "https://example.com/old");
    assert_eq!(again.visits, 2);
}

#[test]
fn table_store_validates_first() {
    let mut table = UrlTable::new();
    assert_eq!(table.store("http://d", "not-a-url".to_string()).unwrap_err(), "Invalid URL");
    assert_eq!(table.store("http://d", "wrong/url".to_string()).unwrap_err(), "Invalid URL");
    assert_eq!(table.len(), 0);

    let rec = table.store("http://d", "https://example.com/ok".to_string()).unwrap();
    assert_eq!(table.len(), 1);
    assert_eq!(rec.url, "https://example.com/ok");
    assert_eq!(rec.short_id.chars().count(), 10);
    assert_eq!(rec.target_url, format!("http://d/{}", rec.short_id));
    assert_eq!(rec.visits, 0);

    assert_eq!(table.store("http://d", "also not".to_string()).unwrap_err(), "Invalid URL");
    assert_eq!(table.len(), 1);
    assert_eq!(table.read(&rec.short_id).unwrap().visits, 1);
}

#[test]
fn table_store_then_read_round_trip() {
    let mut table = UrlTable::new();
    let stored = table.store("http://localhost", "https://doc.rust-lang.org/book".to_string()).unwrap();
    let found = table.read(&stored.short_id).unwrap();
    assert_eq!(found.url, "https://doc.rust-lang.org/book");
    assert_eq!(found.short_id, stored.short_id);
    assert_eq!(found.target_url, stored.target_url);
    assert_eq!(found.visits, 1);
}

#[test]
fn issue_builds_link_from_domain() {
    let rec = ShortenUrl::issue("https://sho.rt", "https://example.com/".to_string(), "Ab_-012345".to_string());
    assert_eq!(rec.short_id, "Ab_-012345");
    assert_eq!(rec.url, "https://example.com/");
    assert_eq!(rec.target_url, "https://sho.rt/Ab_-012345");
    assert_eq!(rec.visits, 0);

    let bare = ShortenUrl::issue("", String::new(), String::new());
    assert_eq!(bare.target_url, "/");
}

#[test]
fn visit_adds_one_and_stops_at_the_top() {
    let mut rec = ShortenUrl::issue("http://d", "https://example.com/".to_string(), "id00000001".to_string());
    rec.visit();
    assert_eq!(rec.visits, 1);
    rec.visit();
    assert_eq!(rec.visits, 2);

    assert_eq!(MAX_VISITS, i32::MAX);
    rec.visits = MAX_VISITS - 1;
    rec.visit();
    assert_eq!(rec.visits, MAX_VISITS);
    rec.visit();
    assert_eq!(rec.visits, MAX_VISITS);
    assert_eq!(rec.short_id, "id00000001");
    assert_eq!(rec.target_url, "http://d/id00000001");
}

#[test]
fn snapshot_equals_its_source() {
    let mut rec = ShortenUrl::issue("http://d", "https://example.com/".to_string(), "id00000001".to_string());
    rec.visit();
    let copy = rec.snapshot();
    assert_eq!(copy.short_id, rec.short_id);
    assert_eq!(copy.url, rec.url);
    assert_eq!(copy.target_url, rec.target_url);
    assert_eq!(copy.visits, 1);
    rec.visit();
    assert_eq!(copy.visits, 1);
}

#[test]
fn table_store_refuses_a_url_without_a_host() {
    let mut table = UrlTable::new();
    assert_eq!(table.store("http://d", "mailto:someone@example.com".to_string()).unwrap_err(), "Invalid URL");
    assert_eq!(table.store("http://d", "localhost:8080".to_string()).unwrap_err(), "Invalid URL");
    assert_eq!(table.store("http://d", "data:text/plain,x".to_string()).unwrap_err(), "Invalid URL");
    assert_eq!(table.len(), 0);
}

#[test]
fn table_visits_count_among_other_operations() {
    let mut table = UrlTable::new();
    table.insert("http://d", "https://example.com/1".to_string(), "id00000001".to_string());
    assert_eq!(table.read(&"id00000001".to_string()).unwrap().visits, 1);
    table.insert("http://d", "https://example.com/2".to_string(), "id00000002".to_string());
    assert_eq!(table.read(&"id00000002".to_string()).unwrap().visits, 1);
    table.insert("http://d", "https://example.com/3".to_string(), "id00000001".to_string());
    assert_eq!(table.read(&"id00000009".to_string()).unwrap_err(), "Url not found !");
    let second = table.read(&"id00000001".to_string()).unwrap();
    assert_eq!(second.visits, 2);
    assert_eq!(second.url, "https://example.com/1");
    assert_eq!(table.read(&"id00000002".to_string()).unwrap().visits, 2);
    assert_eq!(table.read(&"id00000001".to_string()).unwrap().visits, 3);
    assert_eq!(table.len(), 3);
}
