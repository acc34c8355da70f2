use news_relay::detect::{detect_new, ListingEntry};

fn entry(title: &str, author: &str, url: &str) -> ListingEntry {
    ListingEntry {
        title: title.as_bytes().to_vec(),
        author: author.as_bytes().to_vec(),
        detail_url: url.as_bytes().to_vec(),
    }
}

#[test]
fn detect_nothing_new_when_newest_is_watermark() {
    let listing = vec![entry("A", "ann", "/news/a/"), entry("B", "bob", "/news/b/")];
    let (new_entries, candidate) = detect_new(&listing, &b"A".to_vec());
    assert_eq!(new_entries.len(), 0);
    assert!(candidate.is_none());
}

#[test]
fn detect_bootstrap_returns_all_entries() {
    let listing = vec![
        entry("A", "ann", "/news/a/"),
        entry("B", "bob", "/news/b/"),
        entry("C", "cy", "/news/c/"),
    ];
    let (new_entries, candidate) = detect_new(&listing, &b"unseen".to_vec());
    assert_eq!(new_entries.len(), 3);
    assert_eq!(new_entries[0].title, b"A".to_vec());
    assert_eq!(new_entries[1].title, b"B".to_vec());
    assert_eq!(new_entries[2].title, b"C".to_vec());
    assert_eq!(candidate, Some(b"A".to_vec()));
}

#[test]
fn detect_partial_match_stops_at_watermark() {
    let listing = vec![
        entry("A", "ann", "/news/a/"),
        entry("B", "bob", "/news/b/"),
        entry("C", "cy", "/news/c/"),
        entry("D", "dee", "/news/d/"),
    ];
    let (new_entries, candidate) = detect_new(&listing, &b"C".to_vec());
    assert_eq!(new_entries.len(), 2);
    assert_eq!(new_entries[0].title, b"A".to_vec());
    assert_eq!(new_entries[1].title, b"B".to_vec());
    assert_eq!(candidate, Some(b"A".to_vec()));
}

#[test]
fn detect_empty_listing_yields_nothing() {
    let listing: Vec<ListingEntry> = vec![];
    let (new_entries, candidate) = detect_new(&listing, &b"anything".to_vec());
    assert_eq!(new_entries.len(), 0);
    assert!(candidate.is_none());
}

#[test]
fn detect_copies_all_fields() {
    let listing = vec![entry("A", "ann", "/news/a/"), entry("B", "bob", "/news/b/")];
    let (new_entries, _) = detect_new(&listing, &b"B".to_vec());
    assert_eq!(new_entries.len(), 1);
    assert_eq!(new_entries[0].title, b"A".to_vec());
    assert_eq!(new_entries[0].author, b"ann".to_vec());
    assert_eq!(new_entries[0].detail_url, b"/news/a/".to_vec());
}
