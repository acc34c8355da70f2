use news_relay::detect::ListingEntry;
use news_relay::message::{absolute_url, compose_message, prepare_message};

#[test]
fn absolute_url_prefixes_site() {
    let url = absolute_url(&b"/news/some-item/".to_vec());
    assert_eq!(url, b"https://archlinux.org/news/some-item/".to_vec());
}

#[test]
fn compose_message_exact_shape() {
    let r = compose_message(
        &b"Title".to_vec(),
        &b"https://archlinux.org/news/t/".to_vec(),
        &b"Body".to_vec(),
        &b"Author".to_vec(),
    );
    assert_eq!(
        r,
        b"<b><a href=\"https://archlinux.org/news/t/\">Title</a></b>\n\nBody\n\n\nAuthor".to_vec()
    );
}

#[test]
fn prepare_message_normalizes_body() {
    let entry = ListingEntry {
        title: b"T".to_vec(),
        author: b"A".to_vec(),
        detail_url: b"/news/t/".to_vec(),
    };
    let r = prepare_message(&entry, &b"<p>one</p>\n<p>two</p>".to_vec());
    assert_eq!(
        r,
        b"<b><a href=\"https://archlinux.org/news/t/\">T</a></b>\n\none\n\ntwo\n\n\nA".to_vec()
    );
}
