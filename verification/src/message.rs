//! Message composition: the absolute article link and the chat message text
//! built from an entry and its normalized body.

use vstd::prelude::*;

verus! {

/// `"https://archlinux.org"`, the site the relative article paths hang off.
pub open spec fn site_base() -> Seq<u8> {
    seq![
        104u8, 116u8, 116u8, 112u8, 115u8, 58u8, 47u8, 47u8, 97u8, 114u8, 99u8, 104u8, 108u8,
        105u8, 110u8, 117u8, 120u8, 46u8, 111u8, 114u8, 103u8,
    ]
}

/// `"<b><a href=\""`
pub open spec fn link_open() -> Seq<u8> {
    seq![60u8, 98u8, 62u8, 60u8, 97u8, 32u8, 104u8, 114u8, 101u8, 102u8, 61u8, 34u8]
}

/// `"\">"`
pub open spec fn link_mid() -> Seq<u8> {
    seq![34u8, 62u8]
}

/// `"</a></b>"`
pub open spec fn link_close() -> Seq<u8> {
    seq![60u8, 47u8, 97u8, 62u8, 60u8, 47u8, 98u8, 62u8]
}

/// `"\n\n"`, between the headline and the body.
pub open spec fn body_sep() -> Seq<u8> {
    seq![10u8, 10u8]
}

/// `"\n\n\n"`, between the body and the author line.
pub open spec fn author_sep() -> Seq<u8> {
    seq![10u8, 10u8, 10u8]
}

/// The text of one chat message: a bold link on the title, the body, and the
/// author line, with blank lines between the three.
pub open spec fn message_text(
    title: Seq<u8>,
    url: Seq<u8>,
    body: Seq<u8>,
    author: Seq<u8>,
) -> Seq<u8> {
    link_open() + url + link_mid() + title + link_close() + body_sep() + body + author_sep()
        + author
}

/// Builds the absolute article link from the listing's relative path.
pub fn absolute_url(detail_url: &Vec<u8>) -> (r: Vec<u8>)
    ensures
        r@ == site_base() + detail_url@,
{
    let mut r = crate::text::vec_of_bytes(
        &[
            104u8, 116u8, 116u8, 112u8, 115u8, 58u8, 47u8, 47u8, 97u8, 114u8, 99u8, 104u8, 108u8,
            105u8, 110u8, 117u8, 120u8, 46u8, 111u8, 114u8, 103u8,
        ],
    );
    proof {
        assert(r@ =~= site_base());
    }
    crate::text::append_bytes(&mut r, detail_url);
    r
}

/// Builds the message text of one entry from its parts.
pub fn compose_message(title: &Vec<u8>, url: &Vec<u8>, body: &Vec<u8>, author: &Vec<u8>) -> (r:
    Vec<u8>)
    ensures
        r@ == message_text(title@, url@, body@, author@),
{
    let mut r = crate::text::vec_of_bytes(
        &[60u8, 98u8, 62u8, 60u8, 97u8, 32u8, 104u8, 114u8, 101u8, 102u8, 61u8, 34u8],
    );
    proof {
        assert(r@ =~= link_open());
    }
    crate::text::append_bytes(&mut r, url);
    let mid = crate::text::vec_of_bytes(&[34u8, 62u8]);
    proof {
        assert(mid@ =~= link_mid());
    }
    crate::text::append_bytes(&mut r, &mid);
    crate::text::append_bytes(&mut r, title);
    let close = crate::text::vec_of_bytes(&[60u8, 47u8, 97u8, 62u8, 60u8, 47u8, 98u8, 62u8]);
    proof {
        assert(close@ =~= link_close());
    }
    crate::text::append_bytes(&mut r, &close);
    let sep1 = crate::text::vec_of_bytes(&[10u8, 10u8]);
    proof {
        assert(sep1@ =~= body_sep());
    }
    crate::text::append_bytes(&mut r, &sep1);
    crate::text::append_bytes(&mut r, body);
    let sep2 = crate::text::vec_of_bytes(&[10u8, 10u8, 10u8]);
    proof {
        assert(sep2@ =~= author_sep());
    }
    crate::text::append_bytes(&mut r, &sep2);
    crate::text::append_bytes(&mut r, author);
    r
}

/// Everything this library does to one new entry once its raw article body
/// is in hand: link it, normalize the body, compose the message text.
pub fn prepare_message(entry: &crate::detect::ListingEntry, raw_body: &Vec<u8>) -> (r: Vec<u8>)
    ensures
        r@ == message_text(
            entry@.title,
            site_base() + entry@.detail_url,
            crate::normalize::normalize_spec(raw_body@),
            entry@.author,
        ),
{
    let url = absolute_url(&entry.detail_url);
    let body = crate::normalize::normalize(raw_body);
    compose_message(&entry.title, &url, &body, &entry.author)
}

} // verus!
