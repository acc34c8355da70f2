//! Delta detector: given the listing rows in newest-first order and the
//! watermark (the title delivered most recently), it selects the entries in
//! front of the watermark and names the title that the watermark should
//! become once this run delivers everything.

use vstd::prelude::*;

verus! {

/// One row of the news listing, newest first on the page: the entry's title,
/// its author line, and the site-relative path of the article.
pub struct ListingEntry {
    pub title: Vec<u8>,
    pub author: Vec<u8>,
    pub detail_url: Vec<u8>,
}

/// The mathematical shape of a listing entry.
pub struct EntryModel {
    pub title: Seq<u8>,
    pub author: Seq<u8>,
    pub detail_url: Seq<u8>,
}

impl View for ListingEntry {
    type V = EntryModel;

    open spec fn view(&self) -> EntryModel {
        EntryModel { title: self.title@, author: self.author@, detail_url: self.detail_url@ }
    }
}

impl ListingEntry {
    /// Makes an independent copy of the entry.
    pub fn duplicate(&self) -> (r: ListingEntry)
        ensures
            r@ == self@,
    {
        ListingEntry {
            title: crate::text::copy_bytes(&self.title),
            author: crate::text::copy_bytes(&self.author),
            detail_url: crate::text::copy_bytes(&self.detail_url),
        }
    }
}

/// Where the scan down the listing stops: the index of the first entry whose
/// title equals the watermark, or the length of the listing if none does.
/// Everything in front of it is new.
pub open spec fn cut_index(listing: Seq<ListingEntry>, watermark: Seq<u8>) -> int
    decreases listing.len(),
{
    if listing.len() == 0 {
        0
    } else if listing[0]@.title == watermark {
        0
    } else {
        1 + cut_index(listing.skip(1), watermark)
    }
}

/// `cut_index` is the position of the first match: no title in front of it
/// equals the watermark, and the entry at it (if any) does.
pub proof fn lemma_cut_index_is_first_match(
    listing: Seq<ListingEntry>,
    watermark: Seq<u8>,
    k: int,
)
    requires
        0 <= k <= listing.len(),
        forall|j: int| 0 <= j < k ==> #[trigger] listing[j]@.title != watermark,
        k < listing.len() ==> listing[k]@.title == watermark,
    ensures
        cut_index(listing, watermark) == k,
    decreases k,
{
    if k == 0 {
    } else {
        assert(listing[0]@.title != watermark);
        lemma_cut_index_is_first_match(listing.skip(1), watermark, k - 1);
    }
}

/// If the newest entry is the one already delivered, nothing is new.
pub proof fn lemma_detect_idempotent(listing: Seq<ListingEntry>, watermark: Seq<u8>)
    requires
        listing.len() > 0,
        listing[0]@.title == watermark,
    ensures
        cut_index(listing, watermark) == 0,
{
}

/// If no entry matches the watermark, every entry is new.
pub proof fn lemma_detect_bootstrap(listing: Seq<ListingEntry>, watermark: Seq<u8>)
    requires
        forall|j: int| 0 <= j < listing.len() ==> #[trigger] listing[j]@.title != watermark,
    ensures
        cut_index(listing, watermark) == listing.len(),
{
    lemma_cut_index_is_first_match(listing, watermark, listing.len() as int);
}

/// Scans the listing in its newest-first order and returns the new entries —
/// those in front of the first watermark match, in the listing's own order —
/// together with the candidate watermark: the newest title, present exactly
/// when at least one entry is new.
pub fn detect_new(listing: &Vec<ListingEntry>, watermark: &Vec<u8>) -> (r: (
    Vec<ListingEntry>,
    Option<Vec<u8>>,
))
    ensures
        r.0@.len() == cut_index(listing@, watermark@),
        forall|j: int| 0 <= j < r.0@.len() ==> r.0@[j]@ == listing@[j]@,
        forall|j: int| 0 <= j < r.0@.len() ==> #[trigger] listing@[j]@.title != watermark@,
        r.0@.len() < listing@.len() ==> listing@[r.0@.len() as int]@.title == watermark@,
        r.0@.len() <= listing@.len(),
        r.1 is Some <==> r.0@.len() > 0,
        r.1 is Some ==> r.1->0@ == listing@[0]@.title,
{
    let mut k: usize = 0;
    let mut found: bool = false;
    while k < listing.len() && !found
        invariant
            k <= listing@.len(),
            forall|j: int| 0 <= j < k ==> #[trigger] listing@[j]@.title != watermark@,
            found ==> k < listing@.len() && listing@[k as int]@.title == watermark@,
        decreases listing@.len() - k + (if found { 0int } else { 1int }),
    {
        if crate::text::bytes_eq(&listing[k].title, watermark) {
            found = true;
        } else {
            k = k + 1;
        }
    }
    proof {
        lemma_cut_index_is_first_match(listing@, watermark@, k as int);
    }
    let mut new_entries: Vec<ListingEntry> = Vec::new();
    let mut i: usize = 0;
    while i < k
        invariant
            i <= k <= listing@.len(),
            new_entries@.len() == i,
            forall|j: int| 0 <= j < i ==> new_entries@[j]@ == listing@[j]@,
        decreases k - i,
    {
        new_entries.push(listing[i].duplicate());
        i = i + 1;
    }
    let candidate: Option<Vec<u8>> = if k > 0 {
        Some(crate::text::copy_bytes(&listing[0].title))
    } else {
        None
    };
    (new_entries, candidate)
}

} // verus!
