//! How a traversal of a playlist begins: from the cached length, or from an
//! eager fetch of the first page.
use vstd::prelude::*;

use crate::key::{be_bytes, be_value, decode_length, encode_length};
use crate::tracks::SEARCH_LIMIT;

verus! {

/// Where the cursor of a new traversal gets its total from.
pub enum TracksSource {
    /// The cache holds the playlist's length: start lazily, nothing fetched.
    CachedLength(u32),
    /// Fetch this page first; its total becomes the cached length and its
    /// tracks the lookahead buffer.
    FirstPage { offset: u32, limit: u32 },
}

/// The length that a stored length record gives, unless a refresh is forced.
pub open spec fn cached_total(force: bool, stored: Option<Seq<u8>>) -> Option<u32> {
    if force {
        None
    } else {
        match stored {
            Some(b) => if b.len() == 4 {
                Some(be_value(b))
            } else {
                None
            },
            None => None,
        }
    }
}

/// The contents of a stored record, if there is one.
pub open spec fn record_view(stored: Option<&[u8]>) -> Option<Seq<u8>> {
    match stored {
        Some(b) => Some(b@),
        None => None,
    }
}

/// Decides how a traversal begins, given whether a refresh is forced and the
/// record stored under the playlist id in the lengths namespace, if any.
pub fn plan_traversal(force: bool, stored: Option<&[u8]>) -> (r: TracksSource)
    ensures
        r == (match cached_total(force, record_view(stored)) {
            Some(total) => TracksSource::CachedLength(total),
            None => TracksSource::FirstPage { offset: 0, limit: SEARCH_LIMIT },
        }),
{
    let total = if force {
        None
    } else {
        match stored {
            Some(b) => decode_length(b),
            None => None,
        }
    };
    match total {
        Some(total) => TracksSource::CachedLength(total),
        None => TracksSource::FirstPage { offset: 0, limit: SEARCH_LIMIT },
    }
}

/// The record written to the lengths namespace after the first page arrives.
pub fn length_record(total: u32) -> (r: Vec<u8>)
    ensures
        r@ == be_bytes(total),
        cached_total(false, Some(r@)) == Some(total),
{
    proof {
        crate::key::lemma_length_round_trip(total);
    }
    encode_length(total)
}

/// Forced refresh: with `force` set the traversal always begins with a fetch of
/// the page at offset zero, whatever the cache holds; the length record then
/// written in place of the stored one is read back as the page's total.
pub proof fn lemma_forced_refresh(stored: Option<Seq<u8>>, page_total: u32)
    ensures
        cached_total(true, stored) == None::<u32>,
        cached_total(false, Some(be_bytes(page_total))) == Some(page_total),
{
    crate::key::lemma_length_round_trip(page_total);
}

} // verus!
