//! The decision of a paginated fetch: whether another page is due, and the request for it.
use vstd::prelude::*;
use crate::bytes::copy_bytes;

verus! {

/// A request for one page of a listing.
#[derive(Clone, Debug, PartialEq, Eq)]
pub struct PageRequest {
    pub key: Vec<u8>,
    pub offset: u64,
    pub limit: u64,
    pub count_total: bool,
    pub reverse: bool,
}

/// The request for the page that starts at `next_key`, with the defaults for the rest.
pub fn next_page_request(next_key: Vec<u8>) -> (r: PageRequest)
    ensures
        r.key@ == next_key@,
        r.offset == 0,
        r.limit == 0,
        !r.count_total,
        !r.reverse,
{
    PageRequest { key: next_key, offset: 0, limit: 0, count_total: false, reverse: false }
}

/// After a page whose response carried `next_key` (none: no pagination in the
/// response), the request for the following page, or none when the listing is done.
/// An empty key also means the listing is done.
pub fn follow_page(next_key: &Option<Vec<u8>>) -> (r: Option<PageRequest>)
    ensures
        match *next_key {
            Some(k) if k@.len() > 0 => r matches Some(req) && req.key@ == k@ && req.offset == 0
                && req.limit == 0 && !req.count_total && !req.reverse,
            _ => r.is_none(),
        },
{
    match next_key {
        Some(k) => {
            if k.len() > 0 {
                Some(next_page_request(copy_bytes(k.as_slice())))
            } else {
                None
            }
        },
        None => None,
    }
}

} // verus!
