//! The over-fetch-by-one pagination policy: to serve a page of
//! `offset` items, `offset + 1` items are requested from the explorer
//! backend, and the surplus item — if one came back — only signals
//! that a further page exists. No total-count endpoint is involved.

use vstd::prelude::*;

verus! {

/// Sort order of an explorer transaction-list query.
#[derive(Debug, Clone, Copy, PartialEq, Eq, Structural)]
pub enum SortOrder {
    Ascending,
    Descending,
}

/// Parameters of one explorer transaction-list query.
#[derive(Debug, Clone, Copy, PartialEq, Eq, Structural)]
pub struct TxListParams {
    /// First block to consider.
    pub start_block: u64,
    /// Last block to consider.
    pub end_block: u64,
    /// Page number to fetch.
    pub page: u64,
    /// Number of items to fetch for the page.
    pub offset: u64,
    /// Requested sort order.
    pub sort: SortOrder,
}

/// The explorer query issued to serve `page` with page size `offset`:
/// one more item than the page needs, newest first, over the whole
/// block range.
pub fn over_fetch_params(page: u64, offset: u64) -> (r: TxListParams)
    requires
        offset < u64::MAX,
    ensures
        r == (TxListParams {
            start_block: 0,
            end_block: u64::MAX,
            page,
            offset: (offset + 1) as u64,
            sort: SortOrder::Descending,
        }),
{
    TxListParams {
        start_block: 0,
        end_block: u64::MAX,
        page,
        offset: offset + 1,
        sort: SortOrder::Descending,
    }
}

/// Trims what an over-fetching query returned down to the page that
/// was asked for. A further page exists exactly when more than
/// `offset` items came back; in that case the surplus is discarded and
/// exactly `offset` items are kept, otherwise everything that came
/// back is the page.
pub fn trim_page<T>(fetched: Vec<T>, offset: u64) -> (r: (Vec<T>, bool))
    ensures
        r.1 == (fetched@.len() > offset),
        r.1 ==> r.0@ == fetched@.take(offset as int),
        !r.1 ==> r.0 == fetched,
{
    let has_more = fetched.len() as u64 > offset;
    if has_more {
        let mut kept = fetched;
        kept.truncate(offset as usize);
        (kept, true)
    } else {
        (fetched, false)
    }
}

/// The number of the next page, present exactly when a further page
/// exists.
pub fn next_page(page: u64, has_more: bool) -> (r: Option<u64>)
    requires
        page < u64::MAX,
    ensures
        r == if has_more {
            Some((page + 1) as u64)
        } else {
            None::<u64>
        },
{
    if has_more {
        Some(page + 1)
    } else {
        None
    }
}

} // verus!
