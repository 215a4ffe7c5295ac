use vstd::prelude::*;
use vstd::string::*;
use crate::text::{append_int, int_text};
use crate::transaction::Transaction;

verus! {

/// One page of the upstream feed: its transactions and the cursor to the next page.
pub struct ApiResponse {
    pub txns: Vec<Transaction>,
    pub cursor: Option<String>,
}

/// What the library needs of the upstream feed's client: where it is and the key it sends.
pub struct ApiClient {
    pub base_url: String,
    pub api_key: String,
}

/// The feed's address.
pub open spec fn feed_base_url() -> Seq<char> {
    "https://api.nearblocks.io/"@
}

/// The query of one page: page size, order and page number, with defaults 25, `asc` and 1.
pub open spec fn pagination_query(limit: Option<i32>, order: Option<Seq<char>>, page: Option<i32>) -> Seq<
    char,
> {
    "?per_page="@ + int_text(
        match limit {
            Some(l) => l as int,
            None => 25,
        },
    ) + "&order="@ + match order {
        Some(o) => o,
        None => "asc"@,
    } + "&page="@ + int_text(
        match page {
            Some(p) => p as int,
            None => 1,
        },
    )
}

/// The position part of a query: the cursor where there is one, else the block
/// after which to start (zero by default).
pub open spec fn position_query(base: Seq<char>, cursor: Seq<char>, after_block: Option<i64>) -> Seq<
    char,
> {
    if cursor.len() == 0 {
        base + "&after_block="@ + int_text(
            match after_block {
                Some(b) => b as int,
                None => 0,
            },
        )
    } else {
        base + "&cursor="@ + cursor
    }
}

impl ApiClient {
    /// A client of the public feed with the given key.
    pub fn new(api_key: String) -> (c: ApiClient)
        ensures
            c.base_url@ == feed_base_url(),
            c.api_key@ == api_key@,
    {
        ApiClient { base_url: String::from_str("https://api.nearblocks.io/"), api_key }
    }

    /// The query of one page.
    pub fn build_pagination_params(&self, limit: Option<i32>, order: Option<String>, page: Option<i32>) -> (r:
        String)
        ensures
            r@ == pagination_query(
                limit,
                match order {
                    Some(o) => Some(o@),
                    None => None,
                },
                page,
            ),
    {
        let mut r = String::from_str("?per_page=");
        append_int(
            &mut r,
            match limit {
                Some(l) => l as i64,
                None => 25,
            },
        );
        r.append("&order=");
        match &order {
            Some(o) => r.append(o.as_str()),
            None => r.append("asc"),
        }
        r.append("&page=");
        append_int(
            &mut r,
            match page {
                Some(p) => p as i64,
                None => 1,
            },
        );
        r
    }

    /// Add the position to a page query: the cursor when there is one, else `after_block`.
    pub fn add_cursor_param(&self, base_params: String, cursor: String, after_block: Option<i64>) -> (r:
        String)
        ensures
            r@ == position_query(base_params@, cursor@, after_block),
    {
        let mut r = base_params;
        if cursor.unicode_len() == 0 {
            r.append("&after_block=");
            append_int(
                &mut r,
                match after_block {
                    Some(b) => b,
                    None => 0,
                },
            );
        } else {
            r.append("&cursor=");
            r.append(cursor.as_str());
        }
        r
    }

    /// The address of one page of an account's transactions.
    pub fn account_txns_url(
        &self,
        account_id: &str,
        cursor: String,
        limit: Option<i32>,
        order: Option<String>,
        page: Option<i32>,
        after_block: Option<i64>,
    ) -> (r: String)
        ensures
            r@ == self.base_url@ + "v1/account/"@ + account_id@ + "/txns"@ + position_query(
                pagination_query(
                    limit,
                    match order {
                        Some(o) => Some(o@),
                        None => None,
                    },
                    page,
                ),
                cursor@,
                after_block,
            ),
    {
        let base_params = self.build_pagination_params(limit, order, page);
        let query = self.add_cursor_param(base_params, cursor, after_block);
        let mut r = self.base_url.clone();
        r.append("v1/account/");
        r.append(account_id);
        r.append("/txns");
        r.append(query.as_str());
        r
    }

    /// The value of the authorization header.
    pub fn authorization(&self) -> (r: String)
        ensures
            r@ == "Bearer "@ + self.api_key@,
    {
        let mut r = String::from_str("Bearer ");
        r.append(self.api_key.as_str());
        r
    }
}

impl Default for ApiClient {
    fn default() -> (c: ApiClient)
        ensures
            c.base_url@ == feed_base_url(),
            c.api_key@ == Seq::<char>::empty(),
    {
        ApiClient { base_url: String::from_str("https://api.nearblocks.io/"), api_key: String::new() }
    }
}

/// Page size of a sync pass.
pub const PAGE_SIZE: i32 = 25;

/// Progress of fetching everything new from the feed: the transactions so far,
/// oldest first, the cursor to the next page, and whether the feed is done.
pub struct FeedFetch {
    pub transactions: Vec<Transaction>,
    pub cursor: String,
    pub finished: bool,
}

impl FeedFetch {
    /// Start from a cold position: no cursor, so the first page is bounded by block.
    pub fn start() -> (f: FeedFetch)
        ensures
            f.transactions@.len() == 0,
            f.cursor@.len() == 0,
            !f.finished,
    {
        FeedFetch { transactions: Vec::new(), cursor: String::new(), finished: false }
    }

    /// The address of the next page: ascending, `PAGE_SIZE` per page, page 1,
    /// positioned by the cursor once there is one, else after `after_block`.
    pub fn next_url(&self, client: &ApiClient, account_id: &str, after_block: Option<i64>) -> (r:
        String)
        ensures
            r@ == client.base_url@ + "v1/account/"@ + account_id@ + "/txns"@ + position_query(
                pagination_query(Some(PAGE_SIZE), Some("asc"@), Some(1)),
                self.cursor@,
                after_block,
            ),
    {
        client.account_txns_url(
            account_id,
            self.cursor.clone(),
            Some(PAGE_SIZE),
            Some(String::from_str("asc")),
            Some(1),
            after_block,
        )
    }

    /// Take in the outcome of one page fetch. A failed fetch ends the walk with
    /// what was gathered; a page is appended, and the walk ends when the page
    /// carries no cursor or an empty one, else moves to that cursor.
    pub fn on_page(&mut self, page: Option<ApiResponse>)
        requires
            !old(self).finished,
        ensures
            match page {
                None => final(self).finished && final(self).transactions@ == old(self).transactions@
                    && final(self).cursor@ == old(self).cursor@,
                Some(p) => {
                    &&& final(self).transactions@ == old(self).transactions@ + p.txns@
                    &&& match p.cursor {
                        Some(c) => if c@.len() > 0 {
                            !final(self).finished && final(self).cursor@ == c@
                        } else {
                            final(self).finished && final(self).cursor@.len() == 0
                        },
                        None => final(self).finished && final(self).cursor@.len() == 0,
                    }
                },
            },
    {
        match page {
            None => {
                self.finished = true;
            },
            Some(p) => {
                let ApiResponse { txns, cursor } = p;
                let mut txns = txns;
                self.transactions.append(&mut txns);
                match cursor {
                    Some(c) => {
                        if c.unicode_len() > 0 {
                            self.cursor = c;
                        } else {
                            self.cursor = String::new();
                            self.finished = true;
                        }
                    },
                    None => {
                        self.cursor = String::new();
                        self.finished = true;
                    },
                }
            },
        }
    }
}

} // verus!
