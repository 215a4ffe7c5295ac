use vstd::prelude::*;

verus! {

/// A page of records with its position in the whole result.
pub struct PaginatedResponse<T> {
    pub records: Vec<T>,
    pub page: u64,
    pub total_pages: u64,
    pub limit: u64,
    pub total_records: u64,
}

impl<T> PaginatedResponse<T> {
    /// A page of `records`; the page count rounds `total_records / limit` up.
    pub fn new(records: Vec<T>, page: u64, limit: u64, total_records: u64) -> (r: Self)
        requires
            limit > 0,
        ensures
            r.records == records,
            r.page == page,
            r.limit == limit,
            r.total_records == total_records,
            r.total_pages == (total_records as int + limit as int - 1) / (limit as int),
    {
        let extra_page: u64 = if total_records % limit == 0 {
            0
        } else {
            1
        };
        proof {
            if extra_page == 1 {
                assert(limit >= 2);
                assert(total_records / limit <= total_records / 2) by (nonlinear_arith)
                    requires
                        limit >= 2,
                ;
            }
        }
        let total_pages = total_records / limit + extra_page;
        proof {
            let q = total_records as int / limit as int;
            let m = total_records as int % limit as int;
            assert(total_records as int == q * limit as int + m) by (nonlinear_arith)
                requires
                    limit > 0,
                    q == total_records as int / limit as int,
                    m == total_records as int % limit as int,
            ;
            if m == 0 {
                assert((q * limit as int + limit as int - 1) / (limit as int) == q) by (
                nonlinear_arith)
                    requires
                        limit > 0,
                ;
            } else {
                assert((q * limit as int + m + limit as int - 1) / (limit as int) == q + 1) by (
                nonlinear_arith)
                    requires
                        limit > 0,
                        0 < m < limit,
                ;
            }
        }
        PaginatedResponse { records, page, total_pages, limit, total_records }
    }
}

/// The text of the root page.
pub fn index() -> (r: &'static str)
    ensures
        r@ == "Welcome from fly.io!!!!!"@,
{
    "Welcome from fly.io!!!!!"
}

/// The crawler policy: nothing is to be crawled.
pub fn robots() -> (r: &'static str)
    ensures
        r@ == "User-agent: *\nDisallow: /"@,
{
    "User-agent: *\nDisallow: /"
}

/// The body of a 422 response.
pub fn unprocessable_entity() -> (r: &'static str)
    ensures
        r@ == "Custom 422 Error: Unprocessable Entity"@,
{
    "Custom 422 Error: Unprocessable Entity"
}

/// The body of a 500 response.
pub fn internal_server_error() -> (r: &'static str)
    ensures
        r@ == "Custom 500 Error: Internal Server Error"@,
{
    "Custom 500 Error: Internal Server Error"
}

/// The body of a 404 response.
pub fn not_found() -> (r: &'static str)
    ensures
        r@ == "Custom 404 Error: Not Found"@,
{
    "Custom 404 Error: Not Found"
}

/// The body of a 400 response.
pub fn bad_request() -> (r: &'static str)
    ensures
        r@ == "Custom 400 Error: Bad Request"@,
{
    "Custom 400 Error: Bad Request"
}

} // verus!
