use vstd::prelude::*;


verus! {

/// Query parameters of the paged listing of all proxies.
#[derive(Debug)]
pub struct PaginationParams {
    pub page: Option<i64>,
    pub per_page: Option<i64>,
}

/// Query parameters of the endpoints that return a bounded number of proxies.
#[derive(Debug)]
pub struct TopParams {
    pub limit: Option<i64>,
}

/// The most proxies that one request may ask for.
pub const MAX_LIMIT: i64 = 100;

/// `requested`, or `default` when absent, cut down to `MAX_LIMIT`.
pub open spec fn capped(requested: Option<i64>, default: i64) -> i64 {
    let n = match requested {
        Some(n) => n,
        None => default,
    };
    if n < MAX_LIMIT {
        n
    } else {
        MAX_LIMIT
    }
}

fn cap_limit(requested: Option<i64>, default: i64) -> (res: i64)
    ensures
        res == capped(requested, default),
{
    let n = match requested {
        Some(n) => n,
        None => default,
    };
    if n < MAX_LIMIT {
        n
    } else {
        MAX_LIMIT
    }
}

impl TopParams {
    /// How many of the best proxies the "top" endpoint returns: ten unless a
    /// limit is given, never more than a hundred.
    pub fn top_limit(&self) -> (res: i64)
        ensures
            res == capped(self.limit, 10),
            self.limit is None ==> res == 10,
            forall|n: i64| self.limit == Some(n) && n < 100 ==> res == n,
            forall|n: i64| self.limit == Some(n) && n >= 100 ==> res == 100,
    {
        cap_limit(self.limit, 10)
    }

    /// How many proxies of a country the "country" endpoint returns: twenty
    /// unless a limit is given, never more than a hundred.
    pub fn country_limit(&self) -> (res: i64)
        ensures
            res == capped(self.limit, 20),
            self.limit is None ==> res == 20,
            forall|n: i64| self.limit == Some(n) && n < 100 ==> res == n,
            forall|n: i64| self.limit == Some(n) && n >= 100 ==> res == 100,
    {
        cap_limit(self.limit, 20)
    }
}

impl PaginationParams {
    /// The page asked for: the first unless given, and never before the first.
    pub fn page_number(&self) -> (res: i64)
        ensures
            res == (match self.page {
                Some(p) => if p > 1 { p } else { 1 },
                None => 1,
            }),
    {
        match self.page {
            Some(p) => if p > 1 {
                p
            } else {
                1
            },
            None => 1,
        }
    }

    /// Proxies per page: twenty unless given, never more than a hundred.
    pub fn page_size(&self) -> (res: i64)
        ensures
            res == capped(self.per_page, 20),
            self.per_page is None ==> res == 20,
            forall|n: i64| self.per_page == Some(n) && n < 100 ==> res == n,
            forall|n: i64| self.per_page == Some(n) && n >= 100 ==> res == 100,
    {
        cap_limit(self.per_page, 20)
    }
}

/// The body of every successful answer.
#[derive(Debug)]
pub struct ApiResponse<T> {
    pub success: bool,
    pub data: T,
}

impl<T> ApiResponse<T> {
    /// A successful answer carrying `data`.
    pub fn ok(data: T) -> (res: Self)
        ensures
            res.success,
            res.data == data,
    {
        ApiResponse { success: true, data }
    }
}

/// The body of every failed answer.
#[derive(Debug)]
pub struct ErrorResponse {
    pub success: bool,
    pub error: String,
}

impl ErrorResponse {
    /// A failed answer with the message `error`.
    pub fn from_message(error: String) -> (res: Self)
        ensures
            !res.success,
            res.error == error,
    {
        ErrorResponse { success: false, error }
    }
}

/// The answer of the health endpoint.
pub fn health_check() -> (res: ApiResponse<String>)
    ensures
        res.success,
        res.data@ == "Proxy Pulse is running"@,
{
    ApiResponse::ok("Proxy Pulse is running".to_owned())
}

/// No request is answered with more than `MAX_LIMIT` proxies, whatever limit
/// it asks for, and every page number used is at least one.
pub proof fn law_requests_are_bounded(limit: Option<i64>, default: i64, page: Option<i64>)
    ensures
        capped(limit, default) <= MAX_LIMIT,
        (match page {
            Some(p) => if p > 1 { p } else { 1 },
            None => 1,
        }) >= 1,
{
}

/// The number of proxies a request gets is the smaller of what it asks for
/// (or the default when it asks for nothing) and a hundred: a request below
/// the cap gets exactly what it asked for, one at or above it gets a hundred.
pub proof fn law_limit_is_smaller_of_request_and_cap(requested: Option<i64>, default: i64)
    ensures
        MAX_LIMIT == 100,
        requested is None && default < 100 ==> capped(requested, default) == default,
        forall|n: i64| requested == Some(n) && n < 100 ==> capped(requested, default) == n,
        forall|n: i64| requested == Some(n) && n >= 100 ==> capped(requested, default) == 100,
        capped(requested, default) <= 100,
{
}

} // verus!
