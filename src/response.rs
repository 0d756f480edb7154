//! Errors of the services and the response envelope handed to callers.
use vstd::prelude::*;
use crate::models::OrderStatus;

verus! {

/// What a service can fail with.
#[derive(Debug, Clone, Copy, PartialEq, Eq, Structural)]
pub enum AppError {
    /// The identifier does not resolve to a record.
    NotFound,
    /// The input is malformed, such as a negative movement quantity.
    ValidationError,
    /// The state machine refused the move from `from` to `to`.
    InvalidStateTransition { from: OrderStatus, to: OrderStatus },
    /// The storage collaborator failed.
    StorageFailure,
}

pub open spec fn error_code(e: AppError) -> Seq<char> {
    match e {
        AppError::NotFound => "NOT_FOUND"@,
        AppError::ValidationError => "BAD_REQUEST"@,
        AppError::InvalidStateTransition { .. } => "INVALID_STATE_TRANSITION"@,
        AppError::StorageFailure => "DATABASE_ERROR"@,
    }
}

impl AppError {
    /// The machine-readable code reported to callers for this error.
    pub fn code(&self) -> (r: &'static str)
        ensures
            r@ == error_code(*self),
    {
        match self {
            AppError::NotFound => "NOT_FOUND",
            AppError::ValidationError => "BAD_REQUEST",
            AppError::InvalidStateTransition { .. } => "INVALID_STATE_TRANSITION",
            AppError::StorageFailure => "DATABASE_ERROR",
        }
    }
}

/// The envelope of every answer: either data or an error.
#[derive(Debug)]
pub struct ApiResponse<T> {
    pub data: Option<T>,
    pub error: Option<ApiError>,
}

/// An error as reported to callers.
#[derive(Debug, Clone)]
pub struct ApiError {
    pub code: String,
    pub message: String,
    pub details: Option<String>,
}

impl<T> ApiResponse<T> {
    /// An answer carrying `data`.
    pub fn success(data: T) -> (r: Self)
        ensures
            r.data == Some(data),
            r.error is None,
    {
        ApiResponse { data: Some(data), error: None }
    }

    /// An error answer with a code and a message.
    pub fn error(code: String, message: String) -> (r: Self)
        ensures
            r.data is None,
            r.error == Some(ApiError { code, message, details: None }),
    {
        ApiResponse { data: None, error: Some(ApiError { code, message, details: None }) }
    }

    /// An error answer with a code, a message and details.
    pub fn error_with_details(code: String, message: String, details: String) -> (r: Self)
        ensures
            r.data is None,
            r.error == Some(ApiError { code, message, details: Some(details) }),
    {
        ApiResponse { data: None, error: Some(ApiError { code, message, details: Some(details) }) }
    }
}

/// Which page of a listing is asked for.
#[derive(Debug, Clone, Copy, PartialEq, Eq, Structural)]
pub struct PaginationParams {
    pub page: u64,
    pub per_page: u64,
}

/// The page asked for when none is given.
pub fn default_page() -> (r: u64)
    ensures
        r == 1,
{
    1
}

/// The page size used when none is given.
pub fn default_per_page() -> (r: u64)
    ensures
        r == 50,
{
    50
}

/// Number of pages of `per_page` rows that `total` rows fill.
pub open spec fn page_count(total: int, per_page: int) -> int {
    (total + per_page - 1) / per_page
}

/// One page of a listing.
#[derive(Debug)]
pub struct PaginatedResponse<T> {
    pub items: Vec<T>,
    pub total: u64,
    pub page: u64,
    pub per_page: u64,
    pub total_pages: u64,
}

impl<T> PaginatedResponse<T> {
    /// A page of `items` out of `total` rows, with the number of pages.
    pub fn new(items: Vec<T>, total: u64, page: u64, per_page: u64) -> (r: Self)
        requires
            per_page > 0,
        ensures
            r.items == items,
            r.total == total,
            r.page == page,
            r.per_page == per_page,
            r.total_pages == page_count(total as int, per_page as int),
    {
        let whole = total / per_page;
        let total_pages = if total % per_page == 0 {
            whole
        } else {
            proof {
                let (t, p) = (total as int, per_page as int);
                assert(t == p * (t / p) + t % p) by (nonlinear_arith) requires p > 0;
                assert(t / p < 0xffff_ffff_ffff_ffff) by (nonlinear_arith)
                    requires p > 1, 0 <= t <= 0xffff_ffff_ffff_ffff, t == p * (t / p) + t % p, 0 <= t % p;
            }
            whole + 1
        };
        proof {
            let (t, p) = (total as int, per_page as int);
            assert(t == p * (t / p) + t % p) by (nonlinear_arith) requires p > 0;
            if t % p == 0 {
                assert((t + p - 1) / p == t / p) by (nonlinear_arith)
                    requires p > 0, t % p == 0, t == p * (t / p) + t % p;
            } else {
                assert((t + p - 1) / p == t / p + 1) by (nonlinear_arith)
                    requires p > 0, 0 < t % p < p, t == p * (t / p) + t % p;
            }
        }
        PaginatedResponse { items, total, page, per_page, total_pages }
    }
}

} // verus!
