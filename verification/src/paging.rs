use vstd::prelude::*;

verus! {

/// Largest magnitude of an integer that a `f64` holds exactly (2^53).
pub open spec fn exact_float_bound() -> int {
    0x20_0000_0000_0000
}

/// `count / divisor` rounded up.
pub open spec fn ceil_div(count: int, divisor: int) -> int {
    -((-count) / divisor)
}

/// `count / divisor` rounded up, as the handlers compute it through `f64`
/// (`(count as f64 / divisor).ceil() as i64`); `requires` keeps `count` where
/// that computation is exact.
pub fn ceil_div_i64(count: i64, divisor: i64) -> (r: i64)
    requires
        0 < divisor <= 1024,
        -exact_float_bound() <= count <= exact_float_bound(),
    ensures
        r == ceil_div(count as int, divisor as int),
{
    if count >= 0 {
        let q = count / divisor;
        let m = count % divisor;
        assert(count == divisor * q + m && 0 <= m < divisor) by (nonlinear_arith)
            requires count >= 0, divisor > 0, q == count / divisor, m == count % divisor;
        assert(ceil_div(count as int, divisor as int) == if m == 0 { q as int } else { q + 1 }) by (nonlinear_arith)
            requires count == divisor * q + m, 0 <= m < divisor, divisor > 0;
        if m == 0 { q } else { q + 1 }
    } else {
        let neg = -count;
        let q = neg / divisor;
        assert(ceil_div(count as int, divisor as int) == -(q as int)) by (nonlinear_arith)
            requires neg == -count, q == neg / divisor, divisor > 0, neg > 0;
        -q
    }
}

/// Pages of ten in a listing, from the count carried by its first row: ten
/// items when the row carries no count, one page when there is no row.
pub fn listing_total_pages(first_row_count: Option<Option<i64>>) -> (r: i64)
    requires
        first_row_count matches Some(Some(c)) ==> -exact_float_bound() <= c <= exact_float_bound(),
    ensures
        r == match first_row_count {
            None => 1,
            Some(None) => 1,
            Some(Some(c)) => ceil_div(c as int, 10),
        },
{
    match first_row_count {
        None => 1,
        Some(None) => ceil_div_i64(10, 10),
        Some(Some(c)) => ceil_div_i64(c, 10),
    }
}

/// Pages of ten over a number of results.
pub fn result_pages(len: usize) -> (r: i64)
    requires
        len <= exact_float_bound(),
    ensures
        r == ceil_div(len as int, 10),
{
    ceil_div_i64(len as i64, 10)
}

/// Size recorded for an uploaded file: its bytes divided by 1024, rounded up.
pub fn uploaded_file_size(len: usize) -> (r: i64)
    requires
        len <= exact_float_bound(),
    ensures
        r == ceil_div(len as int, 1024),
{
    ceil_div_i64(len as i64, 1024)
}

} // verus!
