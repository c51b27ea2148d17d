//! The query options of a request as they arrive.
use vstd::prelude::*;

verus! {

/// The query options `$select`, `$orderby`, `$skip` and `$top`, undecoded.
#[derive(Debug)]
pub struct ODataQuery {
    pub select: Option<String>,
    pub order_by: Option<String>,
    pub skip: Option<u64>,
    pub top: Option<u64>,
}

} // verus!
