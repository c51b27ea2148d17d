//! Query options without a filter, and their decoding.
use vstd::prelude::*;
use vstd::string::*;
use crate::collection::{
    as_count, decode_order_item, list_items, or_empty, order_item, order_items, order_view,
    split_list, texts_view,
};

verus! {

/// The query options of a request as they arrive.
#[derive(Debug)]
pub struct QueryParams {
    pub select: Option<String>,
    pub order_by: Option<String>,
    pub skip: Option<u64>,
    pub top: Option<u64>,
}

/// The decoded query options.
#[derive(Debug)]
pub struct QueryParamsDecoded {
    pub select: Vec<String>,
    /// Tuples (column, ascending)
    pub order_by: Vec<(String, bool)>,
    pub skip: Option<usize>,
    pub top: Option<usize>,
}

impl QueryParams {
    /// Decodes the options. `$select` and `$orderby` are comma-separated
    /// lists whose empty items are dropped; a sort key without a direction
    /// is ascending.
    pub fn decode(self) -> (r: QueryParamsDecoded)
        ensures
            texts_view(r.select@) == list_items(or_empty(self.select)),
            order_view(r.order_by@) == order_items(list_items(or_empty(self.order_by))),
            r.skip == as_count(self.skip),
            r.top == as_count(self.top),
    {
        let select = match &self.select {
            Some(s) => split_list(s.as_str()),
            None => split_list(""),
        };
        let order_by_s = match &self.order_by {
            Some(s) => split_list(s.as_str()),
            None => split_list(""),
        };
        proof {
            reveal_strlit("");
            assert(""@ =~= Seq::<char>::empty());
        }
        let mut order_by: Vec<(String, bool)> = Vec::new();
        let mut i: usize = 0;
        while i < order_by_s.len()
            invariant
                i <= order_by_s@.len(),
                order_by@.len() == i,
                forall|k: int|
                    0 <= k < i ==> (#[trigger] order_by@[k].0@, order_by@[k].1) == order_item(
                        order_by_s@[k]@,
                    ),
            decreases order_by_s@.len() - i,
        {
            let item = decode_order_item(order_by_s[i].as_str());
            order_by.push(item);
            i = i + 1;
        }
        assert(order_view(order_by@) =~= order_items(texts_view(order_by_s@)));

        let skip: Option<usize> = match self.skip {
            Some(v) => Some(#[verifier::truncate] (v as usize)),
            None => None,
        };
        let top: Option<usize> = match self.top {
            Some(v) => Some(#[verifier::truncate] (v as usize)),
            None => None,
        };

        QueryParamsDecoded { select, order_by, skip, top }
    }
}

} // verus!
