//! Collection addresses, query options, and the plan that a decoded query
//! lays over a table.
use vstd::prelude::*;
use vstd::string::*;
use crate::error::{ErrorKind, ODataError};
use crate::filter::{
    decode_filter, filter_of, lemma_rejected_filter_is_a_parsing_error, parsed_filter, ExprView,
    Expression,
};
use crate::text::{chars_of, ends_with, same_text, text_of};

verus! {

/// The decoded path segment of a request: a collection, and the key of one of
/// its entities where the segment names one. The key is kept as written.
#[derive(Debug, Clone, PartialEq, Eq)]
pub struct CollectionAddr {
    pub name: String,
    pub key: Option<String>,
}

/// An address, with its texts as character sequences.
pub struct AddrView {
    pub name: Seq<char>,
    pub key: Option<Seq<char>>,
}

/// An optional text as an optional character sequence.
pub open spec fn option_text(s: Option<String>) -> Option<Seq<char>> {
    match s {
        Some(t) => Some(t@),
        None => None,
    }
}

impl View for CollectionAddr {
    type V = AddrView;

    open spec fn view(&self) -> AddrView {
        AddrView { name: self.name@, key: option_text(self.key) }
    }
}

/// The characters a collection name is made of: letters, digits, `.`, `_`
/// and `-`.
pub open spec fn is_name_char(c: char) -> bool {
    ('A' <= c && c <= 'Z') || ('a' <= c && c <= 'z') || ('0' <= c && c <= '9') || c == '.' || c
        == '_' || c == '-'
}

/// A name is one or more name characters.
pub open spec fn valid_name(s: Seq<char>) -> bool {
    s.len() > 0 && forall|i: int| 0 <= i < s.len() ==> is_name_char(#[trigger] s[i])
}

/// A key is one or more characters other than `)`.
pub open spec fn valid_key(s: Seq<char>) -> bool {
    s.len() > 0 && forall|i: int| 0 <= i < s.len() ==> #[trigger] s[i] != ')'
}

impl AddrView {
    /// Whether the name and the key, if there is one, are well formed.
    pub open spec fn valid(self) -> bool {
        valid_name(self.name) && (self.key matches Some(k) ==> valid_key(k))
    }

    /// The path segment that denotes the address: `name` or `name(key)`.
    pub open spec fn text(self) -> Seq<char> {
        match self.key {
            None => self.name,
            Some(k) => self.name + seq!['('] + k + seq![')'],
        }
    }
}

/// The number of name characters that a text begins with.
pub open spec fn name_prefix_len(s: Seq<char>) -> nat
    decreases s.len(),
{
    if s.len() > 0 && is_name_char(s[0]) {
        1 + name_prefix_len(s.drop_first())
    } else {
        0
    }
}

/// The address that a path segment denotes, if it denotes one.
pub open spec fn decoded(s: Seq<char>) -> Option<AddrView> {
    let n = name_prefix_len(s) as int;
    if n == 0 {
        None
    } else if n == s.len() {
        Some(AddrView { name: s, key: None })
    } else if s[n] == '(' && s.last() == ')' && valid_key(s.subrange(n + 1, s.len() - 1)) {
        Some(AddrView { name: s.subrange(0, n), key: Some(s.subrange(n + 1, s.len() - 1)) })
    } else {
        None
    }
}

proof fn lemma_name_prefix_len(s: Seq<char>, n: int)
    requires
        0 <= n <= s.len(),
        forall|i: int| 0 <= i < n ==> is_name_char(#[trigger] s[i]),
        n == s.len() || !is_name_char(s[n]),
    ensures
        name_prefix_len(s) == n,
    decreases n,
{
    if n > 0 {
        let t = s.drop_first();
        assert forall|i: int| 0 <= i < n - 1 implies is_name_char(#[trigger] t[i]) by {
            assert(t[i] == s[i + 1]);
        }
        lemma_name_prefix_len(t, n - 1);
    }
}

proof fn lemma_name_prefix_bounds(s: Seq<char>)
    ensures
        name_prefix_len(s) <= s.len(),
        forall|i: int| 0 <= i < name_prefix_len(s) ==> is_name_char(#[trigger] s[i]),
        name_prefix_len(s) < s.len() ==> !is_name_char(s[name_prefix_len(s) as int]),
    decreases s.len(),
{
    if s.len() > 0 && is_name_char(s[0]) {
        let t = s.drop_first();
        lemma_name_prefix_bounds(t);
        assert forall|i: int| 0 <= i < name_prefix_len(s) implies is_name_char(
            #[trigger] s[i],
        ) by {
            if i > 0 {
                assert(s[i] == t[i - 1]);
            }
        }
        if name_prefix_len(s) < s.len() {
            assert(s[name_prefix_len(s) as int] == t[name_prefix_len(t) as int]);
        }
    }
}

/// Decoding the segment that denotes a well-formed address gives that address
/// back: `name` gives the name without a key, `name(key)` gives both.
pub proof fn lemma_decode_round_trip(a: AddrView)
    requires
        a.valid(),
    ensures
        decoded(a.text()) == Some(a),
{
    let s = a.text();
    let n = a.name.len() as int;
    match a.key {
        None => {
            lemma_name_prefix_len(s, n);
        },
        Some(k) => {
            assert forall|i: int| 0 <= i < n implies is_name_char(#[trigger] s[i]) by {
                assert(s[i] == a.name[i]);
            }
            assert(s[n] == '(');
            lemma_name_prefix_len(s, n);
            assert(s.subrange(0, n) =~= a.name);
            assert(s.subrange(n + 1, s.len() - 1) =~= k);
            assert(s.last() == ')');
        },
    }
}

/// A segment is decoded only where it denotes a well-formed address, and then
/// to that address: a segment that matches no `name` and no `name(key)`
/// decodes to nothing.
pub proof fn lemma_decode_matches(s: Seq<char>)
    ensures
        match decoded(s) {
            Some(a) => a.valid() && a.text() == s,
            None => forall|a: AddrView| a.valid() ==> a.text() != s,
        },
{
    lemma_name_prefix_bounds(s);
    match decoded(s) {
        Some(a) => {
            let n = name_prefix_len(s) as int;
            if n < s.len() {
                assert(a.text() =~= s);
            }
        },
        None => {
            assert forall|a: AddrView| a.valid() implies a.text() != s by {
                if a.text() == s {
                    lemma_decode_round_trip(a);
                }
            }
        },
    }
}

fn name_char(c: char) -> (r: bool)
    ensures
        r == is_name_char(c),
{
    ('A' <= c && c <= 'Z') || ('a' <= c && c <= 'z') || ('0' <= c && c <= '9') || c == '.' || c
        == '_' || c == '-'
}

impl CollectionAddr {
    /// Decodes a path segment of the form `name` or `name(key)`.
    pub fn decode(collection_path_element: &str) -> (r: Option<CollectionAddr>)
        ensures
            match r {
                Some(a) => decoded(collection_path_element@) == Some(a@),
                None => decoded(collection_path_element@) is None,
            },
    {
        let s = collection_path_element;
        let chars = chars_of(s);
        let len: usize = chars.len();
        let mut n: usize = 0;
        while n < len && name_char(chars[n])
            invariant
                chars@ == s@,
                len == s@.len(),
                n <= len,
                forall|i: int| 0 <= i < n ==> is_name_char(#[trigger] s@[i]),
            decreases len - n,
        {
            n = n + 1;
        }
        proof {
            lemma_name_prefix_len(s@, n as int);
        }
        if n == 0 {
            return None;
        }
        if n == len {
            return Some(CollectionAddr { name: s.to_owned(), key: None });
        }
        if chars[n] != '(' || chars[len - 1] != ')' || len - n < 3 {
            return None;
        }
        let mut i: usize = n + 1;
        while i < len - 1
            invariant
                chars@ == s@,
                len == s@.len(),
                n + 1 <= i <= len - 1,
                0 < n,
                s@ == collection_path_element@,
                name_prefix_len(s@) == n,
                forall|k: int| n + 1 <= k < i ==> s@[k] != ')',
            decreases len - i,
        {
            if chars[i] == ')' {
                proof {
                    let key = s@.subrange(n + 1, len - 1);
                    assert(key[i - n - 1] == ')');
                    assert(!valid_key(key));
                }
                return None;
            }
            i = i + 1;
        }
        let name = text_of(&chars, 0, n);
        let key = text_of(&chars, n + 1, len - 1);
        Some(CollectionAddr { name, key: Some(key) })
    }
}

/// The query options of a request as they arrive.
#[derive(Debug)]
pub struct QueryParamsRaw {
    pub select: Option<String>,
    pub order_by: Option<String>,
    pub skip: Option<u64>,
    pub top: Option<u64>,
    pub filter: Option<String>,
}

/// The decoded query options.
#[derive(Debug)]
pub struct QueryParams {
    /// Column names
    pub select: Vec<String>,
    /// Tuples (column_name, ascending)
    pub order_by: Vec<(String, bool)>,
    /// Number of records to skip
    pub skip: Option<usize>,
    /// Maximum number of records to return
    pub top: Option<usize>,
    /// Filter a collection of resources
    pub filter: Option<Expression>,
}

/// Decoded query options, with their texts as character sequences.
pub struct QueryView {
    pub select: Seq<Seq<char>>,
    pub order_by: Seq<(Seq<char>, bool)>,
    pub skip: Option<usize>,
    pub top: Option<usize>,
    pub filter: Option<ExprView>,
}

/// A list of texts as character sequences.
pub open spec fn texts_view(v: Seq<String>) -> Seq<Seq<char>> {
    Seq::new(v.len(), |i: int| v[i]@)
}

/// A list of sort keys, with their columns as character sequences.
pub open spec fn order_view(v: Seq<(String, bool)>) -> Seq<(Seq<char>, bool)> {
    Seq::new(v.len(), |i: int| (v[i].0@, v[i].1))
}

/// An optional filter, with its texts as character sequences.
pub open spec fn option_expr(e: Option<Expression>) -> Option<ExprView> {
    match e {
        Some(x) => Some(x@),
        None => None,
    }
}

impl View for QueryParams {
    type V = QueryView;

    open spec fn view(&self) -> QueryView {
        QueryView {
            select: texts_view(self.select@),
            order_by: order_view(self.order_by@),
            skip: self.skip,
            top: self.top,
            filter: option_expr(self.filter),
        }
    }
}

/// The non-empty items of a comma-separated list, read from `pos` on, with
/// the current item beginning at `start`.
pub open spec fn items_from(s: Seq<char>, start: int, pos: int) -> Seq<Seq<char>>
    decreases s.len() - pos,
{
    if pos >= s.len() {
        if start < s.len() {
            seq![s.subrange(start, s.len() as int)]
        } else {
            Seq::empty()
        }
    } else if s[pos] == ',' {
        if start < pos {
            seq![s.subrange(start, pos)] + items_from(s, pos + 1, pos + 1)
        } else {
            items_from(s, pos + 1, pos + 1)
        }
    } else {
        items_from(s, start, pos + 1)
    }
}

/// The items of a comma-separated list, in order, without the empty ones.
pub open spec fn list_items(s: Seq<char>) -> Seq<Seq<char>> {
    items_from(s, 0, 0)
}

/// A non-empty text without a comma.
pub open spec fn plain_item(a: Seq<char>) -> bool {
    a.len() > 0 && forall|i: int| 0 <= i < a.len() ==> #[trigger] a[i] != ','
}

proof fn lemma_items_of_plain(a: Seq<char>, start: int, pos: int)
    requires
        0 <= start <= pos <= a.len(),
        forall|i: int| pos <= i < a.len() ==> #[trigger] a[i] != ',',
    ensures
        items_from(a, start, pos) == if start < a.len() {
            seq![a.subrange(start, a.len() as int)]
        } else {
            Seq::<Seq<char>>::empty()
        },
    decreases a.len() - pos,
{
    if pos < a.len() {
        lemma_items_of_plain(a, start, pos + 1);
    }
}

proof fn lemma_items_shift(s: Seq<char>, k: int, start: int, pos: int)
    requires
        0 <= k,
        0 <= start <= pos <= s.len() - k,
    ensures
        items_from(s, k + start, k + pos) == items_from(
            s.subrange(k, s.len() as int),
            start,
            pos,
        ),
    decreases s.len() - k - pos,
{
    let t = s.subrange(k, s.len() as int);
    if pos >= t.len() {
        if start < t.len() {
            assert(s.subrange(k + start, s.len() as int) =~= t.subrange(start, t.len() as int));
        }
    } else if s[k + pos] == ',' {
        lemma_items_shift(s, k, pos + 1, pos + 1);
        if start < pos {
            assert(s.subrange(k + start, k + pos) =~= t.subrange(start, pos));
        }
    } else {
        lemma_items_shift(s, k, start, pos + 1);
    }
}

proof fn lemma_items_joined(x: Seq<char>, y: Seq<char>, start: int, pos: int)
    requires
        0 <= start <= pos <= x.len(),
    ensures
        items_from(x + seq![','] + y, start, pos) == items_from(x, start, pos) + list_items(y),
    decreases x.len() - pos,
{
    let s = x + seq![','] + y;
    if pos == x.len() {
        assert(s[pos] == ',');
        lemma_items_shift(s, pos + 1, 0, 0);
        assert(s.subrange(pos + 1, s.len() as int) =~= y);
        if start < pos {
            assert(s.subrange(start, pos) =~= x.subrange(start, x.len() as int));
        } else {
            assert(Seq::<Seq<char>>::empty() + list_items(y) =~= list_items(y));
        }
    } else {
        assert(s[pos] == x[pos]);
        if x[pos] == ',' {
            lemma_items_joined(x, y, pos + 1, pos + 1);
            if start < pos {
                assert(s.subrange(start, pos) =~= x.subrange(start, pos));
                assert(seq![x.subrange(start, pos)] + (items_from(x, pos + 1, pos + 1)
                    + list_items(y)) =~= (seq![x.subrange(start, pos)] + items_from(
                    x,
                    pos + 1,
                    pos + 1,
                )) + list_items(y));
            }
        } else {
            lemma_items_joined(x, y, start, pos + 1);
        }
    }
}

/// A list is read item by item: the empty text holds no item, a text
/// without a comma is one item if it is not empty, and a comma joins the
/// items on its left to those on its right.
pub proof fn lemma_list_items(a: Seq<char>, x: Seq<char>, y: Seq<char>)
    requires
        plain_item(a),
    ensures
        list_items(Seq::empty()) == Seq::<Seq<char>>::empty(),
        list_items(a) == seq![a],
        list_items(x + seq![','] + y) == list_items(x) + list_items(y),
{
    lemma_items_of_plain(a, 0, 0);
    assert(a.subrange(0, a.len() as int) =~= a);
    lemma_items_joined(x, y, 0, 0);
}

/// A sort key as written: the column, then ` asc` or ` desc` or nothing.
/// Without a direction the order is ascending.
pub open spec fn order_item(item: Seq<char>) -> (Seq<char>, bool) {
    if " asc"@.is_suffix_of(item) {
        (item.subrange(0, item.len() - " asc"@.len()), true)
    } else if " desc"@.is_suffix_of(item) {
        (item.subrange(0, item.len() - " desc"@.len()), false)
    } else {
        (item, true)
    }
}

/// The sort keys that a list of items denotes, item by item.
pub open spec fn order_items(items: Seq<Seq<char>>) -> Seq<(Seq<char>, bool)> {
    Seq::new(items.len(), |i: int| order_item(items[i]))
}

/// The text of an option, or the empty text where it was not given.
pub open spec fn or_empty(s: Option<String>) -> Seq<char> {
    match s {
        Some(t) => t@,
        None => Seq::empty(),
    }
}

/// A number of rows as the machine counts them.
pub open spec fn as_count(v: Option<u64>) -> Option<usize> {
    match v {
        Some(n) => Some(n as usize),
        None => None,
    }
}

/// Splits a comma-separated list into its non-empty items.
pub fn split_list(s: &str) -> (r: Vec<String>)
    ensures
        texts_view(r@) == list_items(s@),
{
    let chars = chars_of(s);
    let n: usize = chars.len();
    let mut out: Vec<String> = Vec::new();
    let mut start: usize = 0;
    let mut pos: usize = 0;
    assert(texts_view(out@) =~= Seq::<Seq<char>>::empty());
    assert(Seq::<Seq<char>>::empty() + items_from(s@, 0, 0) =~= list_items(s@));
    while pos < n
        invariant
            chars@ == s@,
            n == s@.len(),
            start <= pos <= n,
            texts_view(out@) + items_from(s@, start as int, pos as int) == list_items(s@),
        decreases n - pos,
    {
        if chars[pos] == ',' {
            if start < pos {
                let item = text_of(&chars, start, pos);
                let ghost before = out@;
                out.push(item);
                assert(texts_view(out@) =~= texts_view(before).push(
                    s@.subrange(start as int, pos as int),
                ));
                assert(texts_view(out@) + items_from(s@, pos + 1, pos + 1) =~= texts_view(before)
                    + (seq![s@.subrange(start as int, pos as int)] + items_from(
                    s@,
                    pos + 1,
                    pos + 1,
                )));
            }
            start = pos + 1;
        }
        pos = pos + 1;
    }
    if start < n {
        let item = text_of(&chars, start, n);
        let ghost before = out@;
        out.push(item);
        assert(texts_view(out@) =~= texts_view(before) + seq![
            s@.subrange(start as int, n as int),
        ]);
    } else {
        assert(texts_view(out@) + Seq::<Seq<char>>::empty() =~= texts_view(out@));
    }
    out
}

/// Reads one sort key.
pub fn decode_order_item(item: &str) -> (r: (String, bool))
    ensures
        (r.0@, r.1) == order_item(item@),
{
    let chars = chars_of(item);
    let n: usize = chars.len();
    proof {
        reveal_strlit(" asc");
        reveal_strlit(" desc");
    }
    if ends_with(item, " asc") {
        (text_of(&chars, 0, n - 4), true)
    } else if ends_with(item, " desc") {
        (text_of(&chars, 0, n - 5), false)
    } else {
        (item.to_owned(), true)
    }
}

impl QueryParamsRaw {
    /// What the options decode to, given what the filter decodes to.
    pub open spec fn decoded(&self) -> Result<QueryView, ErrorKind> {
        let filter = match self.filter {
            Some(text) => match filter_of(text@) {
                Ok(e) => Ok(Some(e)),
                Err(k) => Err(k),
            },
            None => Ok(None),
        };
        match filter {
            Err(k) => Err(k),
            Ok(f) => Ok(
                QueryView {
                    select: list_items(or_empty(self.select)),
                    order_by: order_items(list_items(or_empty(self.order_by))),
                    skip: as_count(self.skip),
                    top: as_count(self.top),
                    filter: f,
                },
            ),
        }
    }

    /// Decodes the options. `$select` and `$orderby` are comma-separated
    /// lists whose empty items are dropped; `$filter` is parsed and
    /// translated, and is the only option that can fail.
    pub fn decode(self) -> (r: Result<QueryParams, ODataError>)
        ensures
            match r {
                Ok(q) => self.decoded() == Ok::<QueryView, ErrorKind>(q@),
                Err(e) => self.decoded() == Err::<QueryView, ErrorKind>(e@),
            },
    {
        let select = match &self.select {
            Some(s) => split_list(s.as_str()),
            None => split_list(""),
        };
        let order_by_s = match &self.order_by {
            Some(s) => split_list(s.as_str()),
            None => split_list(""),
        };
        proof {
            reveal_strlit("");
            assert(""@ =~= Seq::<char>::empty());
        }
        let mut order_by: Vec<(String, bool)> = Vec::new();
        let mut i: usize = 0;
        while i < order_by_s.len()
            invariant
                i <= order_by_s@.len(),
                order_by@.len() == i,
                forall|k: int|
                    0 <= k < i ==> (#[trigger] order_by@[k].0@, order_by@[k].1) == order_item(
                        order_by_s@[k]@,
                    ),
            decreases order_by_s@.len() - i,
        {
            let item = decode_order_item(order_by_s[i].as_str());
            order_by.push(item);
            i = i + 1;
        }
        assert(order_view(order_by@) =~= order_items(texts_view(order_by_s@)));

        let skip: Option<usize> = match self.skip {
            Some(v) => Some(#[verifier::truncate] (v as usize)),
            None => None,
        };
        let top: Option<usize> = match self.top {
            Some(v) => Some(#[verifier::truncate] (v as usize)),
            None => None,
        };

        let filter = match &self.filter {
            Some(fltr) => Some(decode_filter(fltr.as_str())?),
            None => None,
        };

        Ok(QueryParams { select, order_by, skip, top, filter })
    }
}

/// Decoding fails on the filter alone: without a filter it succeeds, and a
/// filter that the grammar rejects is a parsing error whatever the other
/// options hold.
pub proof fn lemma_decode_fails_on_the_filter_alone(raw: QueryParamsRaw)
    ensures
        raw.filter is None ==> raw.decoded() is Ok,
        (raw.filter matches Some(text) && parsed_filter(text@) is Err) ==> (raw.decoded() matches Err(
            e,
        ) && e is FilterParsingError),
{
    if let Some(text) = raw.filter {
        if parsed_filter(text@) is Err {
            lemma_rejected_filter_is_a_parsing_error(text@);
        }
    }
}

/// One step of a query over a table.
#[derive(Debug, PartialEq, Eq)]
pub enum TableStep {
    /// Adds the column `alias` as a copy of `column`.
    WithColumn { alias: String, column: String },
    /// Keeps the named columns, in this order.
    SelectColumns(Vec<String>),
    /// Keeps the rows in which `column` equals the string `value`.
    FilterEquals { column: String, value: String },
    /// Keeps the rows that the predicate accepts.
    Filter(Expression),
    /// Sorts by the keys `(column, ascending)`, the first one first; rows that
    /// tie keep their order, and missing values come first.
    Sort(Vec<(String, bool)>),
    /// Leaves out the first `skip` rows and keeps at most `fetch` of the rest.
    Limit { skip: usize, fetch: usize },
}

/// A queryable table: the steps laid over a source so far, for the query
/// engine to run in order.
#[derive(Debug, PartialEq, Eq)]
pub struct Table {
    pub steps: Vec<TableStep>,
}

/// A step, with its texts as character sequences.
pub enum StepView {
    WithColumn { alias: Seq<char>, column: Seq<char> },
    SelectColumns(Seq<Seq<char>>),
    FilterEquals { column: Seq<char>, value: Seq<char> },
    Filter(ExprView),
    Sort(Seq<(Seq<char>, bool)>),
    Limit { skip: usize, fetch: usize },
}

impl View for TableStep {
    type V = StepView;

    open spec fn view(&self) -> StepView {
        match self {
            TableStep::WithColumn { alias, column } => StepView::WithColumn {
                alias: alias@,
                column: column@,
            },
            TableStep::SelectColumns(names) => StepView::SelectColumns(texts_view(names@)),
            TableStep::FilterEquals { column, value } => StepView::FilterEquals {
                column: column@,
                value: value@,
            },
            TableStep::Filter(e) => StepView::Filter(e@),
            TableStep::Sort(keys) => StepView::Sort(order_view(keys@)),
            TableStep::Limit { skip, fetch } => StepView::Limit { skip: *skip, fetch: *fetch },
        }
    }
}

impl View for Table {
    type V = Seq<StepView>;

    open spec fn view(&self) -> Seq<StepView> {
        Seq::new(self.steps@.len(), |i: int| self.steps@[i]@)
    }
}

impl Table {
    /// A table with nothing laid over it.
    pub fn new() -> (r: Table)
        ensures
            r@ == Seq::<StepView>::empty(),
    {
        let r = Table { steps: Vec::new() };
        assert(r@ =~= Seq::<StepView>::empty());
        r
    }

    fn push(&mut self, step: TableStep)
        ensures
            final(self)@ == old(self)@.push(step@),
    {
        self.steps.push(step);
        assert(self@ =~= old(self)@.push(step@));
    }
}

/// The number of rows a page holds at most: `$top`, or the default where
/// there is none, but never more than the maximum.
pub open spec fn applied_limit(top: Option<usize>, default_rows: usize, max_rows: usize) -> usize {
    let wanted = match top {
        Some(t) => t,
        None => default_rows,
    };
    if wanted <= max_rows {
        wanted
    } else {
        max_rows
    }
}

/// The number of rows a page leaves out: `$skip`, or none.
pub open spec fn applied_skip(skip: Option<usize>) -> usize {
    match skip {
        Some(s) => s,
        None => 0,
    }
}

/// The table with the key alias added and the selected columns kept: with a
/// `$select`, the selected columns together with the alias; without one, all
/// columns.
pub open spec fn projected(
    table: Seq<StepView>,
    select: Seq<Seq<char>>,
    key_column: Seq<char>,
    key_column_alias: Seq<char>,
) -> Seq<StepView> {
    let aliased = table.push(StepView::WithColumn { alias: key_column_alias, column: key_column });
    if select.len() == 0 {
        aliased
    } else {
        aliased.push(StepView::SelectColumns(with_item(select, key_column_alias)))
    }
}

/// A list of names and one more name: the name is added at the end unless
/// the list holds it already.
pub open spec fn with_item(names: Seq<Seq<char>>, name: Seq<char>) -> Seq<Seq<char>> {
    if names.contains(name) {
        names
    } else {
        names.push(name)
    }
}

/// The table that a query asks for: the projection; then, for an address
/// with a key, the row with that key and nothing else; for one without,
/// the filter, the sort and the page, in this order.
pub open spec fn applied(
    query: QueryView,
    table: Seq<StepView>,
    key: Option<Seq<char>>,
    key_column: Seq<char>,
    key_column_alias: Seq<char>,
    default_rows: usize,
    max_rows: usize,
) -> Seq<StepView> {
    let base = projected(table, query.select, key_column, key_column_alias);
    match key {
        Some(k) => base.push(StepView::FilterEquals { column: key_column_alias, value: k }),
        None => {
            let filtered = match query.filter {
                Some(f) => base.push(StepView::Filter(f)),
                None => base,
            };
            let sorted = if query.order_by.len() == 0 {
                filtered
            } else {
                filtered.push(StepView::Sort(query.order_by))
            };
            sorted.push(
                StepView::Limit {
                    skip: applied_skip(query.skip),
                    fetch: applied_limit(query.top, default_rows, max_rows),
                },
            )
        },
    }
}

/// For an address with a key the query's filter, order, skip and top do not
/// count, nor do the page sizes: the result is the projection, then the row
/// with that key, whatever else the query asks for.
pub proof fn lemma_key_ignores_the_rest(
    first: QueryView,
    second: QueryView,
    table: Seq<StepView>,
    key: Seq<char>,
    key_column: Seq<char>,
    key_column_alias: Seq<char>,
    default_rows: usize,
    max_rows: usize,
    other_default_rows: usize,
    other_max_rows: usize,
)
    requires
        first.select == second.select,
    ensures
        applied(first, table, Some(key), key_column, key_column_alias, default_rows, max_rows)
            == applied(
            second,
            table,
            Some(key),
            key_column,
            key_column_alias,
            other_default_rows,
            other_max_rows,
        ),
        applied(first, table, Some(key), key_column, key_column_alias, default_rows, max_rows)
            == projected(table, first.select, key_column, key_column_alias).push(
            StepView::FilterEquals { column: key_column_alias, value: key },
        ),
{
}

/// A page never holds more rows than the maximum, and the number it holds is
/// the smaller of the maximum and of `$top` or, without one, the default.
/// Where no `$top` asks for less and the default does not exceed the maximum,
/// a page holds at least the default.
pub proof fn lemma_applied_limit_bounds(top: Option<usize>, default_rows: usize, max_rows: usize)
    ensures
        applied_limit(top, default_rows, max_rows) <= max_rows,
        applied_limit(top, default_rows, max_rows) == vstd::math::min(
            (match top {
                Some(t) => t,
                None => default_rows,
            }) as int,
            max_rows as int,
        ),
        default_rows <= max_rows && (top matches Some(t) ==> default_rows <= t) ==> default_rows
            <= applied_limit(top, default_rows, max_rows),
{
}

fn holds_text(v: &Vec<String>, name: &str) -> (r: bool)
    ensures
        r == texts_view(v@).contains(name@),
{
    let mut i: usize = 0;
    while i < v.len()
        invariant
            i <= v@.len(),
            forall|k: int| 0 <= k < i ==> texts_view(v@)[k] != name@,
        decreases v@.len() - i,
    {
        if same_text(v[i].as_str(), name) {
            assert(texts_view(v@)[i as int] == name@);
            return true;
        }
        i = i + 1;
    }
    false
}

fn copy_texts(v: &Vec<String>) -> (r: Vec<String>)
    ensures
        texts_view(r@) == texts_view(v@),
{
    let mut out: Vec<String> = Vec::new();
    let mut i: usize = 0;
    while i < v.len()
        invariant
            i <= v@.len(),
            out@.len() == i,
            forall|k: int| 0 <= k < i ==> #[trigger] out@[k]@ == v@[k]@,
        decreases v@.len() - i,
    {
        out.push(v[i].clone());
        i = i + 1;
    }
    assert(texts_view(out@) =~= texts_view(v@));
    out
}

impl QueryParams {
    /// Lays the query over a table, in this order: the key alias, the
    /// selection, then either the row with the address's key or the filter,
    /// the sort and the page.
    pub fn apply(
        self,
        df: Table,
        addr: &CollectionAddr,
        key_column: &str,
        key_column_alias: &str,
        default_rows: usize,
        max_rows: usize,
    ) -> (r: Table)
        ensures
            r@ == applied(
                self@,
                df@,
                addr@.key,
                key_column@,
                key_column_alias@,
                default_rows,
                max_rows,
            ),
    {
        let mut df = df;
        // Add key column as alias
        df.push(
            TableStep::WithColumn {
                alias: key_column_alias.to_owned(),
                column: key_column.to_owned(),
            },
        );

        // Select desired columns
        if self.select.len() > 0 {
            let mut select = copy_texts(&self.select);
            if !holds_text(&self.select, key_column_alias) {
                select.push(key_column_alias.to_owned());
                assert(texts_view(select@) =~= texts_view(self.select@).push(key_column_alias@));
            }
            df.push(TableStep::SelectColumns(select));
        }

        // If queried by key - ignore the rest
        if let Some(key) = &addr.key {
            df.push(
                TableStep::FilterEquals {
                    column: key_column_alias.to_owned(),
                    value: key.clone(),
                },
            );
            return df;
        }
        match self.filter {
            Some(filter) => {
                df.push(TableStep::Filter(filter));
            },
            None => {},
        }

        // Order by
        if self.order_by.len() > 0 {
            df.push(TableStep::Sort(self.order_by));
        }
        // Skip / limit

        let skip: usize = match self.skip {
            Some(s) => s,
            None => 0,
        };
        let wanted: usize = match self.top {
            Some(t) => t,
            None => default_rows,
        };
        let fetch: usize = if wanted <= max_rows {
            wanted
        } else {
            max_rows
        };
        df.push(TableStep::Limit { skip, fetch });
        df
    }
}

} // verus!
