use datafusion_odata::collection::{
    decode_order_item, split_list, CollectionAddr, QueryParams, QueryParamsRaw, Table, TableStep,
};
use datafusion_odata::error::ODataError;
use datafusion_odata::filter::{
    is_readable, CompareOp, Expression, Literal, ODataFilter, MAX_FILTER_DEPTH, MAX_FILTER_WORK,
};

fn raw(
    select: Option<&str>,
    order_by: Option<&str>,
    skip: Option<u64>,
    top: Option<u64>,
    filter: Option<&str>,
) -> QueryParamsRaw {
    QueryParamsRaw {
        select: select.map(str::to_string),
        order_by: order_by.map(str::to_string),
        skip,
        top,
        filter: filter.map(str::to_string),
    }
}

fn ident(name: &str) -> Box<Expression> {
    Box::new(Expression::Identifier(name.to_string()))
}

fn number(v: i64) -> Box<Expression> {
    Box::new(Expression::Literal(Literal::Int64(v)))
}

fn filter(text: &str) -> Result<Expression, ODataError> {
    ODataFilter::from_str(text).map(ODataFilter::into_expr)
}

#[test]
fn split_list_drops_empty_items_and_keeps_order() {
    assert_eq!(split_list("offset,close"), vec!["offset", "close"]);
    assert_eq!(split_list(",a,,b,"), vec!["a", "b"]);
    assert_eq!(split_list(""), Vec::<String>::new());
    assert_eq!(split_list(",,,"), Vec::<String>::new());
    assert_eq!(split_list("one"), vec!["one"]);
    assert_eq!(split_list(" a , b"), vec![" a ", " b"]);
}

#[test]
fn order_items_take_their_direction_from_the_suffix() {
    assert_eq!(decode_order_item("offset asc"), ("offset".to_string(), true));
    assert_eq!(decode_order_item("offset desc"), ("offset".to_string(), false));
    assert_eq!(decode_order_item("offset"), ("offset".to_string(), true));
    assert_eq!(decode_order_item("offset ASC"), ("offset ASC".to_string(), true));
    assert_eq!(decode_order_item(" asc"), ("".to_string(), true));
    assert_eq!(decode_order_item("a desc asc"), ("a desc".to_string(), true));
}

#[test]
fn decode_reads_every_option() {
    let q = raw(Some("offset,,close"), Some("offset asc,close desc,volume"), Some(3), Some(2), None)
        .decode()
        .unwrap();
    assert_eq!(q.select, vec!["offset", "close"]);
    assert_eq!(
        q.order_by,
        vec![
            ("offset".to_string(), true),
            ("close".to_string(), false),
            ("volume".to_string(), true)
        ]
    );
    assert_eq!(q.skip, Some(3));
    assert_eq!(q.top, Some(2));
    assert_eq!(q.filter, None);
}

#[test]
fn decode_of_nothing_is_empty() {
    let q = raw(None, None, None, None, None).decode().unwrap();
    assert!(q.select.is_empty());
    assert!(q.order_by.is_empty());
    assert_eq!(q.skip, None);
    assert_eq!(q.top, None);
    assert_eq!(q.filter, None);
}

#[test]
fn decode_translates_the_filter() {
    let q = raw(None, None, None, None, Some("offset eq 0")).decode().unwrap();
    assert_eq!(q.filter, Some(Expression::Compare(CompareOp::Eq, ident("offset"), number(0))));
}

#[test]
fn decode_fails_on_a_filter_that_does_not_parse() {
    let e = raw(Some("a"), None, None, None, Some("offset eq")).decode().unwrap_err();
    assert!(matches!(&e, ODataError::FilterParsingError(f) if f.msg == "Error during general parsing."));
    assert_eq!(e.status_code(), 400);
    assert_eq!(e.message(), "Filter parsing error: Error during general parsing.");
}

#[test]
fn filter_maps_each_operator() {
    for (text, op) in [
        ("eq", CompareOp::Eq),
        ("ne", CompareOp::NotEq),
        ("lt", CompareOp::Lt),
        ("gt", CompareOp::Gt),
        ("le", CompareOp::LtEq),
        ("ge", CompareOp::GtEq),
    ] {
        assert_eq!(
            filter(&format!("price {text} 5")).unwrap(),
            Expression::Compare(op, ident("price"), number(5))
        );
    }
}

#[test]
fn filter_keeps_the_shape_of_the_tree() {
    assert_eq!(
        filter("not (aa eq 1 and bb ne 2 or cc lt 3)").unwrap(),
        Expression::Not(Box::new(Expression::And(
            Box::new(Expression::Compare(CompareOp::Eq, ident("aa"), number(1))),
            Box::new(Expression::Or(
                Box::new(Expression::Compare(CompareOp::NotEq, ident("bb"), number(2))),
                Box::new(Expression::Compare(CompareOp::Lt, ident("cc"), number(3))),
            )),
        )))
    );
    assert_eq!(
        filter("name in ('a', 'b')").unwrap(),
        Expression::In(
            ident("name"),
            vec![
                Expression::Literal(Literal::String("a".to_string())),
                Expression::Literal(Literal::String("b".to_string())),
            ]
        )
    );
}

#[test]
fn filter_converts_each_kind_of_value() {
    let value = |text: &str| match filter(&format!("col eq {text}")).unwrap() {
        Expression::Compare(CompareOp::Eq, _, r) => match *r {
            Expression::Literal(l) => l,
            other => panic!("{other:?}"),
        },
        other => panic!("{other:?}"),
    };
    assert_eq!(value("'it is'"), Literal::String("it is".to_string()));
    assert_eq!(value("'a\\'b'"), Literal::String("a'b".to_string()));
    assert_eq!(value("true"), Literal::Bool(true));
    assert_eq!(value("FALSE"), Literal::Bool(false));
    assert_eq!(value("null"), Literal::Null);
    assert_eq!(value("42"), Literal::Int64(42));
    assert_eq!(value("9223372036854775807"), Literal::Int64(i64::MAX));
    assert_eq!(value("2024-09-11"), Literal::EpochSeconds(1_726_012_800));
    assert_eq!(value("2024-09-11T01:02:03Z"), Literal::EpochSeconds(1_726_012_800 + 3723));
    assert_eq!(value("2024-09-11T01:02:03+01:00"), Literal::EpochSeconds(1_726_012_800 + 123));
    assert_eq!(
        value("A1B2C3D4-0000-1111-2222-333344445555"),
        Literal::Uuid("a1b2c3d4-0000-1111-2222-333344445555".to_string())
    );
}

#[test]
fn filter_rejects_what_has_no_counterpart() {
    let e = filter("startswith(name, 'a') eq true").unwrap_err();
    assert!(matches!(&e, ODataError::UnsupportedFeature(f)
        if f.feature == "Function within the filter is not supported"));
    assert_eq!(e.status_code(), 501);

    let e = filter("at eq 12:30:00").unwrap_err();
    assert!(matches!(&e, ODataError::UnsupportedFeature(f)
        if f.feature == "Time value in filter is not supported"));

    let e = filter("price eq 1.5").unwrap_err();
    assert!(matches!(&e, ODataError::FilterParsingError(f) if f.msg == "Failed to parse number"));
    assert_eq!(e.status_code(), 400);

    let e = filter("price eq 9223372036854775808").unwrap_err();
    assert!(matches!(&e, ODataError::FilterParsingError(f) if f.msg == "Failed to parse number"));

    let e = filter("day eq 2024-13-45").unwrap_err();
    assert!(matches!(&e, ODataError::FilterParsingError(f) if f.msg == "Error parsing a date."));
}

#[test]
fn filter_reports_the_leftmost_failure() {
    let e = filter("price eq 1.5 and at eq 12:30:00").unwrap_err();
    assert!(matches!(e, ODataError::FilterParsingError(_)));
    let e = filter("at eq 12:30:00 and price eq 1.5").unwrap_err();
    assert!(matches!(e, ODataError::UnsupportedFeature(_)));
}

fn addr(name: &str, key: Option<&str>) -> CollectionAddr {
    CollectionAddr { name: name.to_string(), key: key.map(str::to_string) }
}

fn with_column() -> TableStep {
    TableStep::WithColumn { alias: "__id__".to_string(), column: "offset".to_string() }
}

#[test]
fn apply_lays_the_steps_in_order() {
    let q = raw(Some("offset,close"), Some("offset asc"), Some(5), Some(2), Some("offset eq 0"))
        .decode()
        .unwrap();
    let t = q.apply(Table::new(), &addr("tickers.spy", None), "offset", "__id__", 100, 1000);
    assert_eq!(
        t.steps,
        vec![
            with_column(),
            TableStep::SelectColumns(vec![
                "offset".to_string(),
                "close".to_string(),
                "__id__".to_string()
            ]),
            TableStep::Filter(Expression::Compare(CompareOp::Eq, ident("offset"), number(0))),
            TableStep::Sort(vec![("offset".to_string(), true)]),
            TableStep::Limit { skip: 5, fetch: 2 },
        ]
    );
}

#[test]
fn apply_without_options_pages_with_the_default() {
    let q = raw(None, None, None, None, None).decode().unwrap();
    let t = q.apply(Table::new(), &addr("t", None), "offset", "__id__", 100, 1000);
    assert_eq!(t.steps, vec![with_column(), TableStep::Limit { skip: 0, fetch: 100 }]);
}

#[test]
fn apply_extends_the_table_it_is_given() {
    let q = raw(None, None, None, None, None).decode().unwrap();
    let mut table = Table::new();
    table.steps.push(TableStep::Limit { skip: 1, fetch: 1 });
    let t = q.apply(table, &addr("t", None), "k", "__id__", 10, 20);
    assert_eq!(
        t.steps,
        vec![
            TableStep::Limit { skip: 1, fetch: 1 },
            TableStep::WithColumn { alias: "__id__".to_string(), column: "k".to_string() },
            TableStep::Limit { skip: 0, fetch: 10 },
        ]
    );
}

#[test]
fn apply_with_a_key_ignores_everything_but_the_selection() {
    let full = raw(Some("offset,close"), Some("offset desc"), Some(5), Some(2), Some("offset eq 0"))
        .decode()
        .unwrap();
    let bare = raw(Some("offset,close"), None, None, None, None).decode().unwrap();
    let a = addr("tickers.spy", Some("1"));
    let expected = vec![
        with_column(),
        TableStep::SelectColumns(vec![
            "offset".to_string(),
            "close".to_string(),
            "__id__".to_string(),
        ]),
        TableStep::FilterEquals { column: "__id__".to_string(), value: "1".to_string() },
    ];
    assert_eq!(full.apply(Table::new(), &a, "offset", "__id__", 100, 1000).steps, expected);
    assert_eq!(bare.apply(Table::new(), &a, "offset", "__id__", 7, 3).steps, expected);
}

fn fetch(top: Option<usize>, default_rows: usize, max_rows: usize) -> usize {
    let q = QueryParams { select: vec![], order_by: vec![], skip: None, top, filter: None };
    let t = q.apply(Table::new(), &addr("t", None), "k", "__id__", default_rows, max_rows);
    match t.steps.last() {
        Some(TableStep::Limit { skip: 0, fetch }) => *fetch,
        other => panic!("{other:?}"),
    }
}

#[test]
fn the_page_is_the_smaller_of_top_or_default_and_the_maximum() {
    assert_eq!(fetch(None, 100, 1000), 100);
    assert_eq!(fetch(None, 100, 50), 50);
    assert_eq!(fetch(Some(2), 100, 1000), 2);
    assert_eq!(fetch(Some(2000), 100, 1000), 1000);
    assert_eq!(fetch(Some(1000), 100, 1000), 1000);
    assert_eq!(fetch(Some(0), 100, 1000), 0);
    assert_eq!(fetch(None, 100, usize::MAX), 100);
    assert_eq!(fetch(Some(usize::MAX), 100, usize::MAX), usize::MAX);
}

fn nested(depth: usize, inner: &str) -> String {
    format!("{}{inner}{}", "(".repeat(depth), ")".repeat(depth))
}

fn unread(e: &ODataError) -> bool {
    matches!(e, ODataError::FilterParsingError(f)
        if f.msg == "Filter is too long or nested too deeply")
}

#[test]
fn work_counts_three_readings_for_each_pair_of_parentheses() {
    assert_eq!(MAX_FILTER_WORK, 1_000_000);
    assert!(is_readable(""));
    assert!(is_readable("aa eq 1"));
    assert!(is_readable(&"a".repeat(1_000_000)));
    assert!(!is_readable(&"a".repeat(1_000_001)));
    // one pair: 3 for each parenthesis's own depth and for what is inside
    assert!(is_readable(&nested(1, &"a".repeat(333_331))));
    assert!(!is_readable(&nested(1, &"a".repeat(333_332))));
    assert!(is_readable(&nested(9, "aa eq 1")));
    assert!(is_readable(&nested(10, "aa eq 1")));
    assert!(!is_readable(&nested(11, "aa eq 1")));
    assert!(!is_readable(&nested(4000, "aa eq 1")));
    assert!(is_readable(&"(".repeat(12)));
    assert!(!is_readable(&"(".repeat(13)));
    // parentheses inside strings do not nest
    assert!(is_readable(&format!("name eq '{}'", "(".repeat(4000))));
    assert!(is_readable(&format!("name eq 'a\\'{}'", "(".repeat(4000))));
    assert!(!is_readable(&format!("name eq 'a\\\\'{}", "(".repeat(4000))));
    // closing more than was opened starts over
    assert!(is_readable(&format!("{}{}", ")".repeat(4000), "(".repeat(12))));
}

#[test]
fn long_numerals_ask_for_more_work_with_each_digit() {
    assert!(is_readable(&format!("aa eq {}", "7".repeat(100_000))));
    assert!(!is_readable(&format!("aa eq {}", "7".repeat(150_000))));
    // many short numerals cost no more than their characters
    assert!(is_readable(&format!("aa in ({})", vec!["12345678"; 30_000].join(","))));
    // digits inside strings are no numeral
    assert!(is_readable(&format!("aa eq '{}'", "7".repeat(900_000))));
}

#[test]
fn depth_counts_parentheses_and_linking_words() {
    assert_eq!(MAX_FILTER_DEPTH, 512);
    let chain = |word: &str, n: usize| vec!["aa eq 1"; n + 1].join(word);
    assert!(is_readable(&chain(" and ", 512)));
    assert!(!is_readable(&chain(" and ", 513)));
    assert!(is_readable(&chain(" or ", 512)));
    assert!(!is_readable(&chain(" or ", 513)));
    assert!(is_readable(&chain("or ", 512)));
    assert!(!is_readable(&chain("or ", 513)));
    assert!(is_readable(&format!("{}aa", "not ".repeat(512))));
    assert!(!is_readable(&format!("{}aa", "not".repeat(513))));
    assert!(!is_readable(&vec!["true"; 514].join("and")));
    assert!(!is_readable(&vec!["null"; 514].join("or")));
    // the words do not count inside names
    assert!(is_readable(&format!("x{} eq 1", "or".repeat(2000))));
    assert!(is_readable(&vec!["floor eq 1"; 400].join(" and ")));
    assert!(is_readable(&vec!["brand eq 1"; 400].join(" or ")));
    assert!(is_readable(&vec!["cannot eq 1"; 400].join(" or ")));
    // nor inside strings
    assert!(is_readable(&format!("name eq '{}'", " or ".repeat(4000))));
    assert!(is_readable(&format!("aa in ({})", vec!["1"; 4000].join(", "))));
    // parentheses and words add up
    assert!(is_readable(&format!("({})", chain(" and ", 511))));
    assert!(!is_readable(&format!("({})", chain(" and ", 512))));
    assert!(is_readable(&format!("(){}", chain(" and ", 511))));
    assert!(!is_readable(&format!("(){}", chain(" and ", 512))));
}

#[test]
fn long_chains_are_read_up_to_the_bound() {
    let chain = vec!["aa eq 1"; 258].join(" and ");
    assert!(filter(&chain).is_ok());
    let chain = vec!["aa eq 1"; 513].join(" and ");
    assert!(filter(&chain).is_ok());
    let chain = vec!["aa eq 1"; 514].join(" and ");
    assert!(unread(&filter(&chain).unwrap_err()));
    let chain = vec!["aa eq 1"; 100_000].join(" or ");
    assert!(unread(&filter(&chain).unwrap_err()));
    let nots = format!("{}aa eq 1", "not ".repeat(50_000));
    assert!(unread(&filter(&nots).unwrap_err()));
}

#[test]
fn filters_that_ask_for_too_much_work_are_not_read() {
    assert_eq!(
        filter(&nested(9, "aa eq 1")).unwrap(),
        Expression::Compare(CompareOp::Eq, ident("aa"), number(1))
    );
    for depth in [11usize, 40, 4000] {
        let e = filter(&nested(depth, "aa eq 1")).unwrap_err();
        assert!(unread(&e));
        assert_eq!(e.status_code(), 400);
        assert_eq!(e.message(), "Filter parsing error: Filter is too long or nested too deeply");
    }
    let wide = nested(6, &vec!["aa eq 1"; 300].join(" and "));
    assert!(unread(&filter(&wide).unwrap_err()));
    let quoted = format!("name eq '{}'", "(".repeat(40));
    assert!(filter(&quoted).is_ok());
}

#[test]
fn a_filter_that_does_not_parse_is_a_parsing_error() {
    for text in ["(", "offset eq", "(((((((((((", ")", "aa eq 1 bb", "'open", "aa eq 1 and"] {
        let e = filter(text).unwrap_err();
        assert!(matches!(e, ODataError::FilterParsingError(_)), "{text:?}");
        assert_eq!(e.status_code(), 400);
    }
    for text in [&"(".repeat(13), &"(".repeat(4000), &"not".repeat(600)] {
        let e = filter(text).unwrap_err();
        assert!(matches!(e, ODataError::FilterParsingError(_)));
        assert_eq!(e.status_code(), 400);
    }
    let e = raw(Some("a"), Some("a desc"), Some(1), Some(2), Some("(((((((((((")).decode();
    assert!(matches!(e, Err(ODataError::FilterParsingError(_))));
    assert!(raw(Some("a"), Some("a desc"), Some(1), Some(2), None).decode().is_ok());
}

#[test]
fn apply_selects_the_key_alias_once() {
    let q = raw(Some("offset,__id__,close"), None, None, None, None).decode().unwrap();
    let t = q.apply(Table::new(), &addr("t", None), "offset", "__id__", 100, 1000);
    assert_eq!(
        t.steps[1],
        TableStep::SelectColumns(vec![
            "offset".to_string(),
            "__id__".to_string(),
            "close".to_string()
        ])
    );
    let q = raw(Some("a,a"), None, None, None, None).decode().unwrap();
    let t = q.apply(Table::new(), &addr("t", None), "offset", "__id__", 100, 1000);
    assert_eq!(
        t.steps[1],
        TableStep::SelectColumns(vec!["a".to_string(), "a".to_string(), "__id__".to_string()])
    );
}
