use datafusion_odata::atom::{
    atom_entry_events, atom_feed_events, to_edms, unmapped_fields, write_atom_entry_from_record,
    write_atom_feed_from_records,
};
use datafusion_odata::collection::{CollectionAddr, QueryParamsRaw, Table, TableStep};
use datafusion_odata::context::{CollectionInfo, OnUnsupported};
use datafusion_odata::error::ODataError;
use datafusion_odata::filter::{CompareOp, Expression, Literal};
use datafusion_odata::handlers::{collection_response, MEDIA_TYPE_ATOM};
use datafusion_odata::record::{encode_primitive_dyn, primitive_text, Cell, Column, RecordBatch};
use datafusion_odata::schema::{DataType, Field, IntervalUnit, Schema, TimeUnit};
use datafusion_odata::xml::XmlWriter;

// 2023-01-01T00:00:00Z
const UPDATED: i64 = 1_672_531_200_000;

fn tickers_schema() -> Schema {
    Schema::new(vec![
        Field::new("offset", DataType::Int64, true),
        Field::new("close", DataType::Float64, true),
        Field::new("__id__", DataType::Int64, true),
    ])
}

fn tickers_rows(rows: &[(i64, &str)]) -> RecordBatch {
    RecordBatch::new(
        vec![
            Column::new(DataType::Int64, rows.iter().map(|r| Cell::Int(r.0)).collect()),
            Column::new(
                DataType::Float64,
                rows.iter().map(|r| Cell::Float(r.1.to_string())).collect(),
            ),
            Column::new(DataType::Int64, rows.iter().map(|r| Cell::Int(r.0)).collect()),
        ],
        rows.len(),
    )
}

fn tickers_info() -> CollectionInfo {
    CollectionInfo::new(
        "http://example.com/odata",
        "http://example.com/odatatickers.spy",
        "tickers.spy",
        OnUnsupported::Error,
    )
}

fn feed_of(batches: Vec<RecordBatch>) -> String {
    let schema = tickers_schema();
    for b in &batches {
        assert!(b.conforms_to(&schema));
    }
    let mut w = XmlWriter::new();
    write_atom_feed_from_records(&schema, &batches, &tickers_info(), UPDATED, &mut w).unwrap();
    String::from_utf8(w.into_inner()).unwrap()
}

#[test]
fn test_collection() {
    let query = QueryParamsRaw {
        select: Some("offset,close".to_string()),
        order_by: Some("offset asc".to_string()),
        skip: None,
        top: Some(2),
        filter: None,
    }
    .decode()
    .unwrap();
    let table = query.apply(
        Table::new(),
        &CollectionAddr::decode("tickers.spy").unwrap(),
        "offset",
        "__id__",
        100,
        usize::MAX,
    );
    assert_eq!(
        table.steps,
        vec![
            TableStep::WithColumn { alias: "__id__".to_string(), column: "offset".to_string() },
            TableStep::SelectColumns(vec![
                "offset".to_string(),
                "close".to_string(),
                "__id__".to_string()
            ]),
            TableStep::Sort(vec![("offset".to_string(), true)]),
            TableStep::Limit { skip: 0, fetch: 2 },
        ]
    );

    // What the engine hands back for this table: the first two rows.
    let body = feed_of(vec![tickers_rows(&[(0, "135.5625"), (1, "134.5937")])]);
    assert_eq!(body.matches("<entry>").count(), 2);
    assert_eq!(
        body,
        concat_lines(&[
            r#"<?xml version="1.0" encoding="utf-8"?>"#,
            r#"<feed"#,
            r#" xml:base="http://example.com/odata/""#,
            r#" xmlns="http://www.w3.org/2005/Atom""#,
            r#" xmlns:d="http://schemas.microsoft.com/ado/2007/08/dataservices""#,
            r#" xmlns:m="http://schemas.microsoft.com/ado/2007/08/dataservices/metadata">"#,
            r#"<id>http://example.com/odatatickers.spy</id>"#,
            r#"<title type="text">tickers.spy</title>"#,
            r#"<updated>2023-01-01T00:00:00.000Z</updated>"#,
            r#"<link rel="self" title="tickers.spy" href="tickers.spy"/>"#,
            r#"<entry>"#,
            r#"<id>http://example.com/odatatickers.spy(0)</id>"#,
            r#"<category scheme="http://schemas.microsoft.com/ado/2007/08/dataservices/scheme" term="default.tickers.spy"/>"#,
            r#"<link rel="edit" title="tickers.spy" href="tickers.spy(0)"/>"#,
            r#"<title/>"#,
            r#"<updated>2023-01-01T00:00:00.000Z</updated>"#,
            r#"<author><name/></author>"#,
            r#"<content type="application/xml">"#,
            r#"<m:properties>"#,
            r#"<d:offset m:type="Edm.Int64">0</d:offset>"#,
            r#"<d:close m:type="Edm.Double">135.5625</d:close>"#,
            r#"</m:properties>"#,
            r#"</content>"#,
            r#"</entry>"#,
            r#"<entry>"#,
            r#"<id>http://example.com/odatatickers.spy(1)</id>"#,
            r#"<category scheme="http://schemas.microsoft.com/ado/2007/08/dataservices/scheme" term="default.tickers.spy"/>"#,
            r#"<link rel="edit" title="tickers.spy" href="tickers.spy(1)"/>"#,
            r#"<title/>"#,
            r#"<updated>2023-01-01T00:00:00.000Z</updated>"#,
            r#"<author><name/></author>"#,
            r#"<content type="application/xml">"#,
            r#"<m:properties>"#,
            r#"<d:offset m:type="Edm.Int64">1</d:offset>"#,
            r#"<d:close m:type="Edm.Double">134.5937</d:close>"#,
            r#"</m:properties>"#,
            r#"</content>"#,
            r#"</entry>"#,
            r#"</feed>"#,
        ])
    );
}

fn concat_lines(lines: &[&str]) -> String {
    lines.concat()
}

#[test]
fn test_collection_entity_by_id() {
    let query = QueryParamsRaw {
        select: Some("offset,close".to_string()),
        order_by: None,
        skip: None,
        top: None,
        filter: None,
    }
    .decode()
    .unwrap();
    let address = CollectionAddr::decode("tickers.spy(1)").unwrap();
    let table = query.apply(Table::new(), &address, "offset", "__id__", 100, usize::MAX);
    assert_eq!(
        table.steps.last(),
        Some(&TableStep::FilterEquals { column: "__id__".to_string(), value: "1".to_string() })
    );
    assert_eq!(table.steps.len(), 3);

    // What the engine hands back for this table: the row with offset 1.
    let schema = tickers_schema();
    let batch = tickers_rows(&[(1, "134.5937")]);
    assert!(batch.conforms_to(&schema));
    let mut w = XmlWriter::new();
    write_atom_entry_from_record(&schema, &batch, &tickers_info(), UPDATED, &mut w).unwrap();
    let body = String::from_utf8(w.into_inner()).unwrap();
    assert_eq!(
        body,
        concat_lines(&[
            r#"<?xml version="1.0" encoding="utf-8"?>"#,
            r#"<entry"#,
            r#" xml:base="http://example.com/odata/""#,
            r#" xmlns="http://www.w3.org/2005/Atom""#,
            r#" xmlns:d="http://schemas.microsoft.com/ado/2007/08/dataservices""#,
            r#" xmlns:m="http://schemas.microsoft.com/ado/2007/08/dataservices/metadata">"#,
            r#"<id>http://example.com/odatatickers.spy(1)</id>"#,
            r#"<category scheme="http://schemas.microsoft.com/ado/2007/08/dataservices/scheme" term="default.tickers.spy"/>"#,
            r#"<link rel="edit" title="tickers.spy" href="tickers.spy(1)"/>"#,
            r#"<title/>"#,
            r#"<updated>2023-01-01T00:00:00.000Z</updated>"#,
            r#"<author><name/></author>"#,
            r#"<content type="application/xml">"#,
            r#"<m:properties>"#,
            r#"<d:offset m:type="Edm.Int64">1</d:offset>"#,
            r#"<d:close m:type="Edm.Double">134.5937</d:close>"#,
            r#"</m:properties>"#,
            r#"</content>"#,
            r#"</entry>"#,
        ])
    );
}

fn entry_of(offset: i64, close: &str) -> String {
    [
        "<entry>".to_string(),
        format!("<id>http://example.com/odatatickers.spy({offset})</id>"),
        r#"<category scheme="http://schemas.microsoft.com/ado/2007/08/dataservices/scheme" term="default.tickers.spy"/>"#.to_string(),
        format!(r#"<link rel="edit" title="tickers.spy" href="tickers.spy({offset})"/>"#),
        "<title/>".to_string(),
        "<updated>2023-01-01T00:00:00.000Z</updated>".to_string(),
        "<author><name/></author>".to_string(),
        r#"<content type="application/xml">"#.to_string(),
        "<m:properties>".to_string(),
        format!(r#"<d:offset m:type="Edm.Int64">{offset}</d:offset>"#),
        format!(r#"<d:close m:type="Edm.Double">{close}</d:close>"#),
        "</m:properties>".to_string(),
        "</content>".to_string(),
        "</entry>".to_string(),
    ]
    .concat()
}

fn feed_head() -> String {
    concat_lines(&[
        r#"<?xml version="1.0" encoding="utf-8"?>"#,
        r#"<feed"#,
        r#" xml:base="http://example.com/odata/""#,
        r#" xmlns="http://www.w3.org/2005/Atom""#,
        r#" xmlns:d="http://schemas.microsoft.com/ado/2007/08/dataservices""#,
        r#" xmlns:m="http://schemas.microsoft.com/ado/2007/08/dataservices/metadata">"#,
        r#"<id>http://example.com/odatatickers.spy</id>"#,
        r#"<title type="text">tickers.spy</title>"#,
        r#"<updated>2023-01-01T00:00:00.000Z</updated>"#,
        r#"<link rel="self" title="tickers.spy" href="tickers.spy"/>"#,
    ])
}

fn addr(segment: &str) -> CollectionAddr {
    CollectionAddr::decode(segment).unwrap()
}

#[test]
fn test_collection_with_filter() {
    let query = QueryParamsRaw {
        select: Some("offset,close".to_string()),
        order_by: Some("offset asc".to_string()),
        skip: None,
        top: None,
        filter: Some("offset eq 0".to_string()),
    }
    .decode()
    .unwrap();
    let address = addr("tickers.spy");
    let table = query.apply(Table::new(), &address, "offset", "__id__", 100, usize::MAX);
    assert_eq!(
        table.steps[2],
        TableStep::Filter(Expression::Compare(
            CompareOp::Eq,
            Box::new(Expression::Identifier("offset".to_string())),
            Box::new(Expression::Literal(Literal::Int64(0))),
        ))
    );
    assert_eq!(table.steps.len(), 5);

    // What the engine hands back for this table: the one row with offset 0.
    let resp = collection_response(
        &address,
        &tickers_schema(),
        &vec![tickers_rows(&[(0, "135.5625")])],
        &tickers_info(),
        UPDATED,
    )
    .unwrap();
    assert_eq!(resp.status, 200);
    assert_eq!(resp.content_type.as_deref(), Some(MEDIA_TYPE_ATOM));
    assert_eq!(resp.body, [feed_head(), entry_of(0, "135.5625"), "</feed>".to_string()].concat());
    assert_eq!(resp.body.matches("<entry>").count(), 1);
}

#[test]
fn test_collection_entity_by_id_not_found() {
    let address = addr("tickers.spy(999999)");
    let empty = tickers_rows(&[]);
    for batches in [vec![], vec![empty]] {
        let resp =
            collection_response(&address, &tickers_schema(), &batches, &tickers_info(), UPDATED)
                .unwrap();
        assert_eq!(resp.status, 404);
        assert_eq!(resp.content_type, None);
        assert_eq!(resp.body, "");
    }
}

#[test]
fn entity_by_id_answers_with_the_entry_of_the_only_row() {
    let address = addr("tickers.spy(1)");
    let resp = collection_response(
        &address,
        &tickers_schema(),
        &vec![tickers_rows(&[(1, "134.5937")])],
        &tickers_info(),
        UPDATED,
    )
    .unwrap();
    assert_eq!(resp.status, 200);
    assert!(resp.body.contains("<id>http://example.com/odatatickers.spy(1)</id>"));
    assert!(resp.body.contains(r#"<d:offset m:type="Edm.Int64">1</d:offset>"#));
    assert!(resp.body.starts_with(r#"<?xml version="1.0" encoding="utf-8"?><entry xml:base="#));
    assert!(resp.body.ends_with("</content></entry>"));
}

#[test]
fn entity_by_id_with_several_rows_or_batches_is_an_internal_error() {
    let address = addr("tickers.spy(1)");
    let one = || tickers_rows(&[(1, "1.5")]);
    let none = || tickers_rows(&[]);
    for batches in [
        vec![tickers_rows(&[(1, "1.5"), (1, "2.5")])],
        vec![one(), one()],
        vec![none(), one()],
        vec![one(), none()],
        vec![none(), none()],
    ] {
        let e = collection_response(&address, &tickers_schema(), &batches, &tickers_info(), UPDATED)
            .unwrap_err();
        assert!(matches!(e, ODataError::Internal(_)));
        assert_eq!(e.status_code(), 500);
        assert_eq!(e.message(), "Internal error");
    }
}

#[test]
fn feed_without_rows_has_no_entry() {
    assert_eq!(feed_of(vec![]), [feed_head(), "</feed>".to_string()].concat());
    assert_eq!(feed_of(vec![tickers_rows(&[])]), [feed_head(), "</feed>".to_string()].concat());
}

#[test]
fn feed_walks_the_batches_and_their_rows_in_order() {
    let body = feed_of(vec![
        tickers_rows(&[(3, "3.5")]),
        tickers_rows(&[]),
        tickers_rows(&[(1, "1.5"), (2, "2.5")]),
    ]);
    assert_eq!(
        body,
        [
            feed_head(),
            entry_of(3, "3.5"),
            entry_of(1, "1.5"),
            entry_of(2, "2.5"),
            "</feed>".to_string()
        ]
        .concat()
    );
}

#[test]
fn encoding_twice_gives_the_same_bytes() {
    let batches = || vec![tickers_rows(&[(0, "135.5625"), (1, "134.5937")])];
    assert_eq!(feed_of(batches()), feed_of(batches()));
    let events = |b: Vec<RecordBatch>| {
        atom_feed_events(&tickers_schema(), &b, &tickers_info(), UPDATED).unwrap()
    };
    assert_eq!(events(batches()), events(batches()));
}

#[test]
fn base_urls_are_normalized() {
    let mut info = tickers_info();
    info.service_base_url = "https://h/svc/".to_string();
    info.collection_base_url = "https://h/svc/tickers.spy/".to_string();
    let mut w = XmlWriter::new();
    write_atom_feed_from_records(&tickers_schema(), &vec![], &info, UPDATED, &mut w).unwrap();
    let body = String::from_utf8(w.into_inner()).unwrap();
    assert!(body.contains(r#"<feed xml:base="https://h/svc/" xmlns="#));
    assert!(body.contains("<id>https://h/svc/tickers.spy</id>"));

    info.collection_base_url = "https://h/svc/tickers.spy//".to_string();
    let mut w = XmlWriter::new();
    write_atom_feed_from_records(&tickers_schema(), &vec![], &info, UPDATED, &mut w).unwrap();
    let body = String::from_utf8(w.into_inner()).unwrap();
    assert!(body.contains("<id>https://h/svc/tickers.spy</id>"));

    info.service_base_url = "https://h".to_string();
    info.collection_base_url = "https://h/tickers.spy".to_string();
    let mut w = XmlWriter::new();
    write_atom_feed_from_records(&tickers_schema(), &vec![], &info, UPDATED, &mut w).unwrap();
    let body = String::from_utf8(w.into_inner()).unwrap();
    assert!(body.contains(r#"<feed xml:base="https://h/" xmlns="#));
    assert!(body.contains("<id>https://h/tickers.spy</id>"));
}

#[test]
fn base_urls_must_be_http() {
    let mut info = tickers_info();
    info.service_base_url = "ftp://example.com/".to_string();
    info.collection_base_url = "gopher://example.com/t".to_string();
    let mut w = XmlWriter::new();
    let e = write_atom_feed_from_records(&tickers_schema(), &vec![], &info, UPDATED, &mut w)
        .unwrap_err();
    assert!(matches!(&e, ODataError::UnsupportedNetProtocol(p) if p.url == "ftp://example.com/"));
    assert_eq!(e.status_code(), 501);
    assert_eq!(e.message(), "Unsupported net protocol: ftp://example.com/");
    assert!(w.into_inner().is_empty());

    info.service_base_url = "http://example.com/".to_string();
    let e = atom_entry_events(&tickers_schema(), &tickers_rows(&[(1, "1")]), &info, UPDATED)
        .unwrap_err();
    assert!(
        matches!(&e, ODataError::UnsupportedNetProtocol(p) if p.url == "gopher://example.com/t")
    );
}

fn mixed_schema() -> Schema {
    Schema::new(vec![
        Field::new("id", DataType::Utf8, false),
        Field::new("blob", DataType::Binary, true),
        Field::new("small", DataType::Int16, true),
        Field::new("__id__", DataType::Utf8, false),
    ])
}

fn mixed_batch(id: Cell, small: Cell) -> RecordBatch {
    RecordBatch::new(
        vec![
            Column::new(DataType::Utf8, vec![id.clone()]),
            Column::new(DataType::Binary, vec![Cell::Opaque]),
            Column::new(DataType::Int16, vec![small]),
            Column::new(DataType::Utf8, vec![id]),
        ],
        1,
    )
}

#[test]
fn unsupported_columns_abort_or_are_dropped() {
    let plan = to_edms(&mixed_schema(), "__id__", OnUnsupported::Warn).unwrap();
    assert_eq!(plan.key_index, Some(3));
    let shown: Vec<(&str, &str, usize)> =
        plan.edms.iter().map(|(e, i)| (e.tag.as_str(), e.typ.as_str(), *i)).collect();
    assert_eq!(shown, vec![("d:id", "Edm.String", 0), ("d:small", "Edm.Int16", 2)]);

    let e = to_edms(&mixed_schema(), "__id__", OnUnsupported::Error).unwrap_err();
    assert_eq!(e.data_type, DataType::Binary);
    assert_eq!(e.message(), "Unsupported data type: Binary");

    let plan = to_edms(&mixed_schema(), "nope", OnUnsupported::Warn).unwrap();
    assert_eq!(plan.key_index, None);
    assert_eq!(plan.edms.len(), 3);

    // The key column itself is never shown, so its type does not matter here.
    let plan = to_edms(&mixed_schema(), "blob", OnUnsupported::Error).unwrap();
    assert_eq!(plan.key_index, Some(1));
    assert_eq!(plan.edms.len(), 3);
}

#[test]
fn strings_are_escaped_and_missing_small_integers_read_zero() {
    let mut info = tickers_info();
    info.on_unsupported = OnUnsupported::Warn;
    let batch = mixed_batch(Cell::Text("a<b&\"c\"".to_string()), Cell::Null);
    let mut w = XmlWriter::new();
    write_atom_entry_from_record(&mixed_schema(), &batch, &info, UPDATED, &mut w).unwrap();
    let body = String::from_utf8(w.into_inner()).unwrap();
    assert!(body.contains(r#"<d:id m:type="Edm.String">a&lt;b&amp;&quot;c&quot;</d:id>"#));
    assert!(body.contains(r#"<d:small m:type="Edm.Int16">0</d:small>"#));
    assert!(!body.contains("d:blob"));
    assert!(body.contains(r#"href="tickers.spy(a&lt;b&amp;&quot;c&quot;)""#));
    assert!(body.contains(
        "<id>http://example.com/odatatickers.spy(a&lt;b&amp;&quot;c&quot;)</id>"
    ));

    info.on_unsupported = OnUnsupported::Error;
    let e = atom_entry_events(&mixed_schema(), &batch, &info, UPDATED).unwrap_err();
    assert!(matches!(e, ODataError::UnsupportedDataType(t) if t.data_type == DataType::Binary));
}

#[test]
fn a_key_without_text_fails_the_request() {
    let schema = Schema::new(vec![
        Field::new("offset", DataType::Int64, false),
        Field::new("__id__", DataType::Binary, false),
    ]);
    let batch = |key: Cell| {
        RecordBatch::new(
            vec![
                Column::new(DataType::Int64, vec![Cell::Int(1)]),
                Column::new(DataType::Binary, vec![key]),
            ],
            1,
        )
    };
    let e = atom_feed_events(&schema, &vec![batch(Cell::Opaque)], &tickers_info(), UPDATED)
        .unwrap_err();
    assert!(matches!(e, ODataError::UnsupportedDataType(t) if t.data_type == DataType::Binary));
    let ok = atom_feed_events(&schema, &vec![batch(Cell::Null)], &tickers_info(), UPDATED);
    assert!(ok.is_ok());
}

#[test]
fn rows_need_a_key_column() {
    let schema = Schema::new(vec![Field::new("offset", DataType::Int64, false)]);
    let batch = |n: usize| {
        RecordBatch::new(vec![Column::new(DataType::Int64, vec![Cell::Int(1); n])], n)
    };
    assert!(atom_feed_events(&schema, &vec![batch(0)], &tickers_info(), UPDATED).is_ok());
    let e = atom_feed_events(&schema, &vec![batch(1)], &tickers_info(), UPDATED).unwrap_err();
    assert!(matches!(e, ODataError::KeyColumnNotAssigned(_)));
    assert_eq!(e.status_code(), 501);
}

#[test]
fn batches_must_match_the_schema() {
    let short = RecordBatch::new(vec![Column::new(DataType::Int64, vec![Cell::Int(1)])], 1);
    let ragged = RecordBatch::new(
        vec![
            Column::new(DataType::Int64, vec![Cell::Int(1)]),
            Column::new(DataType::Float64, vec![]),
            Column::new(DataType::Int64, vec![Cell::Int(1)]),
        ],
        1,
    );
    let mistyped = RecordBatch::new(
        vec![
            Column::new(DataType::Int32, vec![Cell::Int(1)]),
            Column::new(DataType::Float64, vec![Cell::Float("1".to_string())]),
            Column::new(DataType::Int64, vec![Cell::Int(1)]),
        ],
        1,
    );
    let misfit = RecordBatch::new(
        vec![
            Column::new(DataType::Int64, vec![Cell::Text("1".to_string())]),
            Column::new(DataType::Float64, vec![Cell::Float("1".to_string())]),
            Column::new(DataType::Int64, vec![Cell::Int(1)]),
        ],
        1,
    );
    for bad in [short, ragged, mistyped, misfit] {
        assert!(!bad.conforms_to(&tickers_schema()));
        let e = atom_feed_events(&tickers_schema(), &vec![bad.clone()], &tickers_info(), UPDATED)
            .unwrap_err();
        assert!(matches!(e, ODataError::Internal(_)));
        let e = atom_entry_events(&tickers_schema(), &bad, &tickers_info(), UPDATED).unwrap_err();
        assert!(matches!(e, ODataError::Internal(_)));
    }
    let e = atom_entry_events(&tickers_schema(), &tickers_rows(&[]), &tickers_info(), UPDATED)
        .unwrap_err();
    assert!(matches!(e, ODataError::Internal(_)));
}

#[test]
fn an_update_time_out_of_range_is_an_internal_error() {
    let e = atom_feed_events(&tickers_schema(), &vec![], &tickers_info(), i64::MAX).unwrap_err();
    assert!(matches!(&e, ODataError::Internal(i) if i.source == "Update time is out of range"));
}

fn column_of(data_type: DataType, cell: Cell) -> Column {
    Column::new(data_type, vec![cell])
}

#[test]
fn test_encode_primitive_dyn() {
    let values = Column::new(DataType::Int64, vec![Cell::Int(1), Cell::Int(2), Cell::Int(3)]);
    let result = encode_primitive_dyn(&values, 0).unwrap();
    assert_eq!(result, "1");

    let values = Column::new(DataType::Date64, vec![Cell::Int(1726012800000)]);
    let result = encode_primitive_dyn(&values, 0).unwrap();
    assert_eq!(result, "2024-09-11T00:00:00.000Z");
}

#[test]
fn every_kind_of_cell_has_its_text() {
    let text = |t: DataType, c: Cell| encode_primitive_dyn(&column_of(t, c), 0).unwrap();
    assert_eq!(text(DataType::Boolean, Cell::Boolean(true)), "true");
    assert_eq!(text(DataType::Boolean, Cell::Boolean(false)), "false");
    assert_eq!(text(DataType::Int8, Cell::Int(-128)), "-128");
    assert_eq!(text(DataType::Int16, Cell::Int(32767)), "32767");
    assert_eq!(text(DataType::Int32, Cell::Int(-2147483648)), "-2147483648");
    assert_eq!(text(DataType::Int64, Cell::Int(i64::MIN)), "-9223372036854775808");
    assert_eq!(text(DataType::Int64, Cell::Int(i64::MAX)), "9223372036854775807");
    assert_eq!(text(DataType::Int64, Cell::Int(0)), "0");
    assert_eq!(text(DataType::UInt8, Cell::UInt(255)), "255");
    assert_eq!(text(DataType::UInt16, Cell::UInt(10)), "10");
    assert_eq!(text(DataType::UInt32, Cell::UInt(4294967295)), "4294967295");
    assert_eq!(text(DataType::UInt64, Cell::UInt(u64::MAX)), "18446744073709551615");
    assert_eq!(text(DataType::Float16, Cell::Float(1.5f32.to_string())), "1.5");
    assert_eq!(text(DataType::Float32, Cell::Float(0.1f32.to_string())), "0.1");
    assert_eq!(text(DataType::Float64, Cell::Float(135.5625f64.to_string())), "135.5625");
    assert_eq!(text(DataType::Utf8, Cell::Text("a&b".to_string())), "a&amp;b");
    assert_eq!(text(DataType::LargeUtf8, Cell::Text("<'>".to_string())), "&lt;&apos;&gt;");
    assert_eq!(
        text(DataType::Timestamp(TimeUnit::Millisecond), Cell::Int(947638923004)),
        "2000-01-12T01:02:03.004Z"
    );
    assert_eq!(
        text(DataType::Timestamp(TimeUnit::Microsecond), Cell::Int(-1)),
        "1969-12-31T23:59:59.999Z"
    );
    assert_eq!(
        text(DataType::Timestamp(TimeUnit::Microsecond), Cell::Int(1_726_012_800_123_999)),
        "2024-09-11T00:00:00.123Z"
    );
    assert_eq!(
        text(DataType::Timestamp(TimeUnit::Second), Cell::Int(1_726_012_800)),
        "2024-09-11T00:00:00.000Z"
    );
    assert_eq!(
        text(DataType::Timestamp(TimeUnit::Nanosecond), Cell::Int(-1_000_001)),
        "1969-12-31T23:59:59.998Z"
    );
    assert_eq!(
        text(DataType::Timestamp(TimeUnit::Nanosecond), Cell::Int(i64::MIN)),
        "1677-09-21T00:12:43.145Z"
    );
    assert_eq!(text(DataType::Date64, Cell::Int(0)), "1970-01-01T00:00:00.000Z");
    assert_eq!(text(DataType::Date32, Cell::Int(19977)), "2024-09-11T00:00:00.000Z");
    assert_eq!(text(DataType::Date32, Cell::Int(-1)), "1969-12-31T00:00:00.000Z");
}

#[test]
fn missing_values_read_null_but_zero_in_small_signed_columns() {
    let text = |t: DataType| encode_primitive_dyn(&column_of(t, Cell::Null), 0).unwrap();
    assert_eq!(text(DataType::Int8), "0");
    assert_eq!(text(DataType::Int16), "0");
    for t in [
        DataType::Null,
        DataType::Boolean,
        DataType::Int32,
        DataType::Int64,
        DataType::UInt8,
        DataType::UInt16,
        DataType::UInt32,
        DataType::UInt64,
        DataType::Float16,
        DataType::Float32,
        DataType::Float64,
        DataType::Timestamp(TimeUnit::Second),
        DataType::Date32,
        DataType::Date64,
        DataType::Utf8,
        DataType::LargeUtf8,
        DataType::Binary,
        DataType::Decimal128(10, 2),
        DataType::List,
    ] {
        assert_eq!(text(t), "null", "{t:?}");
    }
}

#[test]
fn values_without_text_give_their_type_back() {
    for t in [
        DataType::Time32(TimeUnit::Second),
        DataType::Time64(TimeUnit::Nanosecond),
        DataType::Duration(TimeUnit::Millisecond),
        DataType::Interval(IntervalUnit::DayTime),
        DataType::Binary,
        DataType::FixedSizeBinary(16),
        DataType::LargeBinary,
        DataType::BinaryView,
        DataType::Utf8View,
        DataType::List,
        DataType::FixedSizeList(3),
        DataType::LargeList,
        DataType::ListView,
        DataType::LargeListView,
        DataType::Struct,
        DataType::Union,
        DataType::Dictionary,
        DataType::Decimal128(10, 2),
        DataType::Decimal256(40, -3),
        DataType::MapEntries,
        DataType::RunEndEncoded,
    ] {
        let e = encode_primitive_dyn(&column_of(t, Cell::Opaque), 0).unwrap_err();
        assert_eq!(e.data_type, t);
    }
    let far = encode_primitive_dyn(&column_of(DataType::Date64, Cell::Int(i64::MAX)), 0);
    assert_eq!(far.unwrap_err().data_type, DataType::Date64);
    let far = encode_primitive_dyn(
        &column_of(DataType::Timestamp(TimeUnit::Second), Cell::Int(i64::MAX / 1000 + 1)),
        0,
    );
    assert_eq!(far.unwrap_err().data_type, DataType::Timestamp(TimeUnit::Second));
    let far = encode_primitive_dyn(&column_of(DataType::Date32, Cell::Int(i64::MAX)), 0);
    assert_eq!(far.unwrap_err().data_type, DataType::Date32);
}

#[test]
fn a_cell_has_its_text_before_and_after_escaping() {
    let col = column_of(DataType::Utf8, Cell::Text("a&b".to_string()));
    assert_eq!(primitive_text(&col, 0).unwrap(), "a&b");
    assert_eq!(encode_primitive_dyn(&col, 0).unwrap(), "a&amp;b");
    let col = column_of(DataType::Int64, Cell::Int(7));
    assert_eq!(primitive_text(&col, 0).unwrap(), "7");
}

#[test]
fn cells_fit_the_columns_of_their_kind_and_width() {
    assert!(Cell::Null.fits(DataType::Binary));
    assert!(Cell::Null.fits(DataType::Null));
    assert!(Cell::Boolean(true).fits(DataType::Boolean));
    assert!(!Cell::Boolean(true).fits(DataType::Int8));
    assert!(Cell::Int(127).fits(DataType::Int8));
    assert!(!Cell::Int(128).fits(DataType::Int8));
    assert!(Cell::Int(-32768).fits(DataType::Int16));
    assert!(!Cell::Int(-32769).fits(DataType::Int16));
    assert!(Cell::Int(i64::MIN).fits(DataType::Int64));
    assert!(!Cell::Int(1 << 31).fits(DataType::Date32));
    assert!(Cell::Int(1 << 31).fits(DataType::Date64));
    assert!(Cell::Int(1 << 40).fits(DataType::Timestamp(TimeUnit::Nanosecond)));
    assert!(!Cell::Int(1).fits(DataType::UInt8));
    assert!(Cell::UInt(255).fits(DataType::UInt8));
    assert!(!Cell::UInt(256).fits(DataType::UInt8));
    assert!(Cell::UInt(u64::MAX).fits(DataType::UInt64));
    assert!(!Cell::UInt(1 << 32).fits(DataType::UInt32));
    assert!(Cell::Float("1.5".to_string()).fits(DataType::Float16));
    assert!(!Cell::Float("1.5".to_string()).fits(DataType::Utf8));
    assert!(Cell::Text("x".to_string()).fits(DataType::LargeUtf8));
    assert!(!Cell::Text("x".to_string()).fits(DataType::Utf8View));
    assert!(Cell::Opaque.fits(DataType::Utf8View));
    assert!(Cell::Opaque.fits(DataType::Decimal128(10, 2)));
    assert!(!Cell::Opaque.fits(DataType::Null));
    assert!(!Cell::Opaque.fits(DataType::Int64));
    assert!(Column::new(DataType::Int8, vec![Cell::Null, Cell::Int(1)]).is_wf());
    assert!(!Column::new(DataType::Int8, vec![Cell::Null, Cell::UInt(1)]).is_wf());
}

#[test]
fn the_text_of_a_float_is_escaped_like_a_string() {
    let col = column_of(DataType::Float64, Cell::Float("1<2&3".to_string()));
    assert_eq!(encode_primitive_dyn(&col, 0).unwrap(), "1&lt;2&amp;3");
    assert_eq!(primitive_text(&col, 0).unwrap(), "1<2&3");
    for text in ["135.5625", "-0.1", "NaN", "inf", "-inf", "1e300"] {
        let col = column_of(DataType::Float32, Cell::Float(text.to_string()));
        assert_eq!(encode_primitive_dyn(&col, 0).unwrap(), text);
    }
}

#[test]
fn the_fields_left_out_are_told_by_position() {
    assert_eq!(unmapped_fields(&mixed_schema(), Some("__id__")), vec![1]);
    assert_eq!(unmapped_fields(&mixed_schema(), None), vec![1]);
    assert_eq!(unmapped_fields(&mixed_schema(), Some("blob")), Vec::<usize>::new());
    assert_eq!(unmapped_fields(&tickers_schema(), Some("__id__")), Vec::<usize>::new());
    let schema = Schema::new(vec![
        Field::new("a", DataType::Binary, true),
        Field::new("b", DataType::Int8, true),
        Field::new("c", DataType::Null, true),
        Field::new("d", DataType::Decimal128(10, 2), true),
        Field::new("c", DataType::Struct, true),
    ]);
    assert_eq!(unmapped_fields(&schema, None), vec![0, 2, 3, 4]);
    assert_eq!(unmapped_fields(&schema, Some("c")), vec![0, 3]);
    assert_eq!(unmapped_fields(&Schema::new(vec![]), Some("c")), Vec::<usize>::new());
    let plan = to_edms(&schema, "c", OnUnsupported::Warn).unwrap();
    let shown: Vec<usize> = plan.edms.iter().map(|(_, i)| *i).collect();
    assert_eq!(shown, vec![1]);
}

#[test]
fn a_failure_leaves_the_writer_as_it_was() {
    let mut w = XmlWriter::new();
    write_atom_feed_from_records(&tickers_schema(), &vec![], &tickers_info(), UPDATED, &mut w)
        .unwrap();
    let before = w.into_inner();

    let mut info = tickers_info();
    info.collection_base_url = "ftp://h/t".to_string();
    let failures: Vec<(Schema, Vec<RecordBatch>, CollectionInfo, i64)> = vec![
        (tickers_schema(), vec![], info, UPDATED),
        (tickers_schema(), vec![], tickers_info(), i64::MAX),
        (mixed_schema(), vec![], tickers_info(), UPDATED),
        (
            tickers_schema(),
            vec![RecordBatch::new(vec![], 1)],
            tickers_info(),
            UPDATED,
        ),
    ];
    for (schema, batches, info, updated) in failures {
        let mut w = XmlWriter::new();
        write_atom_feed_from_records(&tickers_schema(), &vec![], &tickers_info(), UPDATED, &mut w)
            .unwrap();
        assert!(write_atom_feed_from_records(&schema, &batches, &info, updated, &mut w).is_err());
        assert_eq!(w.into_inner(), before);
        let mut w = XmlWriter::new();
        let batch = batches.first().cloned().unwrap_or(RecordBatch::new(vec![], 0));
        assert!(write_atom_entry_from_record(&schema, &batch, &info, updated, &mut w).is_err());
        assert!(w.into_inner().is_empty());
    }
}

#[test]
fn writing_twice_ends_the_same_way() {
    let write = |batches: &Vec<RecordBatch>, updated: i64| {
        let mut w = XmlWriter::new();
        let r = write_atom_feed_from_records(
            &tickers_schema(),
            batches,
            &tickers_info(),
            updated,
            &mut w,
        );
        (r.map_err(|e| format!("{e:?}")), w.into_inner())
    };
    let rows = vec![tickers_rows(&[(0, "135.5625"), (1, "134.5937")])];
    assert_eq!(write(&rows, UPDATED), write(&rows, UPDATED));
    assert!(write(&rows, UPDATED).0.is_ok());
    assert_eq!(write(&rows, i64::MAX), write(&rows, i64::MAX));
    assert!(write(&rows, i64::MAX).0.is_err());
}
