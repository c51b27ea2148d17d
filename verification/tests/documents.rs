use datafusion_odata::context::OnUnsupported;
use datafusion_odata::error::{CollectionAddressNotAssigned, KeyColumnNotAssigned, ODataError};
use datafusion_odata::handlers::{
    metadata_document, schema_properties, service_document, CollectionMetadata,
};
use datafusion_odata::metadata::{
    to_edm_type, DataServices, Edmx, EntityKey, Property, PropertyRef,
};
use datafusion_odata::schema::{DataType, Field, IntervalUnit, Schema, TimeUnit};
use datafusion_odata::service::{Service, Workspace};

#[test]
fn test_service() {
    let names = vec!["covid19.canada".to_string(), "tickers.spy".to_string()];
    let service = service_document("http://example.com/odata".to_string(), &names);
    assert_eq!(service.base_url, "http://example.com/odata");
    assert_eq!(service.ns, "http://www.w3.org/2007/app");
    assert_eq!(service.ns_atom, "http://www.w3.org/2005/Atom");
    assert_eq!(service.workspace.title, "default");
    let shown: Vec<(&str, &str)> = service
        .workspace
        .collections
        .iter()
        .map(|c| (c.href.as_str(), c.title.as_str()))
        .collect();
    assert_eq!(
        shown,
        vec![("covid19.canada", "covid19.canada"), ("tickers.spy", "tickers.spy")]
    );
}

#[test]
fn service_without_collections_has_an_empty_workspace() {
    let service = service_document("http://h/".to_string(), &vec![]);
    assert!(service.workspace.collections.is_empty());
    assert_eq!(service.workspace.title, "default");
}

fn tickers() -> CollectionMetadata {
    CollectionMetadata {
        name: "tickers.spy".to_string(),
        schema: Schema::new(vec![
            Field::new("offset", DataType::Int64, true),
            Field::new("op", DataType::Int32, false),
            Field::new("system_time", DataType::Timestamp(TimeUnit::Millisecond), false),
            Field::new("event_time", DataType::Timestamp(TimeUnit::Millisecond), true),
            Field::new("from_symbol", DataType::Utf8, false),
            Field::new("to_symbol", DataType::Utf8, false),
            Field::new("open", DataType::Float64, true),
            Field::new("high", DataType::Float64, true),
            Field::new("low", DataType::Float64, true),
            Field::new("close", DataType::Float64, true),
            Field::new("volume", DataType::Float64, true),
        ]),
        key_column: Err(ODataError::KeyColumnNotAssigned(KeyColumnNotAssigned)),
        on_unsupported: OnUnsupported::Error,
    }
}

fn covid() -> CollectionMetadata {
    CollectionMetadata {
        name: "covid19.canada".to_string(),
        schema: Schema::new(vec![
            Field::new("offset", DataType::Int64, false),
            Field::new("op", DataType::Int32, false),
            Field::new("system_time", DataType::Timestamp(TimeUnit::Millisecond), false),
            Field::new("reported_date", DataType::Timestamp(TimeUnit::Millisecond), false),
            Field::new("province", DataType::Utf8, false),
            Field::new("total_daily", DataType::Int64, false),
        ]),
        key_column: Err(ODataError::KeyColumnNotAssigned(KeyColumnNotAssigned)),
        on_unsupported: OnUnsupported::Error,
    }
}

fn shown(p: &Property) -> (&str, &str, bool, Option<bool>, Option<bool>) {
    (p.name.as_str(), p.typ.as_str(), p.nullable, p.fixed_length, p.unicode)
}

#[test]
fn test_metadata() {
    let doc = metadata_document(&vec![covid(), tickers()]).unwrap();
    assert_eq!(doc.ns_edmx, "http://schemas.microsoft.com/ado/2007/06/edmx");
    assert_eq!(doc.version, "1.0");
    assert_eq!(doc.ds.ns_m, "http://schemas.microsoft.com/ado/2007/08/dataservices/metadata");
    assert_eq!(doc.ds.version, "3.0");
    assert_eq!(doc.ds.max_version, "3.0");
    assert_eq!(doc.ds.schemas.len(), 1);
    let schema = &doc.ds.schemas[0];
    assert_eq!(schema.namespace, "default");
    assert_eq!(schema.ns, "http://schemas.microsoft.com/ado/2009/11/edm");

    assert_eq!(schema.entity_types.len(), 2);
    let covid = &schema.entity_types[0];
    assert_eq!(covid.name, "covid19.canada");
    let key: Vec<&str> = covid.key.key.iter().map(|r| r.name.as_str()).collect();
    assert_eq!(key, vec!["offset"]);
    assert_eq!(
        covid.properties.iter().map(shown).collect::<Vec<_>>(),
        vec![
            ("offset", "Edm.Int64", false, None, None),
            ("op", "Edm.Int32", false, None, None),
            ("system_time", "Edm.DateTime", false, None, None),
            ("reported_date", "Edm.DateTime", false, None, None),
            ("province", "Edm.String", false, None, None),
            ("total_daily", "Edm.Int64", false, None, None),
        ]
    );
    let tickers = &schema.entity_types[1];
    assert_eq!(tickers.name, "tickers.spy");
    let key: Vec<&str> = tickers.key.key.iter().map(|r| r.name.as_str()).collect();
    assert_eq!(key, vec!["offset"]);
    assert_eq!(
        tickers.properties.iter().map(shown).collect::<Vec<_>>(),
        vec![
            ("offset", "Edm.Int64", true, None, None),
            ("op", "Edm.Int32", false, None, None),
            ("system_time", "Edm.DateTime", false, None, None),
            ("event_time", "Edm.DateTime", true, None, None),
            ("from_symbol", "Edm.String", false, None, None),
            ("to_symbol", "Edm.String", false, None, None),
            ("open", "Edm.Double", true, None, None),
            ("high", "Edm.Double", true, None, None),
            ("low", "Edm.Double", true, None, None),
            ("close", "Edm.Double", true, None, None),
            ("volume", "Edm.Double", true, None, None),
        ]
    );

    assert_eq!(schema.entity_containers.len(), 1);
    let container = &schema.entity_containers[0];
    assert_eq!(container.name, "default");
    assert!(container.is_default);
    let sets: Vec<(&str, &str)> = container
        .entity_set
        .iter()
        .map(|s| (s.name.as_str(), s.entity_type.as_str()))
        .collect();
    assert_eq!(
        sets,
        vec![
            ("covid19.canada", "default.covid19.canada"),
            ("tickers.spy", "default.tickers.spy")
        ]
    );
}

#[test]
fn metadata_of_two_columns() {
    let c = CollectionMetadata {
        name: "t".to_string(),
        schema: Schema::new(vec![
            Field::new("offset", DataType::Int64, false),
            Field::new("close", DataType::Float64, true),
        ]),
        key_column: Ok("close".to_string()),
        on_unsupported: OnUnsupported::Error,
    };
    let doc = metadata_document(&vec![c]).unwrap();
    let types = &doc.ds.schemas[0].entity_types;
    assert_eq!(types.len(), 1);
    assert_eq!(
        types[0].properties.iter().map(shown).collect::<Vec<_>>(),
        vec![
            ("offset", "Edm.Int64", false, None, None),
            ("close", "Edm.Double", true, None, None)
        ]
    );
    assert_eq!(types[0].key.key.len(), 1);
    assert_eq!(types[0].key.key[0].name, "close");
}

fn with_blob(
    key_column: Result<String, ODataError>,
    on_unsupported: OnUnsupported,
) -> CollectionMetadata {
    CollectionMetadata {
        name: "files".to_string(),
        schema: Schema::new(vec![
            Field::new("blob", DataType::Binary, true),
            Field::new("name", DataType::Utf8, false),
        ]),
        key_column,
        on_unsupported,
    }
}

#[test]
fn metadata_drops_or_rejects_unsupported_columns() {
    let doc =
        metadata_document(&vec![with_blob(Ok("name".to_string()), OnUnsupported::Warn)]).unwrap();
    let t = &doc.ds.schemas[0].entity_types[0];
    assert_eq!(
        t.properties.iter().map(shown).collect::<Vec<_>>(),
        vec![("name", "Edm.String", false, None, None)]
    );

    let e = metadata_document(&vec![
        tickers(),
        with_blob(Ok("name".to_string()), OnUnsupported::Error),
    ])
    .unwrap_err();
    assert!(matches!(&e, ODataError::UnsupportedDataType(t) if t.data_type == DataType::Binary));
    assert_eq!(e.status_code(), 501);
}

#[test]
fn metadata_follows_the_policy_of_each_collection() {
    let doc = metadata_document(&vec![
        with_blob(Ok("name".to_string()), OnUnsupported::Warn),
        tickers(),
    ])
    .unwrap();
    assert_eq!(doc.ds.schemas[0].entity_types[0].properties.len(), 1);
    assert_eq!(doc.ds.schemas[0].entity_types[1].properties.len(), 11);
}

#[test]
fn metadata_key_falls_back_to_the_first_property_or_the_name() {
    let not_assigned = || Err(ODataError::KeyColumnNotAssigned(KeyColumnNotAssigned));
    let doc =
        metadata_document(&vec![with_blob(not_assigned(), OnUnsupported::Warn)]).unwrap();
    assert_eq!(doc.ds.schemas[0].entity_types[0].key.key[0].name, "name");

    let empty = CollectionMetadata {
        name: "nothing".to_string(),
        schema: Schema::new(vec![Field::new("blob", DataType::Binary, true)]),
        key_column: not_assigned(),
        on_unsupported: OnUnsupported::Warn,
    };
    let doc = metadata_document(&vec![empty]).unwrap();
    let t = &doc.ds.schemas[0].entity_types[0];
    assert!(t.properties.is_empty());
    assert_eq!(t.key.key[0].name, "nothing");
}

#[test]
fn metadata_hands_on_any_other_failure_of_the_key_column() {
    let failed = with_blob(
        Err(ODataError::CollectionAddressNotAssigned(CollectionAddressNotAssigned)),
        OnUnsupported::Warn,
    );
    let e = metadata_document(&vec![failed]).unwrap_err();
    assert!(matches!(e, ODataError::CollectionAddressNotAssigned(_)));

    let failed = with_blob(Err(ODataError::internal("lost")), OnUnsupported::Warn);
    let e = metadata_document(&vec![failed]).unwrap_err();
    assert!(matches!(&e, ODataError::Internal(i) if i.source == "lost"));
}

#[test]
fn metadata_without_collections_is_an_empty_schema() {
    let doc = metadata_document(&vec![]).unwrap();
    assert!(doc.ds.schemas[0].entity_types.is_empty());
    assert!(doc.ds.schemas[0].entity_containers[0].entity_set.is_empty());
}

#[test]
fn schema_properties_keep_the_order_of_the_fields() {
    let schema = Schema::new(vec![
        Field::new("b", DataType::Boolean, true),
        Field::new("a", DataType::UInt8, false),
    ]);
    let props = schema_properties(&schema, OnUnsupported::Error).unwrap();
    assert_eq!(
        props.iter().map(shown).collect::<Vec<_>>(),
        vec![("b", "Edm.Boolean", true, None, None), ("a", "Edm.Int16", false, None, None)]
    );
}

#[test]
fn every_physical_type_has_its_edm_type_or_none() {
    let edm = |t: DataType| to_edm_type(&t).ok();
    assert_eq!(edm(DataType::Boolean), Some("Edm.Boolean"));
    for t in [DataType::Int8, DataType::Int16, DataType::UInt8, DataType::UInt16] {
        assert_eq!(edm(t), Some("Edm.Int16"));
    }
    for t in [DataType::Int32, DataType::UInt32] {
        assert_eq!(edm(t), Some("Edm.Int32"));
    }
    for t in [DataType::Int64, DataType::UInt64] {
        assert_eq!(edm(t), Some("Edm.Int64"));
    }
    for t in [DataType::Float16, DataType::Float32] {
        assert_eq!(edm(t), Some("Edm.Single"));
    }
    assert_eq!(edm(DataType::Float64), Some("Edm.Double"));
    for t in [DataType::Utf8, DataType::LargeUtf8] {
        assert_eq!(edm(t), Some("Edm.String"));
    }
    for t in [
        DataType::Timestamp(TimeUnit::Second),
        DataType::Timestamp(TimeUnit::Millisecond),
        DataType::Timestamp(TimeUnit::Microsecond),
        DataType::Timestamp(TimeUnit::Nanosecond),
        DataType::Date32,
        DataType::Date64,
    ] {
        assert_eq!(edm(t), Some("Edm.DateTime"));
    }
    for t in [
        DataType::Null,
        DataType::Utf8View,
        DataType::Time32(TimeUnit::Second),
        DataType::Time64(TimeUnit::Nanosecond),
        DataType::Duration(TimeUnit::Millisecond),
        DataType::Interval(IntervalUnit::DayTime),
        DataType::Binary,
        DataType::BinaryView,
        DataType::FixedSizeBinary(16),
        DataType::LargeBinary,
        DataType::List,
        DataType::FixedSizeList(3),
        DataType::LargeList,
        DataType::ListView,
        DataType::LargeListView,
        DataType::Struct,
        DataType::Union,
        DataType::Dictionary,
        DataType::Decimal128(10, 2),
        DataType::Decimal256(40, -3),
        DataType::MapEntries,
        DataType::RunEndEncoded,
    ] {
        assert_eq!(to_edm_type(&t).unwrap_err().data_type, t);
    }
}

#[test]
fn constructors_fill_in_the_fixed_parts() {
    let key = EntityKey::new(vec![PropertyRef { name: "id".to_string() }]);
    assert_eq!(key.key.len(), 1);
    let p = Property::primitive("a", "Edm.Int32", true);
    assert_eq!(shown(&p), ("a", "Edm.Int32", true, None, None));
    let p = Property::string("s", "Edm.String", false);
    assert_eq!(shown(&p), ("s", "Edm.String", false, Some(false), Some(true)));
    let doc = Edmx::new(DataServices::new(vec![]));
    assert_eq!(doc.version, "1.0");
    assert!(doc.ds.schemas.is_empty());
    let s = Service::new(
        "http://h/".to_string(),
        Workspace { title: "w".to_string(), collections: vec![] },
    );
    assert_eq!(s.base_url, "http://h/");
    assert_eq!(s.workspace.title, "w");
}
