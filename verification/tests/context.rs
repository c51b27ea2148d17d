use datafusion_odata::atom::atom_feed_events;
use datafusion_odata::collection::CollectionAddr;
use datafusion_odata::context::{
    default_collection_namespace, default_key_column_alias, key_column_not_assigned, Answers,
    CollectionContext, CollectionInfo, OnUnsupported, ServiceContext,
};
use datafusion_odata::error::{CollectionAddressNotAssigned, ODataError};
use datafusion_odata::schema::Schema;

struct Catalog {
    base: String,
    addr: Option<CollectionAddr>,
}

impl ServiceContext for Catalog {
    fn service_base_url(&self) -> String {
        self.base.clone()
    }

    fn on_unsupported_feature(&self) -> OnUnsupported {
        OnUnsupported::Error
    }
}

impl CollectionContext for Catalog {
    fn addr(&self) -> Result<&CollectionAddr, ODataError> {
        self.addr
            .as_ref()
            .ok_or(ODataError::CollectionAddressNotAssigned(CollectionAddressNotAssigned))
    }

    fn service_base_url(&self) -> Result<String, ODataError> {
        Ok(self.base.clone())
    }

    fn collection_base_url(&self) -> Result<String, ODataError> {
        Ok(format!("{}{}", self.base, self.collection_name()?))
    }

    fn collection_name(&self) -> Result<String, ODataError> {
        Ok(self.addr()?.name.clone())
    }

    fn on_unsupported_feature(&self) -> OnUnsupported {
        OnUnsupported::Warn
    }
}

fn catalog(segment: Option<&str>) -> Catalog {
    Catalog {
        base: "http://example.com/odata".to_string(),
        addr: segment.map(|s| CollectionAddr::decode(s).unwrap()),
    }
}

#[test]
fn a_context_has_its_defaults() {
    let ctx = catalog(Some("tickers.spy"));
    assert_eq!(ctx.collection_namespace().unwrap(), "default");
    assert_eq!(ctx.key_column_alias(), "__id__");
    assert!(matches!(ctx.key_column(), Err(ODataError::KeyColumnNotAssigned(_))));
    assert_eq!(ServiceContext::service_base_url(&ctx), "http://example.com/odata");
    assert_eq!(ServiceContext::on_unsupported_feature(&ctx), OnUnsupported::Error);
}

#[test]
fn gather_reads_what_the_encoders_need() {
    let info = CollectionInfo::gather(&catalog(Some("tickers.spy(1)"))).unwrap();
    assert_eq!(
        info,
        CollectionInfo {
            service_base_url: "http://example.com/odata".to_string(),
            collection_base_url: "http://example.com/odatatickers.spy".to_string(),
            collection_name: "tickers.spy".to_string(),
            collection_namespace: "default".to_string(),
            key_column_alias: "__id__".to_string(),
            on_unsupported: OnUnsupported::Warn,
        }
    );
    let events = atom_feed_events(&Schema::new(vec![]), &vec![], &info, 0).unwrap();
    assert_eq!(events.len(), 13);
}

#[test]
fn a_service_level_context_has_no_address() {
    let e = CollectionInfo::gather(&catalog(None)).unwrap_err();
    assert!(matches!(e, ODataError::CollectionAddressNotAssigned(_)));
    assert_eq!(e.status_code(), 501);
}

#[test]
fn the_first_failure_among_the_answers_decides() {
    let answers = |service: bool, collection: bool, name: bool, namespace: bool| Answers {
        service_base_url: if service { Ok("s".to_string()) } else { Err(ODataError::internal("1")) },
        collection_base_url: if collection {
            Ok("c".to_string())
        } else {
            Err(ODataError::internal("2"))
        },
        collection_name: if name { Ok("n".to_string()) } else { Err(ODataError::internal("3")) },
        collection_namespace: if namespace {
            Ok("ns".to_string())
        } else {
            Err(ODataError::internal("4"))
        },
        key_column_alias: "k".to_string(),
        on_unsupported: OnUnsupported::Error,
    };
    let failure = |a: Answers| match CollectionInfo::from_answers(a) {
        Err(ODataError::Internal(e)) => e.source,
        other => panic!("{other:?}"),
    };
    assert_eq!(failure(answers(false, false, false, false)), "1");
    assert_eq!(failure(answers(true, false, false, false)), "2");
    assert_eq!(failure(answers(true, true, false, false)), "3");
    assert_eq!(failure(answers(true, true, true, false)), "4");
    let info = CollectionInfo::from_answers(answers(true, true, true, true)).unwrap();
    assert_eq!(
        info,
        CollectionInfo {
            service_base_url: "s".to_string(),
            collection_base_url: "c".to_string(),
            collection_name: "n".to_string(),
            collection_namespace: "ns".to_string(),
            key_column_alias: "k".to_string(),
            on_unsupported: OnUnsupported::Error,
        }
    );
}

#[test]
fn the_defaults_have_their_values() {
    assert_eq!(default_collection_namespace().unwrap(), "default");
    assert_eq!(default_key_column_alias(), "__id__");
    let e = key_column_not_assigned().unwrap_err();
    assert!(matches!(e, ODataError::KeyColumnNotAssigned(_)));
    assert_eq!(e.status_code(), 501);
    assert_eq!(e.message(), "Key column not assigned");
}

struct Named;

impl CollectionContext for Named {
    fn addr(&self) -> Result<&CollectionAddr, ODataError> {
        Err(ODataError::CollectionAddressNotAssigned(CollectionAddressNotAssigned))
    }

    fn service_base_url(&self) -> Result<String, ODataError> {
        Ok("https://h/".to_string())
    }

    fn collection_base_url(&self) -> Result<String, ODataError> {
        Ok("https://h/t".to_string())
    }

    fn collection_namespace(&self) -> Result<String, ODataError> {
        Ok("mine".to_string())
    }

    fn collection_name(&self) -> Result<String, ODataError> {
        Ok("t".to_string())
    }

    fn key_column_alias(&self) -> String {
        "key".to_string()
    }

    fn key_column(&self) -> Result<String, ODataError> {
        Ok("offset".to_string())
    }

    fn on_unsupported_feature(&self) -> OnUnsupported {
        OnUnsupported::Error
    }
}

#[test]
fn gather_takes_what_a_host_answers_in_place_of_the_defaults() {
    let by_value = CollectionInfo::gather(&Named).unwrap();
    let host: &dyn CollectionContext = &Named;
    let by_interface = CollectionInfo::gather(host).unwrap();
    assert_eq!(by_value, by_interface);
    assert_eq!(
        by_value,
        CollectionInfo {
            service_base_url: "https://h/".to_string(),
            collection_base_url: "https://h/t".to_string(),
            collection_name: "t".to_string(),
            collection_namespace: "mine".to_string(),
            key_column_alias: "key".to_string(),
            on_unsupported: OnUnsupported::Error,
        }
    );
    assert_eq!(Named.key_column().unwrap(), "offset");
}
