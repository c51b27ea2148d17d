//! What each request is answered with: the service document, the metadata
//! document, and the feed or entry of a collection.
use vstd::prelude::*;
use vstd::string::*;
use crate::atom::{atom_entry_events, atom_feed_events, entry_document, events_result, feed_document};
use crate::collection::CollectionAddr;
use crate::context::{CollectionInfo, OnUnsupported, DEFAULT_NAMESPACE};
use crate::error::{ErrorKind, ODataError, UnsupportedDataType};
use crate::metadata::{
    data_services_namespace, edm_namespace, edm_type_of, edmx_namespace, entity_sets_view,
    entity_types_view, properties_view, to_edm_type, DataServices, Edmx, EntityContainer,
    EntityKey, EntitySet, EntitySetView, EntityType, EntityTypeView, Property, PropertyRef,
    PropertyView,
};
use crate::record::{total_rows, RecordBatch};
use crate::schema::{DataType, Field, Schema};
use crate::service::{app_namespace, atom_namespace, Collection, Service, Workspace};
use crate::xml::{events_view, lemma_document_is_text, rendered_text, EventView, XmlEvent, XmlWriter};

verus! {

/// The media type of a feed and of an entry.
pub const MEDIA_TYPE_ATOM: &'static str = "application/atom+xml;type=feed;charset=utf-8";

/// The media type of the service and metadata documents.
pub const MEDIA_TYPE_XML: &'static str = "application/xml;charset=utf-8";

/// What a request is answered with.
#[derive(Debug, Clone, PartialEq, Eq)]
pub struct Response {
    pub status: u16,
    pub content_type: Option<String>,
    pub body: String,
}

/// An answer, with its texts as character sequences.
pub struct ResponseView {
    pub status: int,
    pub content_type: Option<Seq<char>>,
    pub body: Seq<char>,
}

impl View for Response {
    type V = ResponseView;

    open spec fn view(&self) -> ResponseView {
        ResponseView {
            status: self.status as int,
            content_type: match self.content_type {
                Some(t) => Some(t@),
                None => None,
            },
            body: self.body@,
        }
    }
}

/// The entries of a workspace: one per name, with the name as address and as
/// title.
pub open spec fn collections_view(collections: Seq<Collection>) -> Seq<(Seq<char>, Seq<char>)> {
    Seq::new(collections.len(), |i: int| (collections[i].href@, collections[i].title@))
}

/// The service document of a service with the given collections: one
/// workspace, titled with the default namespace, with one entry per
/// collection in the order given.
pub fn service_document(base_url: String, collection_names: &Vec<String>) -> (r: Service)
    ensures
        r.base_url == base_url,
        r.ns@ == app_namespace(),
        r.ns_atom@ == atom_namespace(),
        r.workspace.title@ == DEFAULT_NAMESPACE@,
        collections_view(r.workspace.collections@) == Seq::new(
            collection_names@.len(),
            |i: int| (collection_names@[i]@, collection_names@[i]@),
        ),
{
    let mut collections: Vec<Collection> = Vec::new();
    let mut i: usize = 0;
    while i < collection_names.len()
        invariant
            i <= collection_names@.len(),
            collections@.len() == i,
            forall|k: int|
                0 <= k < i ==> (#[trigger] collections@[k]).href@ == collection_names@[k]@
                    && collections@[k].title@ == collection_names@[k]@,
        decreases collection_names@.len() - i,
    {
        collections.push(
            Collection { href: collection_names[i].clone(), title: collection_names[i].clone() },
        );
        i = i + 1;
    }
    assert(collections_view(collections@) =~= Seq::new(
        collection_names@.len(),
        |i: int| (collection_names@[i]@, collection_names@[i]@),
    ));
    Service::new(base_url, Workspace { title: DEFAULT_NAMESPACE.to_owned(), collections })
}

/// What the metadata document has to know of one collection.
#[derive(Debug)]
pub struct CollectionMetadata {
    pub name: String,
    pub schema: Schema,
    /// The key column that the collection declares, or why it declares none.
    pub key_column: Result<String, ODataError>,
    /// What to do with a column of the collection that has no EDM type.
    pub on_unsupported: OnUnsupported,
}

/// The properties of the first `n` fields: every field with its EDM type. A
/// field without a mapping is left out under `Warn`; under `Error` the first
/// such field's type is the answer.
pub open spec fn mapped_properties(
    fields: Seq<Field>,
    policy: OnUnsupported,
    n: int,
) -> Result<Seq<PropertyView>, DataType>
    decreases n,
{
    if n <= 0 {
        Ok(Seq::empty())
    } else {
        match mapped_properties(fields, policy, n - 1) {
            Err(t) => Err(t),
            Ok(prev) => {
                let f = fields[n - 1];
                match edm_type_of(f.data_type) {
                    Some(typ) => Ok(
                        prev.push(
                            PropertyView {
                                name: f.name@,
                                typ,
                                nullable: f.nullable,
                                fixed_length: None,
                                unicode: None,
                            },
                        ),
                    ),
                    None => if policy == OnUnsupported::Error {
                        Err(f.data_type)
                    } else {
                        Ok(prev)
                    },
                }
            },
        }
    }
}

/// The name of the key property: the declared key column; where none is
/// assigned, the first property, or the collection's name if it has no
/// property. Any other failure to tell the key column is the answer.
pub open spec fn key_property(
    collection: CollectionMetadata,
    properties: Seq<PropertyView>,
) -> Result<Seq<char>, ErrorKind> {
    match collection.key_column {
        Ok(name) => Ok(name@),
        Err(e) => if e@ is KeyColumnNotAssigned {
            if properties.len() > 0 {
                Ok(properties[0].name)
            } else {
                Ok(collection.name@)
            }
        } else {
            Err(e@)
        },
    }
}

/// The entity type and the entity set of one collection.
pub open spec fn entity_of(collection: CollectionMetadata) -> Result<
    (EntityTypeView, EntitySetView),
    ErrorKind,
> {
    match mapped_properties(
        collection.schema.fields@,
        collection.on_unsupported,
        collection.schema.fields@.len() as int,
    ) {
        Err(t) => Err(ErrorKind::UnsupportedDataType(t)),
        Ok(properties) => match key_property(collection, properties) {
            Err(e) => Err(e),
            Ok(key) => Ok(
                (
                    EntityTypeView { name: collection.name@, key: seq![key], properties },
                    EntitySetView {
                        name: collection.name@,
                        entity_type: DEFAULT_NAMESPACE@ + "."@ + collection.name@,
                    },
                ),
            ),
        },
    }
}

/// The entity types and entity sets of the first `n` collections.
pub open spec fn entities_of(collections: Seq<CollectionMetadata>, n: int) -> Result<
    (Seq<EntityTypeView>, Seq<EntitySetView>),
    ErrorKind,
>
    decreases n,
{
    if n <= 0 {
        Ok((Seq::empty(), Seq::empty()))
    } else {
        match entities_of(collections, n - 1) {
            Err(e) => Err(e),
            Ok((types, sets)) => match entity_of(collections[n - 1]) {
                Err(e) => Err(e),
                Ok((t, s)) => Ok((types.push(t), sets.push(s))),
            },
        }
    }
}

/// Whether a document is the metadata document of the given entity types and
/// sets: one schema in the default namespace that holds the types and one
/// default container with the sets, under the protocol's namespaces.
pub open spec fn is_metadata_document(
    doc: Edmx,
    types: Seq<EntityTypeView>,
    sets: Seq<EntitySetView>,
) -> bool {
    &&& doc.ns_edmx@ == edmx_namespace()
    &&& doc.version@ == "1.0"@
    &&& doc.ds.ns_m@ == data_services_namespace()
    &&& doc.ds.version@ == "3.0"@
    &&& doc.ds.max_version@ == "3.0"@
    &&& doc.ds.schemas@.len() == 1
    &&& doc.ds.schemas@[0].namespace@ == DEFAULT_NAMESPACE@
    &&& doc.ds.schemas@[0].ns@ == edm_namespace()
    &&& entity_types_view(doc.ds.schemas@[0].entity_types@) == types
    &&& doc.ds.schemas@[0].entity_containers@.len() == 1
    &&& doc.ds.schemas@[0].entity_containers@[0].name@ == DEFAULT_NAMESPACE@
    &&& doc.ds.schemas@[0].entity_containers@[0].is_default
    &&& entity_sets_view(doc.ds.schemas@[0].entity_containers@[0].entity_set@) == sets
}

proof fn lemma_properties_error_stays(fields: Seq<Field>, policy: OnUnsupported, n: int, m: int)
    requires
        n <= m,
        mapped_properties(fields, policy, n) is Err,
    ensures
        mapped_properties(fields, policy, m) == mapped_properties(fields, policy, n),
    decreases m - n,
{
    if n < m {
        lemma_properties_error_stays(fields, policy, n, m - 1);
    }
}

proof fn lemma_entities_error_stays(collections: Seq<CollectionMetadata>, n: int, m: int)
    requires
        n <= m,
        entities_of(collections, n) is Err,
    ensures
        entities_of(collections, m) == entities_of(collections, n),
    decreases m - n,
{
    if n < m {
        lemma_entities_error_stays(collections, n, m - 1);
    }
}

/// The properties of a schema.
pub fn schema_properties(schema: &Schema, on_unsupported: OnUnsupported) -> (r: Result<
    Vec<Property>,
    UnsupportedDataType,
>)
    ensures
        match r {
            Ok(props) => mapped_properties(
                schema.fields@,
                on_unsupported,
                schema.fields@.len() as int,
            ) == Ok::<Seq<PropertyView>, DataType>(properties_view(props@)),
            Err(e) => mapped_properties(
                schema.fields@,
                on_unsupported,
                schema.fields@.len() as int,
            ) == Err::<Seq<PropertyView>, DataType>(e.data_type),
        },
{
    let mut properties: Vec<Property> = Vec::new();
    let n: usize = schema.fields.len();
    let mut i: usize = 0;
    assert(properties_view(properties@) =~= Seq::<PropertyView>::empty());
    while i < n
        invariant
            n == schema.fields@.len(),
            i <= n,
            mapped_properties(schema.fields@, on_unsupported, i as int) == Ok::<
                Seq<PropertyView>,
                DataType,
            >(properties_view(properties@)),
        decreases n - i,
    {
        let field = &schema.fields[i];
        match to_edm_type(&field.data_type) {
            Ok(typ) => {
                let ghost before = properties@;
                let p = Property::primitive(field.name.as_str(), typ, field.nullable);
                properties.push(p);
                assert(properties_view(properties@) =~= properties_view(before).push(p@));
            },
            Err(err) => {
                match on_unsupported {
                    OnUnsupported::Error => {
                        proof {
                            lemma_properties_error_stays(
                                schema.fields@,
                                on_unsupported,
                                i + 1,
                                n as int,
                            );
                        }
                        return Err(UnsupportedDataType::new(field.data_type));
                    },
                    OnUnsupported::Warn => {},
                }
            },
        }
        i = i + 1;
    }
    Ok(properties)
}

/// The entity type and the entity set of one collection.
fn collection_entity(collection: &CollectionMetadata) -> (r: Result<
    (EntityType, EntitySet),
    ODataError,
>)
    ensures
        match r {
            Ok((t, s)) => entity_of(*collection) == Ok::<
                (EntityTypeView, EntitySetView),
                ErrorKind,
            >((t@, s@)),
            Err(e) => entity_of(*collection) == Err::<(EntityTypeView, EntitySetView), ErrorKind>(
                e@,
            ),
        },
{
    let properties = match schema_properties(&collection.schema, collection.on_unsupported) {
        Ok(p) => p,
        Err(e) => {
            return Err(ODataError::UnsupportedDataType(e));
        },
    };
    let property_ref_name: String = match &collection.key_column {
        Ok(kc) => kc.clone(),
        Err(ODataError::KeyColumnNotAssigned(_)) => {
            if properties.len() > 0 {
                properties[0].name.clone()
            } else {
                collection.name.clone()
            }
        },
        Err(err) => {
            return Err(err.duplicate());
        },
    };
    let mut refs: Vec<PropertyRef> = Vec::new();
    refs.push(PropertyRef { name: property_ref_name });
    let entity_type = EntityType {
        name: collection.name.clone(),
        key: EntityKey::new(refs),
        properties,
    };
    let entity_set = EntitySet {
        name: collection.name.clone(),
        entity_type: DEFAULT_NAMESPACE.to_owned().concat(".").concat(collection.name.as_str()),
    };
    assert(entity_type@.key =~= seq![property_ref_name@]);
    Ok((entity_type, entity_set))
}

/// The metadata document of a service: one entity type and one entity set
/// per collection, in the order given, or the first failure met. Each
/// collection's own policy decides on its columns without an EDM type.
pub fn metadata_document(collections: &Vec<CollectionMetadata>) -> (r: Result<Edmx, ODataError>)
    ensures
        match r {
            Ok(doc) => {
                &&& entities_of(collections@, collections@.len() as int) matches Ok((types, sets))
                &&& is_metadata_document(doc, types, sets)
            },
            Err(e) => entities_of(collections@, collections@.len() as int) == Err::<
                (Seq<EntityTypeView>, Seq<EntitySetView>),
                ErrorKind,
            >(e@),
        },
{
    let mut entity_types: Vec<EntityType> = Vec::new();
    let mut entity_set: Vec<EntitySet> = Vec::new();
    let n: usize = collections.len();
    let mut i: usize = 0;
    assert(entity_types_view(entity_types@) =~= Seq::<EntityTypeView>::empty());
    assert(entity_sets_view(entity_set@) =~= Seq::<EntitySetView>::empty());
    while i < n
        invariant
            n == collections@.len(),
            i <= n,
            entities_of(collections@, i as int) == Ok::<
                (Seq<EntityTypeView>, Seq<EntitySetView>),
                ErrorKind,
            >((entity_types_view(entity_types@), entity_sets_view(entity_set@))),
        decreases n - i,
    {
        match collection_entity(&collections[i]) {
            Ok((t, s)) => {
                let ghost types_before = entity_types@;
                let ghost sets_before = entity_set@;
                entity_types.push(t);
                entity_set.push(s);
                assert(entity_types_view(entity_types@) =~= entity_types_view(types_before).push(
                    t@,
                ));
                assert(entity_sets_view(entity_set@) =~= entity_sets_view(sets_before).push(s@));
            },
            Err(e) => {
                proof {
                    lemma_entities_error_stays(collections@, i + 1, n as int);
                }
                return Err(e);
            },
        }
        i = i + 1;
    }
    let entity_container = EntityContainer {
        name: DEFAULT_NAMESPACE.to_owned(),
        is_default: true,
        entity_set,
    };
    let mut containers: Vec<EntityContainer> = Vec::new();
    containers.push(entity_container);
    let mut schemas: Vec<crate::metadata::Schema> = Vec::new();
    schemas.push(
        crate::metadata::Schema::new(DEFAULT_NAMESPACE.to_owned(), entity_types, containers),
    );
    Ok(Edmx::new(DataServices::new(schemas)))
}

/// What an internal error says of an entity with more than one row.
pub open spec fn unexpected_rows() -> Seq<char> {
    "Unexpected number of rows for an entity"@
}

/// What an internal error says of an entity with more than one batch.
pub open spec fn unexpected_batches() -> Seq<char> {
    "Unexpected number of batches for an entity"@
}

/// The document that answers a request for a collection, or nothing where
/// the entity asked for does not exist.
///
/// An address without a key is answered with the feed. One with a key is
/// answered with the entry of the only row. No row at all is no entity; more
/// than one row, or more than one batch, is a fault of the query engine.
pub open spec fn collection_document(
    by_key: bool,
    schema: Schema,
    batches: Seq<RecordBatch>,
    info: CollectionInfo,
    updated_millis: i64,
) -> Result<Option<Seq<EventView>>, ErrorKind> {
    if !by_key {
        match feed_document(schema, batches, info, updated_millis) {
            Ok(events) => Ok(Some(events)),
            Err(e) => Err(e),
        }
    } else if total_rows(batches, batches.len() as int) > 1 {
        Err(ErrorKind::Internal(unexpected_rows()))
    } else if batches.len() > 1 {
        Err(ErrorKind::Internal(unexpected_batches()))
    } else if batches.len() == 0 || batches[0].num_rows != 1 {
        Ok(None)
    } else {
        match entry_document(schema, batches[0], info, updated_millis) {
            Ok(events) => Ok(Some(events)),
            Err(e) => Err(e),
        }
    }
}

/// A request for an entity resolves to at most one row: it is answered with
/// a document only where the engine found exactly one row, and then with the
/// entry of that row; it is answered with nothing only where the engine found
/// no row.
pub proof fn lemma_entity_is_one_row(
    schema: Schema,
    batches: Seq<RecordBatch>,
    info: CollectionInfo,
    updated_millis: i64,
)
    ensures
        match collection_document(true, schema, batches, info, updated_millis) {
            Ok(Some(events)) => {
                &&& batches.len() == 1
                &&& total_rows(batches, batches.len() as int) == 1
                &&& entry_document(schema, batches[0], info, updated_millis) == Ok::<
                    Seq<EventView>,
                    ErrorKind,
                >(events)
            },
            Ok(None) => total_rows(batches, batches.len() as int) == 0,
            Err(_) => true,
        },
{
    if batches.len() <= 1 {
        reveal_with_fuel(total_rows, 2);
    }
}

/// The answer that carries a document, or that tells that there is none.
pub open spec fn response_of(document: Option<Seq<EventView>>) -> ResponseView {
    match document {
        Some(events) => ResponseView {
            status: 200,
            content_type: Some(MEDIA_TYPE_ATOM@),
            body: rendered_text(events),
        },
        None => ResponseView { status: 404, content_type: None, body: Seq::empty() },
    }
}

/// Whether the batches hold more than one row in all.
fn more_than_one_row(batches: &Vec<RecordBatch>) -> (r: bool)
    ensures
        r == (total_rows(batches@, batches@.len() as int) > 1),
{
    let mut seen: usize = 0;
    let mut i: usize = 0;
    while i < batches.len()
        invariant
            i <= batches@.len(),
            seen <= 1,
            seen == total_rows(batches@, i as int),
        decreases batches@.len() - i,
    {
        let rows: usize = batches[i].num_rows;
        if rows > 1 || (rows == 1 && seen == 1) {
            proof {
                lemma_total_rows_grows(batches@, i + 1, batches@.len() as int);
            }
            return true;
        }
        seen = seen + rows;
        i = i + 1;
    }
    false
}

proof fn lemma_total_rows_grows(batches: Seq<RecordBatch>, n: int, m: int)
    requires
        n <= m,
    ensures
        total_rows(batches, n) <= total_rows(batches, m),
    decreases m - n,
{
    if n < m {
        lemma_total_rows_grows(batches, n, m - 1);
    }
}

/// The events of the document that answers a request for a collection.
pub fn collection_events(
    addr: &CollectionAddr,
    schema: &Schema,
    record_batches: &Vec<RecordBatch>,
    ctx: &CollectionInfo,
    updated_time: i64,
) -> (r: Result<Option<Vec<XmlEvent>>, ODataError>)
    ensures
        match r {
            Ok(Some(events)) => collection_document(
                addr.key is Some,
                *schema,
                record_batches@,
                *ctx,
                updated_time,
            ) == Ok::<Option<Seq<EventView>>, ErrorKind>(Some(events_view(events@))),
            Ok(None) => collection_document(
                addr.key is Some,
                *schema,
                record_batches@,
                *ctx,
                updated_time,
            ) == Ok::<Option<Seq<EventView>>, ErrorKind>(None),
            Err(e) => collection_document(
                addr.key is Some,
                *schema,
                record_batches@,
                *ctx,
                updated_time,
            ) == Err::<Option<Seq<EventView>>, ErrorKind>(e@),
        },
{
    if addr.key.is_none() {
        let events = atom_feed_events(schema, record_batches, ctx, updated_time)?;
        return Ok(Some(events));
    }
    if more_than_one_row(record_batches) {
        return Err(ODataError::internal("Unexpected number of rows for an entity"));
    }
    if record_batches.len() > 1 {
        return Err(ODataError::internal("Unexpected number of batches for an entity"));
    }
    if record_batches.len() == 0 {
        return Ok(None);
    }
    let record_batch = &record_batches[0];
    if record_batch.num_rows != 1 {
        return Ok(None);
    }
    let events = atom_entry_events(schema, record_batch, ctx, updated_time)?;
    Ok(Some(events))
}

/// Answers a request for a collection with its feed, for an address
/// without a key, or with the entry of the entity that the key names.
///
/// The answer is 200 with the document, or 404 without a body where there is
/// no such entity; it fails exactly where there is no document to answer
/// with, and then as `collection_document` says.
pub fn collection_response(
    addr: &CollectionAddr,
    schema: &Schema,
    record_batches: &Vec<RecordBatch>,
    ctx: &CollectionInfo,
    updated_time: i64,
) -> (r: Result<Response, ODataError>)
    ensures
        match r {
            Ok(response) => {
                &&& collection_document(
                    addr.key is Some,
                    *schema,
                    record_batches@,
                    *ctx,
                    updated_time,
                ) matches Ok(document)
                &&& response@ == response_of(document)
            },
            Err(e) => collection_document(
                addr.key is Some,
                *schema,
                record_batches@,
                *ctx,
                updated_time,
            ) == Err::<Option<Seq<EventView>>, ErrorKind>(e@),
        },
{
    let events = match collection_events(addr, schema, record_batches, ctx, updated_time)? {
        Some(events) => events,
        None => {
            return Ok(Response { status: 404, content_type: None, body: String::new() });
        },
    };
    let mut writer = XmlWriter::new();
    writer.write_events(&events)?;
    proof {
        lemma_document_is_text(events_view(events@));
        assert(writer.bytes() =~= crate::xml::rendered_bytes(events_view(events@)));
    }
    match writer.into_string() {
        Some(body) => Ok(
            Response { status: 200, content_type: Some(MEDIA_TYPE_ATOM.to_owned()), body },
        ),
        None => Err(ODataError::internal("The document is not valid UTF-8")),
    }
}

} // verus!
