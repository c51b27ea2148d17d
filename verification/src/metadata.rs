//! The CSDL document tree of the metadata document, and the mapping from
//! physical column types to EDM primitive types.
use vstd::prelude::*;
use crate::error::UnsupportedDataType;
use crate::schema::DataType;

verus! {

/// The namespace of the `edmx` prefix.
pub open spec fn edmx_namespace() -> Seq<char> {
    "http://schemas.microsoft.com/ado/2007/06/edmx"@
}

/// The namespace of the `m` prefix.
pub open spec fn data_services_namespace() -> Seq<char> {
    "http://schemas.microsoft.com/ado/2007/08/dataservices/metadata"@
}

/// The namespace of a schema.
pub open spec fn edm_namespace() -> Seq<char> {
    "http://schemas.microsoft.com/ado/2009/11/edm"@
}

/// The root of the metadata document.
#[derive(Debug)]
pub struct Edmx {
    pub ds: DataServices,
    pub ns_edmx: String,
    pub version: String,
}

impl Edmx {
    /// The document around the given data services, version 1.0.
    pub fn new(ds: DataServices) -> (r: Edmx)
        ensures
            r.ds == ds,
            r.ns_edmx@ == edmx_namespace(),
            r.version@ == "1.0"@,
    {
        Edmx {
            ds,
            ns_edmx: "http://schemas.microsoft.com/ado/2007/06/edmx".to_owned(),
            version: "1.0".to_owned(),
        }
    }
}

/// The data services of a metadata document: its schemas and the protocol
/// versions.
#[derive(Debug)]
pub struct DataServices {
    pub schemas: Vec<Schema>,
    pub ns_m: String,
    pub version: String,
    pub max_version: String,
}

impl DataServices {
    /// The data services with the given schemas, for version 3.0 of the
    /// protocol.
    pub fn new(schemas: Vec<Schema>) -> (r: DataServices)
        ensures
            r.schemas == schemas,
            r.ns_m@ == data_services_namespace(),
            r.version@ == "3.0"@,
            r.max_version@ == "3.0"@,
    {
        DataServices {
            schemas,
            ns_m: "http://schemas.microsoft.com/ado/2007/08/dataservices/metadata".to_owned(),
            version: "3.0".to_owned(),
            max_version: "3.0".to_owned(),
        }
    }
}

/// One schema: a namespace with its entity types and containers.
#[derive(Debug)]
pub struct Schema {
    pub namespace: String,
    pub entity_types: Vec<EntityType>,
    pub entity_containers: Vec<EntityContainer>,
    pub ns: String,
}

impl Schema {
    /// The schema of the given namespace, types and containers.
    pub fn new(
        namespace: String,
        entity_types: Vec<EntityType>,
        entity_containers: Vec<EntityContainer>,
    ) -> (r: Schema)
        ensures
            r.namespace == namespace,
            r.entity_types == entity_types,
            r.entity_containers == entity_containers,
            r.ns@ == edm_namespace(),
    {
        Schema {
            namespace,
            entity_types,
            entity_containers,
            ns: "http://schemas.microsoft.com/ado/2009/11/edm".to_owned(),
        }
    }
}

/// The type of a collection's entities: its key and its properties.
#[derive(Debug)]
pub struct EntityType {
    pub name: String,
    pub key: EntityKey,
    pub properties: Vec<Property>,
}

/// The key of an entity type: references to its key properties.
#[derive(Debug)]
pub struct EntityKey {
    pub key: Vec<PropertyRef>,
}

impl EntityKey {
    /// The key made of the given references.
    pub fn new(key: Vec<PropertyRef>) -> (r: EntityKey)
        ensures
            r.key == key,
    {
        EntityKey { key }
    }
}

/// A reference to a property by its name.
#[derive(Debug)]
pub struct PropertyRef {
    pub name: String,
}

/// One schema field as the metadata document shows it.
#[derive(Debug)]
pub struct Property {
    pub name: String,
    pub typ: String,
    pub nullable: bool,
    pub fixed_length: Option<bool>,
    pub unicode: Option<bool>,
}

/// What a property shows, with its texts as character sequences.
pub struct PropertyView {
    pub name: Seq<char>,
    pub typ: Seq<char>,
    pub nullable: bool,
    pub fixed_length: Option<bool>,
    pub unicode: Option<bool>,
}

impl View for Property {
    type V = PropertyView;

    open spec fn view(&self) -> PropertyView {
        PropertyView {
            name: self.name@,
            typ: self.typ@,
            nullable: self.nullable,
            fixed_length: self.fixed_length,
            unicode: self.unicode,
        }
    }
}

impl Property {
    /// A property of a primitive type.
    pub fn primitive(name: &str, typ: &str, nullable: bool) -> (r: Property)
        ensures
            r@ == (PropertyView {
                name: name@,
                typ: typ@,
                nullable,
                fixed_length: None,
                unicode: None,
            }),
    {
        Property {
            name: name.to_owned(),
            typ: typ.to_owned(),
            nullable,
            fixed_length: None,
            unicode: None,
        }
    }

    /// A property of a string type: of variable length, in Unicode.
    pub fn string(name: &str, typ: &str, nullable: bool) -> (r: Property)
        ensures
            r@ == (PropertyView {
                name: name@,
                typ: typ@,
                nullable,
                fixed_length: Some(false),
                unicode: Some(true),
            }),
    {
        Property {
            name: name.to_owned(),
            typ: typ.to_owned(),
            nullable,
            fixed_length: Some(false),
            unicode: Some(true),
        }
    }
}

/// An entity type, with its texts as character sequences.
pub struct EntityTypeView {
    pub name: Seq<char>,
    /// The names of the key properties.
    pub key: Seq<Seq<char>>,
    pub properties: Seq<PropertyView>,
}

/// A list of properties, with their texts as character sequences.
pub open spec fn properties_view(props: Seq<Property>) -> Seq<PropertyView> {
    Seq::new(props.len(), |i: int| props[i]@)
}

/// The names that a list of references refers to.
pub open spec fn refs_view(refs: Seq<PropertyRef>) -> Seq<Seq<char>> {
    Seq::new(refs.len(), |i: int| refs[i].name@)
}

impl View for EntityType {
    type V = EntityTypeView;

    open spec fn view(&self) -> EntityTypeView {
        EntityTypeView {
            name: self.name@,
            key: refs_view(self.key.key@),
            properties: properties_view(self.properties@),
        }
    }
}

/// A list of entity types, with their texts as character sequences.
pub open spec fn entity_types_view(types: Seq<EntityType>) -> Seq<EntityTypeView> {
    Seq::new(types.len(), |i: int| types[i]@)
}

/// An entity set, with its texts as character sequences.
pub struct EntitySetView {
    pub name: Seq<char>,
    pub entity_type: Seq<char>,
}

impl View for EntitySet {
    type V = EntitySetView;

    open spec fn view(&self) -> EntitySetView {
        EntitySetView { name: self.name@, entity_type: self.entity_type@ }
    }
}

/// A list of entity sets, with their texts as character sequences.
pub open spec fn entity_sets_view(sets: Seq<EntitySet>) -> Seq<EntitySetView> {
    Seq::new(sets.len(), |i: int| sets[i]@)
}

/// A container of entity sets.
#[derive(Debug)]
pub struct EntityContainer {
    pub name: String,
    pub is_default: bool,
    pub entity_set: Vec<EntitySet>,
}

/// A collection as the metadata document lists it: its name and the
/// qualified name of its entity type.
#[derive(Debug)]
pub struct EntitySet {
    pub name: String,
    pub entity_type: String,
}

/// The EDM primitive type that stands for a physical column type, if any.
pub open spec fn edm_type_of(dt: DataType) -> Option<Seq<char>> {
    match dt {
        DataType::Boolean => Some("Edm.Boolean"@),
        DataType::Int8 | DataType::Int16 | DataType::UInt8 | DataType::UInt16 => Some(
            "Edm.Int16"@,
        ),
        DataType::Int32 | DataType::UInt32 => Some("Edm.Int32"@),
        DataType::Int64 | DataType::UInt64 => Some("Edm.Int64"@),
        DataType::Utf8 | DataType::LargeUtf8 => Some("Edm.String"@),
        DataType::Float16 | DataType::Float32 => Some("Edm.Single"@),
        DataType::Float64 => Some("Edm.Double"@),
        DataType::Timestamp(_) | DataType::Date32 | DataType::Date64 => Some("Edm.DateTime"@),
        _ => None,
    }
}

/// Maps a physical column type to its EDM primitive type. A type without a
/// mapping is reported back in the error.
pub fn to_edm_type(dt: &DataType) -> (r: Result<&'static str, UnsupportedDataType>)
    ensures
        match r {
            Ok(name) => edm_type_of(*dt) == Some(name@),
            Err(e) => edm_type_of(*dt) is None && e.data_type == *dt,
        },
{
    match dt {
        DataType::Boolean => Ok("Edm.Boolean"),
        DataType::Int8 => Ok("Edm.Int16"),
        DataType::Int16 => Ok("Edm.Int16"),
        DataType::Int32 => Ok("Edm.Int32"),
        DataType::Int64 => Ok("Edm.Int64"),
        DataType::UInt8 => Ok("Edm.Int16"),
        DataType::UInt16 => Ok("Edm.Int16"),
        DataType::UInt32 => Ok("Edm.Int32"),
        DataType::UInt64 => Ok("Edm.Int64"),
        DataType::Utf8 => Ok("Edm.String"),
        DataType::LargeUtf8 => Ok("Edm.String"),
        DataType::Float16 => Ok("Edm.Single"),
        DataType::Float32 => Ok("Edm.Single"),
        DataType::Float64 => Ok("Edm.Double"),
        DataType::Timestamp(_) => Ok("Edm.DateTime"),
        DataType::Date32 => Ok("Edm.DateTime"),
        DataType::Date64 => Ok("Edm.DateTime"),
        DataType::Null
        | DataType::Utf8View
        | DataType::Time32(_)
        | DataType::Time64(_)
        | DataType::Duration(_)
        | DataType::Interval(_)
        | DataType::Binary
        | DataType::BinaryView
        | DataType::FixedSizeBinary(_)
        | DataType::LargeBinary
        | DataType::List
        | DataType::FixedSizeList(_)
        | DataType::LargeList
        | DataType::ListView
        | DataType::LargeListView
        | DataType::Struct
        | DataType::Union
        | DataType::Dictionary
        | DataType::Decimal128(_, _)
        | DataType::Decimal256(_, _)
        | DataType::MapEntries
        | DataType::RunEndEncoded => Err(UnsupportedDataType::new(*dt)),
    }
}

} // verus!
