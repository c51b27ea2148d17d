//! The CSDL document tree of the metadata document, in the EDM namespace of
//! 2008.
use vstd::prelude::*;
use crate::metadata::{data_services_namespace, edmx_namespace};

verus! {

/// The namespace of a schema.
pub open spec fn edm_namespace() -> Seq<char> {
    "http://schemas.microsoft.com/ado/2008/09/edm"@
}

/// The root of the metadata document.
#[derive(Debug)]
pub struct Edmx {
    pub ds: DataServices,
    pub ns_edmx: String,
    pub version: String,
}

impl Edmx {
    /// The document around the given data services, version 1.0.
    pub fn new(ds: DataServices) -> (r: Edmx)
        ensures
            r.ds == ds,
            r.ns_edmx@ == edmx_namespace(),
            r.version@ == "1.0"@,
    {
        Edmx {
            ds,
            ns_edmx: "http://schemas.microsoft.com/ado/2007/06/edmx".to_owned(),
            version: "1.0".to_owned(),
        }
    }
}

/// The data services of a metadata document: its schemas and the protocol
/// versions.
#[derive(Debug)]
pub struct DataServices {
    pub schemas: Vec<Schema>,
    pub ns_m: String,
    pub version: String,
    pub max_version: String,
}

impl DataServices {
    /// The data services with the given schemas, for version 3.0 of the
    /// protocol.
    pub fn new(schemas: Vec<Schema>) -> (r: DataServices)
        ensures
            r.schemas == schemas,
            r.ns_m@ == data_services_namespace(),
            r.version@ == "3.0"@,
            r.max_version@ == "3.0"@,
    {
        DataServices {
            schemas,
            ns_m: "http://schemas.microsoft.com/ado/2007/08/dataservices/metadata".to_owned(),
            version: "3.0".to_owned(),
            max_version: "3.0".to_owned(),
        }
    }
}

/// One schema: a namespace with its entity types and containers.
#[derive(Debug)]
pub struct Schema {
    pub namespace: String,
    pub entity_types: Vec<EntityType>,
    pub entity_containers: Vec<EntityContainer>,
    pub ns: String,
}

impl Schema {
    /// The schema of the given namespace, types and containers.
    pub fn new(
        namespace: String,
        entity_types: Vec<EntityType>,
        entity_containers: Vec<EntityContainer>,
    ) -> (r: Schema)
        ensures
            r.namespace == namespace,
            r.entity_types == entity_types,
            r.entity_containers == entity_containers,
            r.ns@ == edm_namespace(),
    {
        Schema {
            namespace,
            entity_types,
            entity_containers,
            ns: "http://schemas.microsoft.com/ado/2008/09/edm".to_owned(),
        }
    }
}

/// The type of a collection's entities: its key and its properties.
#[derive(Debug)]
pub struct EntityType {
    pub name: String,
    pub key: EntityKey,
    pub properties: Vec<Property>,
}

/// The key of an entity type: references to its key properties.
#[derive(Debug)]
pub struct EntityKey {
    pub key: Vec<PropertyRef>,
}

impl EntityKey {
    /// The key made of the given references.
    pub fn new(key: Vec<PropertyRef>) -> (r: EntityKey)
        ensures
            r.key == key,
    {
        EntityKey { key }
    }
}

/// A reference to a property by its name.
#[derive(Debug)]
pub struct PropertyRef {
    pub name: String,
}

/// One schema field as the metadata document shows it.
#[derive(Debug)]
pub struct Property {
    pub name: String,
    pub typ: String,
    pub nullable: bool,
    pub fixed_length: Option<bool>,
    pub unicode: Option<bool>,
}

impl Property {
    /// A property of a primitive type.
    pub fn primitive(name: &str, typ: &str, nullable: bool) -> (r: Property)
        ensures
            r.name@ == name@,
            r.typ@ == typ@,
            r.nullable == nullable,
            r.fixed_length is None,
            r.unicode is None,
    {
        Property {
            name: name.to_owned(),
            typ: typ.to_owned(),
            nullable,
            fixed_length: None,
            unicode: None,
        }
    }

    /// A property of a string type: of variable length, in Unicode.
    pub fn string(name: &str, typ: &str, nullable: bool) -> (r: Property)
        ensures
            r.name@ == name@,
            r.typ@ == typ@,
            r.nullable == nullable,
            r.fixed_length == Some(false),
            r.unicode == Some(true),
    {
        Property {
            name: name.to_owned(),
            typ: typ.to_owned(),
            nullable,
            fixed_length: Some(false),
            unicode: Some(true),
        }
    }
}

/// A container of entity sets.
#[derive(Debug)]
pub struct EntityContainer {
    pub name: String,
    pub is_default: bool,
    pub entity_set: Vec<EntitySet>,
}

/// A collection as the metadata document lists it: its name and the
/// qualified name of its entity type.
#[derive(Debug)]
pub struct EntitySet {
    pub name: String,
    pub entity_type: String,
}

} // verus!
