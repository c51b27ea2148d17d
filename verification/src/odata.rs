//! The service in its plain form: query options without a filter, documents
//! in the EDM namespace of 2008, and a feed without identities.
pub mod atom;
pub mod collection;
pub mod metadata;
pub mod query;
pub mod service;
