//! Protocol translation and encoding for serving tables over the OData v3
//! read protocol.
//!
//! The library decodes collection addresses and query options, translates
//! filters into a predicate tree for the query engine, lays a decoded query
//! over a table as a list of steps, and renders rows as Atom feeds and
//! entries and schemas as metadata and service documents. It runs no query
//! and serves no request: a host hands it plain values and gets plain
//! values back.
//!
//! - [`collection`]: addresses, query options and the steps of a query
//! - [`filter`]: the predicate tree and the translation of a parsed `$filter`
//! - [`schema`], [`record`]: column types, schemas and row batches
//! - [`atom`]: feeds and entries as runs of XML events
//! - [`xml`]: XML events, their text, and the writer
//! - [`metadata`], [`service`]: the document trees and the EDM type mapping
//! - [`handlers`]: what each request is answered with
//! - [`context`]: what a host tells about its service and collections
//! - [`error`]: the error kinds and their HTTP status
//! - [`text`], [`time`]: numerals, prefixes and instants as text
//! - [`odata`]: the service in its plain form
pub mod atom;
pub mod collection;
pub mod context;
pub mod error;
pub mod filter;
pub mod handlers;
pub mod metadata;
pub mod odata;
pub mod record;
pub mod schema;
pub mod service;
pub mod text;
pub mod time;
pub mod xml;
