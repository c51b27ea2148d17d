//! The closed set of error kinds and their HTTP status mapping.
use vstd::prelude::*;
use vstd::string::*;
use crate::schema::DataType;
use crate::text::chars_of;

verus! {

/// An encoding or I/O failure, or a violated engine invariant.
#[derive(Debug)]
pub struct InternalError {
    pub source: String,
}

impl InternalError {
    /// An internal error with the given cause.
    pub fn new(error: &str) -> (r: InternalError)
        ensures
            r.source@ == error@,
    {
        InternalError { source: error.to_owned() }
    }

    /// The text of the error.
    pub open spec fn spec_message(&self) -> Seq<char> {
        "Internal error"@
    }

    /// The text of the error.
    pub fn message(&self) -> (r: String)
        ensures
            r@ == self.spec_message(),
    {
        "Internal error".to_owned()
    }
}

/// A `$filter` that does not parse.
#[derive(Debug)]
pub struct FilterParsingError {
    pub msg: String,
}

impl FilterParsingError {
    /// A parsing error with the given message.
    pub fn new(msg: &str) -> (r: FilterParsingError)
        ensures
            r.msg@ == msg@,
    {
        FilterParsingError { msg: msg.to_owned() }
    }

    /// The text of the error.
    pub open spec fn spec_message(&self) -> Seq<char> {
        "Filter parsing error: "@ + self.msg@
    }

    /// The text of the error.
    pub fn message(&self) -> (r: String)
        ensures
            r@ == self.spec_message(),
    {
        "Filter parsing error: ".to_owned().concat(self.msg.as_str())
    }
}

/// An address that names no known collection.
#[derive(Debug)]
pub struct CollectionNotFound {
    pub collection: String,
}

impl CollectionNotFound {
    /// The error for the collection of the given name.
    pub fn new(collection: &str) -> (r: CollectionNotFound)
        ensures
            r.collection@ == collection@,
    {
        CollectionNotFound { collection: collection.to_owned() }
    }

    /// The text of the error.
    pub open spec fn spec_message(&self) -> Seq<char> {
        "Collection "@ + self.collection@ + " not found"@
    }

    /// The text of the error.
    pub fn message(&self) -> (r: String)
        ensures
            r@ == self.spec_message(),
    {
        "Collection ".to_owned().concat(self.collection.as_str()).concat(" not found")
    }
}

/// A context was asked for a key column it does not carry.
#[derive(Debug)]
pub struct KeyColumnNotAssigned;

impl KeyColumnNotAssigned {
    /// The text of the error.
    pub open spec fn spec_message(&self) -> Seq<char> {
        "Key column not assigned"@
    }

    /// The text of the error.
    pub fn message(&self) -> (r: String)
        ensures
            r@ == self.spec_message(),
    {
        "Key column not assigned".to_owned()
    }
}

/// A context was asked for a collection address it does not carry.
#[derive(Debug)]
pub struct CollectionAddressNotAssigned;

impl CollectionAddressNotAssigned {
    /// The text of the error.
    pub open spec fn spec_message(&self) -> Seq<char> {
        "Collection address not assigned"@
    }

    /// The text of the error.
    pub fn message(&self) -> (r: String)
        ensures
            r@ == self.spec_message(),
    {
        "Collection address not assigned".to_owned()
    }
}

/// A column whose physical type has no EDM mapping.
#[derive(Debug)]
pub struct UnsupportedDataType {
    pub data_type: DataType,
}

impl UnsupportedDataType {
    /// The error for the given type.
    pub fn new(data_type: DataType) -> (r: UnsupportedDataType)
        ensures
            r.data_type == data_type,
    {
        UnsupportedDataType { data_type }
    }

    /// The text of the error.
    pub open spec fn spec_message(&self) -> Seq<char> {
        "Unsupported data type: "@ + self.data_type.spec_name()
    }

    /// The text of the error.
    pub fn message(&self) -> (r: String)
        ensures
            r@ == self.spec_message(),
    {
        "Unsupported data type: ".to_owned().concat(self.data_type.name().as_str())
    }
}

/// A base URL that is neither http nor https.
#[derive(Debug)]
pub struct UnsupportedNetProtocol {
    pub url: String,
}

impl UnsupportedNetProtocol {
    /// The error for the given URL.
    pub fn new(url: String) -> (r: UnsupportedNetProtocol)
        ensures
            r.url == url,
    {
        UnsupportedNetProtocol { url }
    }

    /// The text of the error.
    pub open spec fn spec_message(&self) -> Seq<char> {
        "Unsupported net protocol: "@ + self.url@
    }

    /// The text of the error.
    pub fn message(&self) -> (r: String)
        ensures
            r@ == self.spec_message(),
    {
        "Unsupported net protocol: ".to_owned().concat(self.url.as_str())
    }
}

/// A filter construct with no mapping: a function call or a time-of-day literal.
#[derive(Debug)]
pub struct UnsupportedFeature {
    pub feature: String,
}

impl UnsupportedFeature {
    /// The error for the given feature.
    pub fn new(feature: &str) -> (r: UnsupportedFeature)
        ensures
            r.feature@ == feature@,
    {
        UnsupportedFeature { feature: feature.to_owned() }
    }

    /// The text of the error.
    pub open spec fn spec_message(&self) -> Seq<char> {
        "Unsupported feature: "@ + self.feature@
    }

    /// The text of the error.
    pub fn message(&self) -> (r: String)
        ensures
            r@ == self.spec_message(),
    {
        "Unsupported feature: ".to_owned().concat(self.feature.as_str())
    }
}

/// Every way a request can fail.
#[derive(Debug)]
pub enum ODataError {
    UnsupportedDataType(UnsupportedDataType),
    UnsupportedFeature(UnsupportedFeature),
    UnsupportedNetProtocol(UnsupportedNetProtocol),
    CollectionNotFound(CollectionNotFound),
    CollectionAddressNotAssigned(CollectionAddressNotAssigned),
    KeyColumnNotAssigned(KeyColumnNotAssigned),
    FilterParsingError(FilterParsingError),
    Internal(InternalError),
}

/// What an error is, with its texts as character sequences.
pub enum ErrorKind {
    UnsupportedDataType(DataType),
    UnsupportedFeature(Seq<char>),
    UnsupportedNetProtocol(Seq<char>),
    CollectionNotFound(Seq<char>),
    CollectionAddressNotAssigned,
    KeyColumnNotAssigned,
    FilterParsingError(Seq<char>),
    Internal(Seq<char>),
}

/// What the query engine reported when a table could not be opened.
#[derive(Debug)]
pub enum EngineError {
    /// A planning failure, with the engine's message.
    Plan(String),
    /// Any other failure, with its text.
    Other(String),
}

/// Whether `needle` occurs in `hay` as a contiguous run.
pub open spec fn contains_at(hay: Seq<char>, needle: Seq<char>, at: int) -> bool {
    0 <= at && at + needle.len() <= hay.len() && hay.subrange(at, at + needle.len()) == needle
}

/// Whether `needle` occurs in `hay` somewhere.
pub open spec fn contains_text(hay: Seq<char>, needle: Seq<char>) -> bool {
    exists|at: int| contains_at(hay, needle, at)
}

impl View for ODataError {
    type V = ErrorKind;

    open spec fn view(&self) -> ErrorKind {
        match self {
            ODataError::UnsupportedDataType(e) => ErrorKind::UnsupportedDataType(e.data_type),
            ODataError::UnsupportedFeature(e) => ErrorKind::UnsupportedFeature(e.feature@),
            ODataError::UnsupportedNetProtocol(e) => ErrorKind::UnsupportedNetProtocol(e.url@),
            ODataError::CollectionNotFound(e) => ErrorKind::CollectionNotFound(e.collection@),
            ODataError::CollectionAddressNotAssigned(_) => ErrorKind::CollectionAddressNotAssigned,
            ODataError::KeyColumnNotAssigned(_) => ErrorKind::KeyColumnNotAssigned,
            ODataError::FilterParsingError(e) => ErrorKind::FilterParsingError(e.msg@),
            ODataError::Internal(e) => ErrorKind::Internal(e.source@),
        }
    }
}

impl ErrorKind {
    /// The HTTP status a handler answers with.
    pub open spec fn status(self) -> int {
        match self {
            ErrorKind::Internal(_) => 500,
            ErrorKind::CollectionNotFound(_) => 404,
            ErrorKind::FilterParsingError(_) => 400,
            ErrorKind::UnsupportedDataType(_) => 501,
            ErrorKind::UnsupportedFeature(_) => 501,
            ErrorKind::UnsupportedNetProtocol(_) => 501,
            ErrorKind::CollectionAddressNotAssigned => 501,
            ErrorKind::KeyColumnNotAssigned => 501,
        }
    }

    /// The text of the error.
    pub open spec fn message(self) -> Seq<char> {
        match self {
            ErrorKind::Internal(_) => "Internal error"@,
            ErrorKind::CollectionNotFound(c) => "Collection "@ + c + " not found"@,
            ErrorKind::FilterParsingError(m) => "Filter parsing error: "@ + m,
            ErrorKind::UnsupportedDataType(t) => "Unsupported data type: "@ + t.spec_name(),
            ErrorKind::UnsupportedFeature(f) => "Unsupported feature: "@ + f,
            ErrorKind::UnsupportedNetProtocol(u) => "Unsupported net protocol: "@ + u,
            ErrorKind::CollectionAddressNotAssigned => "Collection address not assigned"@,
            ErrorKind::KeyColumnNotAssigned => "Key column not assigned"@,
        }
    }
}

/// Whether `needle` occurs in `hay`.
pub fn text_contains(hay: &str, needle: &str) -> (r: bool)
    ensures
        r == contains_text(hay@, needle@),
{
    let hay_chars = chars_of(hay);
    let needle_chars = chars_of(needle);
    let n: usize = hay_chars.len();
    let m: usize = needle_chars.len();
    if m > n {
        assert forall|at: int| !contains_at(hay@, needle@, at) by {}
        return false;
    }
    let mut at: usize = 0;
    while at <= n - m
        invariant
            hay_chars@ == hay@,
            needle_chars@ == needle@,
            n == hay@.len(),
            m == needle@.len(),
            m <= n,
            at <= n - m + 1,
            forall|k: int| 0 <= k < at ==> !contains_at(hay@, needle@, k),
        decreases n - m + 1 - at,
    {
        let mut j: usize = 0;
        while j < m && hay_chars[at + j] == needle_chars[j]
            invariant
                hay_chars@ == hay@,
                needle_chars@ == needle@,
                n == hay@.len(),
                m == needle@.len(),
                at + m <= n,
                j <= m,
                forall|k: int| 0 <= k < j ==> hay@[at + k] == needle@[k],
            decreases m - j,
        {
            j = j + 1;
        }
        if j == m {
            assert(hay@.subrange(at as int, at + m) =~= needle@);
            assert(contains_at(hay@, needle@, at as int));
            return true;
        }
        assert(!contains_at(hay@, needle@, at as int)) by {
            if contains_at(hay@, needle@, at as int) {
                assert(hay@.subrange(at as int, at + m)[j as int] == needle@[j as int]);
            }
        }
        at = at + 1;
    }
    assert forall|k: int| !contains_at(hay@, needle@, k) by {}
    false
}

impl ODataError {
    /// An internal error with the given cause.
    pub fn internal(error: &str) -> (r: ODataError)
        ensures
            r@ == ErrorKind::Internal(error@),
    {
        ODataError::Internal(InternalError::new(error))
    }

    /// A planning failure whose message says that no table bears the name
    /// means the collection does not exist; every other failure is internal.
    pub fn handle_no_table_as_collection_not_found(collection: &str, err: EngineError) -> (r:
        ODataError)
        ensures
            r@ == (match err {
                EngineError::Plan(e) => if contains_text(e@, "No table named"@) {
                    ErrorKind::CollectionNotFound(collection@)
                } else {
                    ErrorKind::Internal(e@)
                },
                EngineError::Other(e) => ErrorKind::Internal(e@),
            }),
    {
        match err {
            EngineError::Plan(e) => {
                if text_contains(e.as_str(), "No table named") {
                    ODataError::CollectionNotFound(CollectionNotFound::new(collection))
                } else {
                    ODataError::internal(e.as_str())
                }
            },
            EngineError::Other(e) => ODataError::internal(e.as_str()),
        }
    }

    /// A copy of the error.
    pub fn duplicate(&self) -> (r: ODataError)
        ensures
            r@ == self@,
    {
        match self {
            ODataError::Internal(e) => ODataError::Internal(
                InternalError { source: e.source.clone() },
            ),
            ODataError::CollectionNotFound(e) => ODataError::CollectionNotFound(
                CollectionNotFound { collection: e.collection.clone() },
            ),
            ODataError::FilterParsingError(e) => ODataError::FilterParsingError(
                FilterParsingError { msg: e.msg.clone() },
            ),
            ODataError::UnsupportedDataType(e) => ODataError::UnsupportedDataType(
                UnsupportedDataType { data_type: e.data_type },
            ),
            ODataError::UnsupportedFeature(e) => ODataError::UnsupportedFeature(
                UnsupportedFeature { feature: e.feature.clone() },
            ),
            ODataError::UnsupportedNetProtocol(e) => ODataError::UnsupportedNetProtocol(
                UnsupportedNetProtocol { url: e.url.clone() },
            ),
            ODataError::CollectionAddressNotAssigned(_) => ODataError::CollectionAddressNotAssigned(
                CollectionAddressNotAssigned,
            ),
            ODataError::KeyColumnNotAssigned(_) => ODataError::KeyColumnNotAssigned(
                KeyColumnNotAssigned,
            ),
        }
    }

    /// The HTTP status a handler answers with.
    pub fn status_code(&self) -> (r: u16)
        ensures
            r == self@.status(),
    {
        match self {
            ODataError::Internal(_) => 500,
            ODataError::CollectionNotFound(_) => 404,
            ODataError::FilterParsingError(_) => 400,
            ODataError::UnsupportedDataType(_) => 501,
            ODataError::UnsupportedFeature(_) => 501,
            ODataError::UnsupportedNetProtocol(_) => 501,
            ODataError::CollectionAddressNotAssigned(_) => 501,
            ODataError::KeyColumnNotAssigned(_) => 501,
        }
    }

    /// The text of the error. An internal failure never shows its cause.
    pub fn message(&self) -> (r: String)
        ensures
            r@ == self@.message(),
    {
        match self {
            ODataError::Internal(e) => e.message(),
            ODataError::CollectionNotFound(e) => e.message(),
            ODataError::FilterParsingError(e) => e.message(),
            ODataError::UnsupportedDataType(e) => e.message(),
            ODataError::UnsupportedFeature(e) => e.message(),
            ODataError::UnsupportedNetProtocol(e) => e.message(),
            ODataError::CollectionAddressNotAssigned(e) => e.message(),
            ODataError::KeyColumnNotAssigned(e) => e.message(),
        }
    }
}

} // verus!
