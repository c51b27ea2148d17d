//! What a service and a collection tell the encoders about themselves.
use vstd::prelude::*;
use crate::collection::CollectionAddr;
use crate::error::{ErrorKind, KeyColumnNotAssigned, ODataError};

verus! {

/// The namespace under which every collection is published.
pub const DEFAULT_NAMESPACE: &'static str = "default";

/// The name of the synthetic column that carries each row's identity.
pub const DEFAULT_KEY_COLUMN_ALIAS: &'static str = "__id__";

/// What to do with a column or a filter construct that has no mapping.
#[derive(Clone, Copy, Debug, PartialEq, Eq, Structural)]
pub enum OnUnsupported {
    /// Fail the request.
    Error,
    /// Leave the column out and go on.
    Warn,
}

/// The namespace of a collection that names none of its own: the default
/// namespace.
pub fn default_collection_namespace() -> (r: Result<String, ODataError>)
    ensures
        r matches Ok(name) && name@ == DEFAULT_NAMESPACE@,
{
    Ok(DEFAULT_NAMESPACE.to_owned())
}

/// The key alias of a collection that names none of its own: the default
/// alias.
pub fn default_key_column_alias() -> (r: String)
    ensures
        r@ == DEFAULT_KEY_COLUMN_ALIAS@,
{
    DEFAULT_KEY_COLUMN_ALIAS.to_owned()
}

/// The answer of a collection that has no key column assigned.
pub fn key_column_not_assigned() -> (r: Result<String, ODataError>)
    ensures
        r matches Err(e) && e@ == ErrorKind::KeyColumnNotAssigned,
{
    Err(ODataError::KeyColumnNotAssigned(KeyColumnNotAssigned))
}

/// What a service tells of itself. A host implements this for its catalog.
pub trait ServiceContext {
    /// The URL under which the service is published.
    fn service_base_url(&self) -> String;

    /// What to do with a column that has no EDM type.
    fn on_unsupported_feature(&self) -> OnUnsupported;
}

/// What a collection tells of itself. A host implements this for each of its
/// tables; an accessor that does not apply to a context answers with
/// `CollectionAddressNotAssigned` or `KeyColumnNotAssigned`.
pub trait CollectionContext {
    /// The address under which the collection was asked for.
    fn addr(&self) -> Result<&CollectionAddr, ODataError>;

    /// The URL under which the service is published.
    fn service_base_url(&self) -> Result<String, ODataError>;

    /// The URL of the collection.
    fn collection_base_url(&self) -> Result<String, ODataError>;

    /// The namespace of the collection's entity type: the default namespace,
    /// unless the host says otherwise.
    fn collection_namespace(&self) -> Result<String, ODataError> {
        default_collection_namespace()
    }

    /// The name of the collection.
    fn collection_name(&self) -> Result<String, ODataError>;

    /// The name of the synthetic column that carries each row's identity.
    fn key_column_alias(&self) -> String {
        default_key_column_alias()
    }

    /// The column that holds the key: none is assigned, unless the host says
    /// otherwise.
    fn key_column(&self) -> Result<String, ODataError> {
        key_column_not_assigned()
    }

    /// What to do with a column that has no EDM type.
    fn on_unsupported_feature(&self) -> OnUnsupported;
}

/// What an encoder needs to know of the collection it renders.
#[derive(Clone, Debug, PartialEq, Eq)]
pub struct CollectionInfo {
    pub service_base_url: String,
    pub collection_base_url: String,
    pub collection_name: String,
    pub collection_namespace: String,
    pub key_column_alias: String,
    pub on_unsupported: OnUnsupported,
}

/// What the accessors of a collection answered, in the order in which an
/// encoder asks.
pub struct Answers {
    pub service_base_url: Result<String, ODataError>,
    pub collection_base_url: Result<String, ODataError>,
    pub collection_name: Result<String, ODataError>,
    pub collection_namespace: Result<String, ODataError>,
    pub key_column_alias: String,
    pub on_unsupported: OnUnsupported,
}

impl Answers {
    /// Whether every accessor answered.
    pub open spec fn complete(&self) -> bool {
        &&& self.service_base_url is Ok
        &&& self.collection_base_url is Ok
        &&& self.collection_name is Ok
        &&& self.collection_namespace is Ok
    }

    /// The first failure among the answers, in the order service base URL,
    /// collection base URL, name, namespace.
    pub open spec fn first_failure(&self) -> ODataError
        recommends
            !self.complete(),
    {
        if self.service_base_url is Err {
            self.service_base_url->Err_0
        } else if self.collection_base_url is Err {
            self.collection_base_url->Err_0
        } else if self.collection_name is Err {
            self.collection_name->Err_0
        } else {
            self.collection_namespace->Err_0
        }
    }
}

/// Whether a set of answers is one that the accessors of a collection gave:
/// each answer is a result of a call of its accessor on the collection.
pub open spec fn answered<C: CollectionContext + ?Sized>(ctx: &C, answers: Answers) -> bool {
    &&& call_ensures(C::service_base_url, (ctx,), answers.service_base_url)
    &&& call_ensures(C::collection_base_url, (ctx,), answers.collection_base_url)
    &&& call_ensures(C::collection_name, (ctx,), answers.collection_name)
    &&& call_ensures(C::collection_namespace, (ctx,), answers.collection_namespace)
    &&& call_ensures(C::key_column_alias, (ctx,), answers.key_column_alias)
    &&& call_ensures(C::on_unsupported_feature, (ctx,), answers.on_unsupported)
}

/// Whether an outcome is what a set of answers makes up: the description
/// with every answer in its place, or the first failure among the answers.
pub open spec fn made_of(r: Result<CollectionInfo, ODataError>, answers: Answers) -> bool {
    match r {
        Ok(info) => {
            &&& answers.complete()
            &&& info.service_base_url == answers.service_base_url->Ok_0
            &&& info.collection_base_url == answers.collection_base_url->Ok_0
            &&& info.collection_name == answers.collection_name->Ok_0
            &&& info.collection_namespace == answers.collection_namespace->Ok_0
            &&& info.key_column_alias == answers.key_column_alias
            &&& info.on_unsupported == answers.on_unsupported
        },
        Err(e) => !answers.complete() && e == answers.first_failure(),
    }
}

impl CollectionInfo {
    /// The description that a set of answers makes up, or the first failure
    /// among them.
    pub fn from_answers(answers: Answers) -> (r: Result<CollectionInfo, ODataError>)
        ensures
            match r {
                Ok(info) => {
                    &&& answers.complete()
                    &&& info.service_base_url == answers.service_base_url->Ok_0
                    &&& info.collection_base_url == answers.collection_base_url->Ok_0
                    &&& info.collection_name == answers.collection_name->Ok_0
                    &&& info.collection_namespace == answers.collection_namespace->Ok_0
                    &&& info.key_column_alias == answers.key_column_alias
                    &&& info.on_unsupported == answers.on_unsupported
                },
                Err(e) => !answers.complete() && e == answers.first_failure(),
            },
    {
        let service_base_url = answers.service_base_url?;
        let collection_base_url = answers.collection_base_url?;
        let collection_name = answers.collection_name?;
        let collection_namespace = answers.collection_namespace?;
        Ok(
            CollectionInfo {
                service_base_url,
                collection_base_url,
                collection_name,
                collection_namespace,
                key_column_alias: answers.key_column_alias,
                on_unsupported: answers.on_unsupported,
            },
        )
    }

    /// Asks a collection for what an encoder needs to know of it. Every
    /// accessor is asked once, and the outcome is made of what they
    /// answered: the description with each answer in its place, or the first
    /// failure in the order service base URL, collection base URL, name,
    /// namespace.
    pub fn gather<C: CollectionContext + ?Sized>(ctx: &C) -> (r: Result<CollectionInfo, ODataError>)
        ensures
            exists|answers: Answers| #[trigger] answered(ctx, answers) && made_of(r, answers),
    {
        let service_base_url = ctx.service_base_url();
        let collection_base_url = ctx.collection_base_url();
        let collection_name = ctx.collection_name();
        let collection_namespace = ctx.collection_namespace();
        let answers = Answers {
            service_base_url,
            collection_base_url,
            collection_name,
            collection_namespace,
            key_column_alias: ctx.key_column_alias(),
            on_unsupported: ctx.on_unsupported_feature(),
        };
        let ghost given = answers;
        let r = CollectionInfo::from_answers(answers);
        assert(answered(ctx, given) && made_of(r, given));
        r
    }

    /// The description of a collection in the default namespace, keyed by
    /// the default alias.
    pub fn new(
        service_base_url: &str,
        collection_base_url: &str,
        collection_name: &str,
        on_unsupported: OnUnsupported,
    ) -> (r: CollectionInfo)
        ensures
            r.service_base_url@ == service_base_url@,
            r.collection_base_url@ == collection_base_url@,
            r.collection_name@ == collection_name@,
            r.collection_namespace@ == DEFAULT_NAMESPACE@,
            r.key_column_alias@ == DEFAULT_KEY_COLUMN_ALIAS@,
            r.on_unsupported == on_unsupported,
    {
        CollectionInfo {
            service_base_url: service_base_url.to_owned(),
            collection_base_url: collection_base_url.to_owned(),
            collection_name: collection_name.to_owned(),
            collection_namespace: DEFAULT_NAMESPACE.to_owned(),
            key_column_alias: DEFAULT_KEY_COLUMN_ALIAS.to_owned(),
            on_unsupported,
        }
    }
}

} // verus!
