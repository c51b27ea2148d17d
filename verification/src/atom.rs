//! Atom feeds and entries: which columns are shown, what each row becomes,
//! and the whole document as a run of XML events.
use vstd::prelude::*;
use vstd::string::*;
use crate::context::{CollectionInfo, OnUnsupported};
use crate::error::{ErrorKind, KeyColumnNotAssigned, ODataError, UnsupportedDataType, UnsupportedNetProtocol};
use crate::metadata::{edm_type_of, to_edm_type};
use crate::record::{
    encode_primitive_dyn, encoded_text, plain_text, primitive_text, total_rows, RecordBatch,
};
use crate::schema::{DataType, Field, Schema};
use crate::text::{chars_of, ends_with, same_text, starts_with, text_of};
use crate::time::{encode_date_time, rfc3339_millis};
use crate::xml::{
    attrs_view, balanced, events_view, is_document, lemma_balanced_both, lemma_balanced_flat,
    lemma_balanced_within, rendered_bytes, EventView, XmlEvent, XmlWriter,
};

verus! {

/// How one column is shown: the element's tag and its EDM type.
#[derive(Clone, Debug, PartialEq, Eq)]
pub struct Edm {
    pub typ: String,
    pub tag: String,
}

/// The columns a document shows, each with its position in the schema, and
/// the position of the column that carries the row's identity.
#[derive(Clone, Debug, PartialEq, Eq)]
pub struct ColumnPlan {
    pub edms: Vec<(Edm, usize)>,
    pub key_index: Option<usize>,
}

/// A shown column, with its texts as character sequences.
pub struct PlannedColumn {
    pub tag: Seq<char>,
    pub typ: Seq<char>,
    pub index: int,
}

/// The shown columns of a plan, with their texts as character sequences.
pub open spec fn plan_view(edms: Seq<(Edm, usize)>) -> Seq<PlannedColumn> {
    Seq::new(
        edms.len(),
        |i: int| PlannedColumn { tag: edms[i].0.tag@, typ: edms[i].0.typ@, index: edms[i].1 as int },
    )
}

/// The columns shown among the first `n` fields: every field but the key
/// alias, mapped to its EDM type. A field without a mapping is left out under
/// `Warn`; under `Error` the first such field's type is the answer.
pub open spec fn planned(
    fields: Seq<Field>,
    key: Seq<char>,
    policy: OnUnsupported,
    n: int,
) -> Result<Seq<PlannedColumn>, DataType>
    decreases n,
{
    if n <= 0 {
        Ok(Seq::empty())
    } else {
        match planned(fields, key, policy, n - 1) {
            Err(t) => Err(t),
            Ok(prev) => {
                let f = fields[n - 1];
                if f.name@ == key {
                    Ok(prev)
                } else {
                    match edm_type_of(f.data_type) {
                        Some(typ) => Ok(
                            prev.push(PlannedColumn { tag: "d:"@ + f.name@, typ, index: n - 1 }),
                        ),
                        None => if policy == OnUnsupported::Error {
                            Err(f.data_type)
                        } else {
                            Ok(prev)
                        },
                    }
                }
            },
        }
    }
}

/// The position of the last of the first `n` fields that bears the key alias.
pub open spec fn key_position(fields: Seq<Field>, key: Seq<char>, n: int) -> Option<int>
    decreases n,
{
    if n <= 0 {
        None
    } else if fields[n - 1].name@ == key {
        Some(n - 1)
    } else {
        key_position(fields, key, n - 1)
    }
}

/// A position as a mathematical integer.
pub open spec fn option_index(i: Option<usize>) -> Option<int> {
    match i {
        Some(v) => Some(v as int),
        None => None,
    }
}

impl ColumnPlan {
    /// Whether every position in the plan lies within `width` columns.
    pub open spec fn within(&self, width: int) -> bool {
        &&& forall|i: int| 0 <= i < self.edms@.len() ==> (#[trigger] self.edms@[i]).1 < width
        &&& self.key_index matches Some(k) ==> k < width
    }
}

impl Edm {
    /// The tag `d:<name>` and the EDM type of a field.
    pub fn from_field(field: &Field) -> (r: Result<Edm, UnsupportedDataType>)
        ensures
            match r {
                Ok(edm) => edm.tag@ == "d:"@ + field.name@ && edm_type_of(field.data_type) == Some(
                    edm.typ@,
                ),
                Err(e) => edm_type_of(field.data_type) is None && e.data_type == field.data_type,
            },
    {
        let tag = "d:".to_owned().concat(field.name.as_str());
        match to_edm_type(&field.data_type) {
            Ok(typ) => Ok(Edm { typ: typ.to_owned(), tag }),
            Err(e) => Err(e),
        }
    }
}

/// Lays out the columns of a document.
pub fn to_edms(schema: &Schema, key_column: &str, on_unsupported: OnUnsupported) -> (r: Result<
    ColumnPlan,
    UnsupportedDataType,
>)
    ensures
        match r {
            Ok(plan) => {
                &&& planned(schema.fields@, key_column@, on_unsupported, schema.fields@.len() as int)
                    == Ok::<Seq<PlannedColumn>, DataType>(plan_view(plan.edms@))
                &&& option_index(plan.key_index) == key_position(
                    schema.fields@,
                    key_column@,
                    schema.fields@.len() as int,
                )
                &&& plan.within(schema.fields@.len() as int)
            },
            Err(e) => planned(
                schema.fields@,
                key_column@,
                on_unsupported,
                schema.fields@.len() as int,
            ) == Err::<Seq<PlannedColumn>, DataType>(e.data_type),
        },
{
    let mut edms: Vec<(Edm, usize)> = Vec::new();
    let mut key_index: Option<usize> = None;
    let n: usize = schema.fields.len();
    let mut index: usize = 0;
    assert(plan_view(edms@) =~= Seq::<PlannedColumn>::empty());
    while index < n
        invariant
            n == schema.fields@.len(),
            index <= n,
            planned(schema.fields@, key_column@, on_unsupported, index as int) == Ok::<
                Seq<PlannedColumn>,
                DataType,
            >(plan_view(edms@)),
            option_index(key_index) == key_position(schema.fields@, key_column@, index as int),
            forall|i: int| 0 <= i < edms@.len() ==> (#[trigger] edms@[i]).1 < index,
            key_index matches Some(k) ==> k < index,
        decreases n - index,
    {
        let field = &schema.fields[index];
        if same_text(field.name.as_str(), key_column) {
            key_index = Some(index);
        } else {
            match Edm::from_field(field) {
                Ok(edm) => {
                    let ghost before = edms@;
                    edms.push((edm, index));
                    assert(plan_view(edms@) =~= plan_view(before).push(
                        PlannedColumn {
                            tag: "d:"@ + field.name@,
                            typ: edm.typ@,
                            index: index as int,
                        },
                    ));
                },
                Err(err) => {
                    match on_unsupported {
                        OnUnsupported::Error => {
                            proof {
                                lemma_planned_error_stays(
                                    schema.fields@,
                                    key_column@,
                                    on_unsupported,
                                    index + 1,
                                    n as int,
                                );
                            }
                            return Err(err);
                        },
                        OnUnsupported::Warn => {},
                    }
                },
            }
        }
        index = index + 1;
    }
    Ok(ColumnPlan { edms, key_index })
}

/// Once the layout has failed on a prefix of the fields it fails the same way
/// on every longer one.
proof fn lemma_planned_error_stays(
    fields: Seq<Field>,
    key: Seq<char>,
    policy: OnUnsupported,
    n: int,
    m: int,
)
    requires
        n <= m,
        planned(fields, key, policy, n) is Err,
    ensures
        planned(fields, key, policy, m) == planned(fields, key, policy, n),
    decreases m - n,
{
    if n < m {
        lemma_planned_error_stays(fields, key, policy, n, m - 1);
    }
}

/// Under `Warn` no column aborts a document: the layout always succeeds.
pub proof fn lemma_warn_never_fails(fields: Seq<Field>, key: Seq<char>, n: int)
    ensures
        planned(fields, key, OnUnsupported::Warn, n) is Ok,
    decreases n,
{
    if n > 0 {
        lemma_warn_never_fails(fields, key, n - 1);
    }
}

/// Whether the field at a position is left out of a document for want of an
/// EDM type: its type has no mapping, and it is not the key column, if there
/// is one.
pub open spec fn is_unmapped(fields: Seq<Field>, key: Option<Seq<char>>, i: int) -> bool {
    key != Some(fields[i].name@) && edm_type_of(fields[i].data_type) is None
}

/// The positions, among the first `n` fields, of those that are left out for
/// want of an EDM type, in order.
pub open spec fn unmapped(fields: Seq<Field>, key: Option<Seq<char>>, n: int) -> Seq<int>
    decreases n,
{
    if n <= 0 {
        Seq::empty()
    } else if is_unmapped(fields, key, n - 1) {
        unmapped(fields, key, n - 1).push(n - 1)
    } else {
        unmapped(fields, key, n - 1)
    }
}

/// A list of positions as mathematical integers.
pub open spec fn positions(v: Seq<usize>) -> Seq<int> {
    Seq::new(v.len(), |i: int| v[i] as int)
}

/// A name that may be missing, as a character sequence.
pub open spec fn option_name(name: Option<&str>) -> Option<Seq<char>> {
    match name {
        Some(n) => Some(n@),
        None => None,
    }
}

/// The positions of the fields that a document under `Warn` leaves out for
/// want of an EDM type, for the host to report: every field without a
/// mapping but the key column, where one is named.
pub fn unmapped_fields(schema: &Schema, key_column: Option<&str>) -> (r: Vec<usize>)
    ensures
        positions(r@) == unmapped(
            schema.fields@,
            option_name(key_column),
            schema.fields@.len() as int,
        ),
{
    let mut out: Vec<usize> = Vec::new();
    let n: usize = schema.fields.len();
    let mut i: usize = 0;
    assert(positions(out@) =~= Seq::<int>::empty());
    while i < n
        invariant
            n == schema.fields@.len(),
            i <= n,
            positions(out@) == unmapped(schema.fields@, option_name(key_column), i as int),
        decreases n - i,
    {
        let field = &schema.fields[i];
        let is_key = match key_column {
            Some(k) => same_text(field.name.as_str(), k),
            None => false,
        };
        if !is_key && to_edm_type(&field.data_type).is_err() {
            let ghost before = out@;
            out.push(i);
            assert(positions(out@) =~= positions(before).push(i as int));
        }
        i = i + 1;
    }
    out
}

/// Under `Warn` every field is either shown, or the key column, or among the
/// fields left out: the layout shows exactly the fields that are neither.
pub proof fn lemma_warn_shows_the_rest(fields: Seq<Field>, key: Seq<char>, n: int, i: int)
    requires
        0 <= i < n <= fields.len(),
    ensures
        planned(fields, key, OnUnsupported::Warn, n) matches Ok(plan) && ((exists|j: int|
            0 <= j < plan.len() && plan[j].index == i) <==> (fields[i].name@ != key
            && !is_unmapped(fields, Some(key), i))),
    decreases n,
{
    lemma_warn_never_fails(fields, key, n);
    lemma_warn_never_fails(fields, key, n - 1);
    lemma_plan_positions(fields, key, OnUnsupported::Warn, n - 1);
    let prev = planned(fields, key, OnUnsupported::Warn, n - 1)->Ok_0;
    let plan = planned(fields, key, OnUnsupported::Warn, n)->Ok_0;
    if i < n - 1 {
        lemma_warn_shows_the_rest(fields, key, n - 1, i);
        if exists|j: int| 0 <= j < prev.len() && prev[j].index == i {
            let j = choose|j: int| 0 <= j < prev.len() && prev[j].index == i;
            assert(plan[j].index == i);
        }
        if exists|j: int| 0 <= j < plan.len() && plan[j].index == i {
            let j = choose|j: int| 0 <= j < plan.len() && plan[j].index == i;
            assert(j < prev.len());
            assert(prev[j].index == i);
        }
    } else {
        if fields[i].name@ != key && edm_type_of(fields[i].data_type) is Some {
            assert(plan[plan.len() - 1].index == i);
        } else {
            if exists|j: int| 0 <= j < plan.len() && plan[j].index == i {
                let j = choose|j: int| 0 <= j < plan.len() && plan[j].index == i;
                assert(prev[j].index < n - 1);
            }
        }
    }
}

proof fn lemma_plan_positions(fields: Seq<Field>, key: Seq<char>, policy: OnUnsupported, n: int)
    ensures
        planned(fields, key, policy, n) matches Ok(plan) ==> forall|j: int|
            0 <= j < plan.len() ==> 0 <= (#[trigger] plan[j]).index < n,
    decreases n,
{
    if n > 0 {
        lemma_plan_positions(fields, key, policy, n - 1);
    }
}

/// Whether a field is shown but has no EDM type.
pub open spec fn blocks(fields: Seq<Field>, key: Seq<char>, i: int) -> bool {
    fields[i].name@ != key && edm_type_of(fields[i].data_type) is None
}

/// Under `Error` the layout fails exactly where some shown field has no EDM
/// type, and then with the type of the first such field.
pub proof fn lemma_error_names_the_first(fields: Seq<Field>, key: Seq<char>, n: int)
    requires
        0 <= n <= fields.len(),
    ensures
        match planned(fields, key, OnUnsupported::Error, n) {
            Ok(_) => forall|i: int| 0 <= i < n ==> !blocks(fields, key, i),
            Err(t) => exists|i: int|
                0 <= i < n && blocks(fields, key, i) && t == fields[i].data_type && forall|j: int|
                    0 <= j < i ==> !blocks(fields, key, j),
        },
    decreases n,
{
    if n > 0 {
        lemma_error_names_the_first(fields, key, n - 1);
        match planned(fields, key, OnUnsupported::Error, n - 1) {
            Ok(_) => {
                if blocks(fields, key, n - 1) {
                    assert(blocks(fields, key, n - 1) && forall|j: int|
                        0 <= j < n - 1 ==> !blocks(fields, key, j));
                }
            },
            Err(t) => {
                let i = choose|i: int|
                    0 <= i < n - 1 && blocks(fields, key, i) && t == fields[i].data_type
                        && forall|j: int| 0 <= j < i ==> !blocks(fields, key, j);
                assert(0 <= i < n && blocks(fields, key, i) && t == fields[i].data_type
                    && forall|j: int| 0 <= j < i ==> !blocks(fields, key, j));
            },
        }
    }
}

/// The texts that every entry of one document shares.
pub struct EntryNames {
    /// The collection's base URL, without a trailing slash.
    pub base: Seq<char>,
    /// The collection's name.
    pub name: Seq<char>,
    /// The namespace-qualified type name.
    pub fq_type: Seq<char>,
    /// The time of the last update, as text.
    pub updated: Seq<char>,
}

/// The scheme of an entry's category.
pub open spec fn scheme_uri() -> Seq<char> {
    "http://schemas.microsoft.com/ado/2007/08/dataservices/scheme"@
}

/// An element that holds nothing but text.
pub open spec fn element(
    name: Seq<char>,
    attrs: Seq<(Seq<char>, Seq<char>)>,
    text: Seq<char>,
) -> Seq<EventView> {
    seq![
        EventView::Start { name, attrs },
        EventView::Text { escaped: text },
        EventView::End { name },
    ]
}

/// The properties of one row, for the first `n` columns of the plan: one
/// element per column, tagged `d:<name>`, with its EDM type in `m:type` and
/// the cell's text as content.
pub open spec fn property_events(
    plan: Seq<PlannedColumn>,
    batch: RecordBatch,
    row: int,
    n: int,
) -> Result<Seq<EventView>, DataType>
    decreases n,
{
    if n <= 0 {
        Ok(Seq::empty())
    } else {
        match property_events(plan, batch, row, n - 1) {
            Err(t) => Err(t),
            Ok(prev) => {
                let c = plan[n - 1];
                let col = batch.columns@[c.index];
                match encoded_text(col.data_type, col.cells@[row]) {
                    Err(t) => Err(t),
                    Ok(text) => Ok(prev + element(c.tag, seq![("m:type"@, c.typ)], text)),
                }
            },
        }
    }
}

/// What stands in an entry before its properties, for a row whose key reads
/// `id` and, as it stands in a document, `id_text`.
pub open spec fn entry_head(names: EntryNames, id_text: Seq<char>, id: Seq<char>) -> Seq<
    EventView,
> {
    element("id"@, Seq::empty(), names.base + "("@ + id_text + ")"@) + seq![
        EventView::Empty {
            name: "category"@,
            attrs: seq![("scheme"@, scheme_uri()), ("term"@, names.fq_type)],
        },
        EventView::Empty {
            name: "link"@,
            attrs: seq![
                ("rel"@, "edit"@),
                ("title"@, names.name),
                ("href"@, names.name + "("@ + id + ")"@),
            ],
        },
        EventView::Empty { name: "title"@, attrs: Seq::empty() },
    ] + element("updated"@, Seq::empty(), names.updated) + seq![
        EventView::Start { name: "author"@, attrs: Seq::empty() },
        EventView::Empty { name: "name"@, attrs: Seq::empty() },
        EventView::End { name: "author"@ },
        EventView::Start { name: "content"@, attrs: seq![("type"@, "application/xml"@)] },
        EventView::Start { name: "m:properties"@, attrs: Seq::empty() },
    ]
}

/// What stands in an entry after its properties.
pub open spec fn entry_tail() -> Seq<EventView> {
    seq![EventView::End { name: "m:properties"@ }, EventView::End { name: "content"@ }]
}

/// The inside of the entry for one row. The row's identity is the text of
/// its key cell: in the `id` element it stands as in any element, and the
/// link carries it as an attribute value, which the writer escapes.
pub open spec fn entry_inner(
    names: EntryNames,
    plan: Seq<PlannedColumn>,
    key_index: Option<int>,
    batch: RecordBatch,
    row: int,
) -> Result<Seq<EventView>, ErrorKind> {
    match key_index {
        None => Err(ErrorKind::KeyColumnNotAssigned),
        Some(k) => match plain_text(batch.columns@[k].data_type, batch.columns@[k].cells@[row]) {
            Err(t) => Err(ErrorKind::UnsupportedDataType(t)),
            Ok(id) => match property_events(plan, batch, row, plan.len() as int) {
                Err(t) => Err(ErrorKind::UnsupportedDataType(t)),
                Ok(props) => Ok(
                    entry_head(
                        names,
                        encoded_text(
                            batch.columns@[k].data_type,
                            batch.columns@[k].cells@[row],
                        )->Ok_0,
                        id,
                    ) + props + entry_tail(),
                ),
            },
        },
    }
}

/// The entries of the first `n` rows of a batch.
pub open spec fn batch_entries(
    names: EntryNames,
    plan: Seq<PlannedColumn>,
    key_index: Option<int>,
    batch: RecordBatch,
    n: int,
) -> Result<Seq<EventView>, ErrorKind>
    decreases n,
{
    if n <= 0 {
        Ok(Seq::empty())
    } else {
        match batch_entries(names, plan, key_index, batch, n - 1) {
            Err(e) => Err(e),
            Ok(prev) => match entry_inner(names, plan, key_index, batch, n - 1) {
                Err(e) => Err(e),
                Ok(inner) => Ok(
                    prev + seq![EventView::Start { name: "entry"@, attrs: Seq::empty() }] + inner
                        + seq![EventView::End { name: "entry"@ }],
                ),
            },
        }
    }
}

/// The entries of the first `n` batches.
pub open spec fn feed_entries(
    names: EntryNames,
    plan: Seq<PlannedColumn>,
    key_index: Option<int>,
    batches: Seq<RecordBatch>,
    n: int,
) -> Result<Seq<EventView>, ErrorKind>
    decreases n,
{
    if n <= 0 {
        Ok(Seq::empty())
    } else {
        match feed_entries(names, plan, key_index, batches, n - 1) {
            Err(e) => Err(e),
            Ok(prev) => match batch_entries(
                names,
                plan,
                key_index,
                batches[n - 1],
                batches[n - 1].num_rows as int,
            ) {
                Err(e) => Err(e),
                Ok(rows) => Ok(prev + rows),
            },
        }
    }
}

/// A service base URL always ends with a slash: one is added where there is
/// none.
pub open spec fn service_url(url: Seq<char>) -> Seq<char> {
    if url.len() > 0 && url.last() == '/' {
        url
    } else {
        url.push('/')
    }
}

/// A collection base URL never ends with a slash: every trailing slash is
/// taken off.
pub open spec fn collection_url(url: Seq<char>) -> Seq<char>
    decreases url.len(),
{
    if url.len() > 0 && url.last() == '/' {
        collection_url(url.drop_last())
    } else {
        url
    }
}

/// Whatever the context hands over, the service base URL of a document ends
/// with a slash and its collection base URL does not.
pub proof fn lemma_base_urls_are_normal(url: Seq<char>)
    ensures
        service_url(url).len() > 0 && service_url(url).last() == '/',
        collection_url(url).len() == 0 || collection_url(url).last() != '/',
        collection_url(url).is_prefix_of(url),
    decreases url.len(),
{
    if url.len() > 0 && url.last() == '/' {
        lemma_base_urls_are_normal(url.drop_last());
    }
}

/// The attributes of a document's root element.
pub open spec fn root_attrs(base: Seq<char>) -> Seq<(Seq<char>, Seq<char>)> {
    seq![
        ("xml:base"@, base),
        ("xmlns"@, "http://www.w3.org/2005/Atom"@),
        ("xmlns:d"@, "http://schemas.microsoft.com/ado/2007/08/dataservices"@),
        ("xmlns:m"@, "http://schemas.microsoft.com/ado/2007/08/dataservices/metadata"@),
    ]
}

/// The XML declaration that every document begins with.
pub open spec fn declaration() -> EventView {
    EventView::Decl { version: "1.0"@, encoding: "utf-8"@ }
}

/// What stands in a feed before its entries.
pub open spec fn feed_head(info: CollectionInfo, updated: Seq<char>) -> Seq<EventView> {
    seq![
        declaration(),
        EventView::Start { name: "feed"@, attrs: root_attrs(service_url(info.service_base_url@)) },
    ] + element("id"@, Seq::empty(), collection_url(info.collection_base_url@)) + element(
        "title"@,
        seq![("type"@, "text"@)],
        info.collection_name@,
    ) + element("updated"@, Seq::empty(), updated) + seq![
        EventView::Empty {
            name: "link"@,
            attrs: seq![
                ("rel"@, "self"@),
                ("title"@, info.collection_name@),
                ("href"@, info.collection_name@),
            ],
        },
    ]
}

/// The texts that the entries of a collection's documents share.
pub open spec fn entry_names(info: CollectionInfo, updated: Seq<char>) -> EntryNames {
    EntryNames {
        base: collection_url(info.collection_base_url@),
        name: info.collection_name@,
        fq_type: info.collection_namespace@ + "."@ + info.collection_name@,
        updated,
    }
}

/// What an internal error says of an update time without a text.
pub open spec fn updated_out_of_range() -> Seq<char> {
    "Update time is out of range"@
}

/// What has to hold before any document is made: both base URLs are http or
/// https, the columns can be laid out, and the update time has a text. The
/// answer is the layout and that text.
pub open spec fn document_setup(schema: Schema, info: CollectionInfo, updated_millis: i64) -> Result<
    (Seq<PlannedColumn>, Option<int>, Seq<char>),
    ErrorKind,
> {
    if !"http"@.is_prefix_of(info.service_base_url@) {
        Err(ErrorKind::UnsupportedNetProtocol(info.service_base_url@))
    } else if !"http"@.is_prefix_of(info.collection_base_url@) {
        Err(ErrorKind::UnsupportedNetProtocol(info.collection_base_url@))
    } else {
        match planned(
            schema.fields@,
            info.key_column_alias@,
            info.on_unsupported,
            schema.fields@.len() as int,
        ) {
            Err(t) => Err(ErrorKind::UnsupportedDataType(t)),
            Ok(plan) => match rfc3339_millis(updated_millis) {
                None => Err(ErrorKind::Internal(updated_out_of_range())),
                Some(updated) => Ok(
                    (
                        plan,
                        key_position(
                            schema.fields@,
                            info.key_column_alias@,
                            schema.fields@.len() as int,
                        ),
                        updated,
                    ),
                ),
            },
        }
    }
}

/// What an internal error says of a batch of another shape than the schema.
pub open spec fn batch_mismatch() -> Seq<char> {
    "Batch does not match the schema"@
}

/// What an internal error says of a batch without the row asked for.
pub open spec fn batch_empty() -> Seq<char> {
    "Batch holds no row"@
}

/// Whether every batch has the shape the schema asks for.
pub open spec fn all_match(batches: Seq<RecordBatch>, schema: Schema) -> bool {
    forall|i: int| 0 <= i < batches.len() ==> (#[trigger] batches[i]).matches(&schema)
}

/// The feed document of a collection: the events of the whole document, or
/// the first failure met on the way, in the order setup, the shape of the
/// batches, then row by row the key and the columns. A batch that does not
/// match the schema is a fault of the query engine.
pub open spec fn feed_document(
    schema: Schema,
    batches: Seq<RecordBatch>,
    info: CollectionInfo,
    updated_millis: i64,
) -> Result<Seq<EventView>, ErrorKind> {
    match document_setup(schema, info, updated_millis) {
        Err(e) => Err(e),
        Ok((plan, key_index, updated)) => if !all_match(batches, schema) {
            Err(ErrorKind::Internal(batch_mismatch()))
        } else {
            match feed_entries(
                entry_names(info, updated),
                plan,
                key_index,
                batches,
                batches.len() as int,
            ) {
                Err(e) => Err(e),
                Ok(entries) => Ok(
                    feed_head(info, updated) + entries + seq![EventView::End { name: "feed"@ }],
                ),
            }
        },
    }
}

/// The entry document of the first row of a batch. A batch that does not
/// match the schema, or holds no row, is a fault of the query engine.
pub open spec fn entry_document(
    schema: Schema,
    batch: RecordBatch,
    info: CollectionInfo,
    updated_millis: i64,
) -> Result<Seq<EventView>, ErrorKind> {
    match document_setup(schema, info, updated_millis) {
        Err(e) => Err(e),
        Ok((plan, key_index, updated)) => if !batch.matches(&schema) {
            Err(ErrorKind::Internal(batch_mismatch()))
        } else if batch.num_rows == 0 {
            Err(ErrorKind::Internal(batch_empty()))
        } else {
            match entry_inner(entry_names(info, updated), plan, key_index, batch, 0) {
                Err(e) => Err(e),
                Ok(inner) => Ok(
                    seq![
                        declaration(),
                        EventView::Start {
                            name: "entry"@,
                            attrs: root_attrs(service_url(info.service_base_url@)),
                        },
                    ] + inner + seq![EventView::End { name: "entry"@ }],
                ),
            }
        },
    }
}

/// The opening tag of an entry of a feed.
pub open spec fn entry_start() -> EventView {
    EventView::Start { name: "entry"@, attrs: Seq::empty() }
}

/// The number of entries that open in a run of events.
pub open spec fn entry_count(events: Seq<EventView>) -> nat
    decreases events.len(),
{
    if events.len() == 0 {
        0
    } else {
        entry_count(events.drop_last()) + if events.last() == entry_start() {
            1nat
        } else {
            0nat
        }
    }
}

proof fn lemma_entry_count_adds(a: Seq<EventView>, b: Seq<EventView>)
    ensures
        entry_count(a + b) == entry_count(a) + entry_count(b),
    decreases b.len(),
{
    if b.len() == 0 {
        assert(a + b =~= a);
    } else {
        lemma_entry_count_adds(a, b.drop_last());
        assert((a + b).drop_last() =~= a + b.drop_last());
        assert((a + b).last() == b.last());
    }
}

proof fn lemma_entry_count_none(events: Seq<EventView>)
    requires
        forall|i: int| 0 <= i < events.len() ==> events[i] != entry_start(),
    ensures
        entry_count(events) == 0,
    decreases events.len(),
{
    if events.len() > 0 {
        lemma_entry_count_none(events.drop_last());
    }
}

proof fn lemma_properties_open_no_entry(
    plan: Seq<PlannedColumn>,
    batch: RecordBatch,
    row: int,
    n: int,
)
    ensures
        property_events(plan, batch, row, n) matches Ok(events) ==> entry_count(events) == 0,
    decreases n,
{
    if n > 0 {
        lemma_properties_open_no_entry(plan, batch, row, n - 1);
        match property_events(plan, batch, row, n - 1) {
            Ok(prev) => {
                let c = plan[n - 1];
                let col = batch.columns@[c.index];
                match encoded_text(col.data_type, col.cells@[row]) {
                    Ok(text) => {
                        let one = element(c.tag, seq![("m:type"@, c.typ)], text);
                        assert(one[0]->Start_attrs.len() == 1);
                        lemma_entry_count_none(one);
                        lemma_entry_count_adds(prev, one);
                    },
                    Err(_) => {},
                }
            },
            Err(_) => {},
        }
    }
}

proof fn lemma_names_differ()
    ensures
        "id"@ != "entry"@,
        "title"@ != "entry"@,
        "updated"@ != "entry"@,
        "author"@ != "entry"@,
        "m:properties"@ != "entry"@,
{
    reveal_strlit("id");
    reveal_strlit("title");
    reveal_strlit("updated");
    reveal_strlit("author");
    reveal_strlit("m:properties");
    reveal_strlit("entry");
    assert("title"@[0] != "entry"@[0]);
}

proof fn lemma_entry_inner_opens_no_entry(
    names: EntryNames,
    plan: Seq<PlannedColumn>,
    key_index: Option<int>,
    batch: RecordBatch,
    row: int,
)
    ensures
        entry_inner(names, plan, key_index, batch, row) matches Ok(events) ==> entry_count(events)
            == 0,
{
    match entry_inner(names, plan, key_index, batch, row) {
        Ok(events) => {
            let k = key_index->Some_0;
            let id = plain_text(batch.columns@[k].data_type, batch.columns@[k].cells@[row])->Ok_0;
            let props = property_events(plan, batch, row, plan.len() as int)->Ok_0;
            lemma_names_differ();
            lemma_properties_open_no_entry(plan, batch, row, plan.len() as int);
            let head = entry_head(
                names,
                encoded_text(batch.columns@[k].data_type, batch.columns@[k].cells@[row])->Ok_0,
                id,
            );
            assert(head[12]->Start_attrs.len() == 1);
            lemma_entry_count_none(head);
            lemma_entry_count_none(entry_tail());
            lemma_entry_count_adds(head, props);
            lemma_entry_count_adds(head + props, entry_tail());
        },
        Err(_) => {},
    }
}

proof fn lemma_batch_entries_count(
    names: EntryNames,
    plan: Seq<PlannedColumn>,
    key_index: Option<int>,
    batch: RecordBatch,
    n: int,
)
    requires
        0 <= n,
    ensures
        batch_entries(names, plan, key_index, batch, n) matches Ok(events) ==> entry_count(events)
            == n,
    decreases n,
{
    if n > 0 {
        lemma_batch_entries_count(names, plan, key_index, batch, n - 1);
        match batch_entries(names, plan, key_index, batch, n - 1) {
            Ok(prev) => match entry_inner(names, plan, key_index, batch, n - 1) {
                Ok(inner) => {
                    lemma_entry_inner_opens_no_entry(names, plan, key_index, batch, n - 1);
                    let open = seq![entry_start()];
                    let close = seq![EventView::End { name: "entry"@ }];
                    reveal_with_fuel(entry_count, 2);
                    assert(entry_count(open) == 1);
                    assert(entry_count(close) == 0);
                    lemma_entry_count_adds(prev, open);
                    lemma_entry_count_adds(prev + open, inner);
                    lemma_entry_count_adds(prev + open + inner, close);
                },
                Err(_) => {},
            },
            Err(_) => {},
        }
    }
}

proof fn lemma_feed_entries_count(
    names: EntryNames,
    plan: Seq<PlannedColumn>,
    key_index: Option<int>,
    batches: Seq<RecordBatch>,
    n: int,
)
    requires
        0 <= n,
    ensures
        feed_entries(names, plan, key_index, batches, n) matches Ok(events) ==> entry_count(events)
            == total_rows(batches, n),
    decreases n,
{
    if n > 0 {
        lemma_feed_entries_count(names, plan, key_index, batches, n - 1);
        match feed_entries(names, plan, key_index, batches, n - 1) {
            Ok(prev) => match batch_entries(
                names,
                plan,
                key_index,
                batches[n - 1],
                batches[n - 1].num_rows as int,
            ) {
                Ok(rows) => {
                    lemma_batch_entries_count(
                        names,
                        plan,
                        key_index,
                        batches[n - 1],
                        batches[n - 1].num_rows as int,
                    );
                    lemma_entry_count_adds(prev, rows);
                },
                Err(_) => {},
            },
            Err(_) => {},
        }
    }
}

/// A feed holds one entry for each row that the engine handed over, neither
/// more nor fewer.
pub proof fn lemma_feed_has_one_entry_per_row(
    schema: Schema,
    batches: Seq<RecordBatch>,
    info: CollectionInfo,
    updated_millis: i64,
)
    ensures
        feed_document(schema, batches, info, updated_millis) matches Ok(events) ==> entry_count(
            events,
        ) == total_rows(batches, batches.len() as int),
{
    match feed_document(schema, batches, info, updated_millis) {
        Ok(events) => {
            let (plan, key_index, updated) = document_setup(schema, info, updated_millis)->Ok_0;
            let names = entry_names(info, updated);
            let entries = feed_entries(names, plan, key_index, batches, batches.len() as int)->Ok_0;
            lemma_feed_entries_count(names, plan, key_index, batches, batches.len() as int);
            lemma_names_differ();
            let head = feed_head(info, updated);
            assert(head[1]->Start_attrs.len() == 4);
            assert(head[5]->Start_attrs.len() == 1);
            lemma_entry_count_none(head);
            let close = seq![EventView::End { name: "feed"@ }];
            lemma_entry_count_none(close);
            lemma_entry_count_adds(head, entries);
            lemma_entry_count_adds(head + entries, close);
        },
        Err(_) => {},
    }
}

proof fn lemma_element_is_balanced(
    name: Seq<char>,
    attrs: Seq<(Seq<char>, Seq<char>)>,
    text: Seq<char>,
)
    ensures
        balanced(element(name, attrs, text)),
{
    let inner = seq![EventView::Text { escaped: text }];
    lemma_balanced_flat(inner);
    lemma_balanced_within(name, attrs, inner);
    assert(element(name, attrs, text) =~= seq![EventView::Start { name, attrs }] + inner + seq![
        EventView::End { name },
    ]);
}

proof fn lemma_properties_are_balanced(
    plan: Seq<PlannedColumn>,
    batch: RecordBatch,
    row: int,
    n: int,
)
    ensures
        property_events(plan, batch, row, n) matches Ok(events) ==> balanced(events),
    decreases n,
{
    if n > 0 {
        lemma_properties_are_balanced(plan, batch, row, n - 1);
        match property_events(plan, batch, row, n - 1) {
            Ok(prev) => {
                let c = plan[n - 1];
                let col = batch.columns@[c.index];
                match encoded_text(col.data_type, col.cells@[row]) {
                    Ok(text) => {
                        lemma_element_is_balanced(c.tag, seq![("m:type"@, c.typ)], text);
                        lemma_balanced_both(
                            prev,
                            element(c.tag, seq![("m:type"@, c.typ)], text),
                        );
                    },
                    Err(_) => {},
                }
            },
            Err(_) => {},
        }
    } else {
        lemma_balanced_flat(Seq::<EventView>::empty());
    }
}

proof fn lemma_entry_inner_is_balanced(
    names: EntryNames,
    plan: Seq<PlannedColumn>,
    key_index: Option<int>,
    batch: RecordBatch,
    row: int,
)
    ensures
        entry_inner(names, plan, key_index, batch, row) matches Ok(events) ==> balanced(events),
{
    match entry_inner(names, plan, key_index, batch, row) {
        Ok(events) => {
            let k = key_index->Some_0;
            let id = plain_text(batch.columns@[k].data_type, batch.columns@[k].cells@[row])->Ok_0;
            let id_text = encoded_text(
                batch.columns@[k].data_type,
                batch.columns@[k].cells@[row],
            )->Ok_0;
            let props = property_events(plan, batch, row, plan.len() as int)->Ok_0;
            lemma_properties_are_balanced(plan, batch, row, plan.len() as int);

            let id_element = element("id"@, Seq::empty(), names.base + "("@ + id_text + ")"@);
            let flat = seq![
                EventView::Empty {
                    name: "category"@,
                    attrs: seq![("scheme"@, scheme_uri()), ("term"@, names.fq_type)],
                },
                EventView::Empty {
                    name: "link"@,
                    attrs: seq![
                        ("rel"@, "edit"@),
                        ("title"@, names.name),
                        ("href"@, names.name + "("@ + id + ")"@),
                    ],
                },
                EventView::Empty { name: "title"@, attrs: Seq::empty() },
            ];
            let updated = element("updated"@, Seq::empty(), names.updated);
            let author_inner = seq![EventView::Empty { name: "name"@, attrs: Seq::empty() }];
            let author = seq![EventView::Start { name: "author"@, attrs: Seq::empty() }]
                + author_inner + seq![EventView::End { name: "author"@ }];
            let properties = seq![EventView::Start { name: "m:properties"@, attrs: Seq::empty() }]
                + props + seq![EventView::End { name: "m:properties"@ }];
            let content = seq![
                EventView::Start { name: "content"@, attrs: seq![("type"@, "application/xml"@)] },
            ] + properties + seq![EventView::End { name: "content"@ }];

            lemma_element_is_balanced("id"@, Seq::empty(), names.base + "("@ + id_text + ")"@);
            lemma_balanced_flat(flat);
            lemma_element_is_balanced("updated"@, Seq::empty(), names.updated);
            lemma_balanced_flat(author_inner);
            lemma_balanced_within("author"@, Seq::empty(), author_inner);
            lemma_balanced_within("m:properties"@, Seq::empty(), props);
            lemma_balanced_within("content"@, seq![("type"@, "application/xml"@)], properties);
            lemma_balanced_both(id_element, flat);
            lemma_balanced_both(id_element + flat, updated);
            lemma_balanced_both(id_element + flat + updated, author);
            lemma_balanced_both(id_element + flat + updated + author, content);
            assert(events =~= id_element + flat + updated + author + content);
        },
        Err(_) => {},
    }
}

proof fn lemma_batch_entries_are_balanced(
    names: EntryNames,
    plan: Seq<PlannedColumn>,
    key_index: Option<int>,
    batch: RecordBatch,
    n: int,
)
    ensures
        batch_entries(names, plan, key_index, batch, n) matches Ok(events) ==> balanced(events),
    decreases n,
{
    if n > 0 {
        lemma_batch_entries_are_balanced(names, plan, key_index, batch, n - 1);
        match batch_entries(names, plan, key_index, batch, n - 1) {
            Ok(prev) => match entry_inner(names, plan, key_index, batch, n - 1) {
                Ok(inner) => {
                    lemma_entry_inner_is_balanced(names, plan, key_index, batch, n - 1);
                    lemma_balanced_within("entry"@, Seq::empty(), inner);
                    let entry = seq![EventView::Start { name: "entry"@, attrs: Seq::empty() }]
                        + inner + seq![EventView::End { name: "entry"@ }];
                    lemma_balanced_both(prev, entry);
                    assert(prev + seq![EventView::Start { name: "entry"@, attrs: Seq::empty() }]
                        + inner + seq![EventView::End { name: "entry"@ }] =~= prev + entry);
                },
                Err(_) => {},
            },
            Err(_) => {},
        }
    } else {
        lemma_balanced_flat(Seq::<EventView>::empty());
    }
}

proof fn lemma_feed_entries_are_balanced(
    names: EntryNames,
    plan: Seq<PlannedColumn>,
    key_index: Option<int>,
    batches: Seq<RecordBatch>,
    n: int,
)
    ensures
        feed_entries(names, plan, key_index, batches, n) matches Ok(events) ==> balanced(events),
    decreases n,
{
    if n > 0 {
        lemma_feed_entries_are_balanced(names, plan, key_index, batches, n - 1);
        match feed_entries(names, plan, key_index, batches, n - 1) {
            Ok(prev) => match batch_entries(
                names,
                plan,
                key_index,
                batches[n - 1],
                batches[n - 1].num_rows as int,
            ) {
                Ok(rows) => {
                    lemma_batch_entries_are_balanced(
                        names,
                        plan,
                        key_index,
                        batches[n - 1],
                        batches[n - 1].num_rows as int,
                    );
                    lemma_balanced_both(prev, rows);
                },
                Err(_) => {},
            },
            Err(_) => {},
        }
    } else {
        lemma_balanced_flat(Seq::<EventView>::empty());
    }
}

/// Every feed is a document: a declaration, then the `feed` element, within
/// which every element that opens is closed, in order.
pub proof fn lemma_feed_is_a_document(
    schema: Schema,
    batches: Seq<RecordBatch>,
    info: CollectionInfo,
    updated_millis: i64,
)
    ensures
        feed_document(schema, batches, info, updated_millis) matches Ok(events) ==> is_document(
            events,
        ),
{
    match feed_document(schema, batches, info, updated_millis) {
        Ok(events) => {
            let (plan, key_index, updated) = document_setup(schema, info, updated_millis)->Ok_0;
            let names = entry_names(info, updated);
            let entries = feed_entries(names, plan, key_index, batches, batches.len() as int)->Ok_0;
            lemma_feed_entries_are_balanced(names, plan, key_index, batches, batches.len() as int);
            let id = element("id"@, Seq::empty(), collection_url(info.collection_base_url@));
            let title = element("title"@, seq![("type"@, "text"@)], info.collection_name@);
            let time = element("updated"@, Seq::empty(), updated);
            let link = seq![
                EventView::Empty {
                    name: "link"@,
                    attrs: seq![
                        ("rel"@, "self"@),
                        ("title"@, info.collection_name@),
                        ("href"@, info.collection_name@),
                    ],
                },
            ];
            lemma_element_is_balanced(
                "id"@,
                Seq::empty(),
                collection_url(info.collection_base_url@),
            );
            lemma_element_is_balanced("title"@, seq![("type"@, "text"@)], info.collection_name@);
            lemma_element_is_balanced("updated"@, Seq::empty(), updated);
            lemma_balanced_flat(link);
            lemma_balanced_both(id, title);
            lemma_balanced_both(id + title, time);
            lemma_balanced_both(id + title + time, link);
            lemma_balanced_both(id + title + time + link, entries);
            assert(events.subrange(2, events.len() - 1) =~= id + title + time + link + entries);
        },
        Err(_) => {},
    }
}

/// Every entry is a document: a declaration, then the `entry` element,
/// within which every element that opens is closed, in order.
pub proof fn lemma_entry_is_a_document(
    schema: Schema,
    batch: RecordBatch,
    info: CollectionInfo,
    updated_millis: i64,
)
    ensures
        entry_document(schema, batch, info, updated_millis) matches Ok(events) ==> is_document(
            events,
        ),
{
    match entry_document(schema, batch, info, updated_millis) {
        Ok(events) => {
            let (plan, key_index, updated) = document_setup(schema, info, updated_millis)->Ok_0;
            let names = entry_names(info, updated);
            let inner = entry_inner(names, plan, key_index, batch, 0)->Ok_0;
            lemma_entry_inner_is_balanced(names, plan, key_index, batch, 0);
            assert(events.subrange(2, events.len() - 1) =~= inner);
        },
        Err(_) => {},
    }
}

/// Whether an outcome is the one a specification asks for.
pub open spec fn events_result(
    r: Result<Vec<XmlEvent>, ODataError>,
    wanted: Result<Seq<EventView>, ErrorKind>,
) -> bool {
    match r {
        Ok(events) => wanted == Ok::<Seq<EventView>, ErrorKind>(events_view(events@)),
        Err(e) => wanted == Err::<Seq<EventView>, ErrorKind>(e@),
    }
}

fn attr(key: &str, value: &str) -> (r: (String, String))
    ensures
        r.0@ == key@,
        r.1@ == value@,
{
    (key.to_owned(), value.to_owned())
}

pub(crate) fn no_attrs() -> (r: Vec<(String, String)>)
    ensures
        attrs_view(r@) == Seq::<(Seq<char>, Seq<char>)>::empty(),
{
    let r: Vec<(String, String)> = Vec::new();
    assert(attrs_view(r@) =~= Seq::<(Seq<char>, Seq<char>)>::empty());
    r
}

pub(crate) fn one_attr(key: &str, value: &str) -> (r: Vec<(String, String)>)
    ensures
        attrs_view(r@) == seq![(key@, value@)],
{
    let mut r: Vec<(String, String)> = Vec::new();
    r.push(attr(key, value));
    assert(attrs_view(r@) =~= seq![(key@, value@)]);
    r
}

pub(crate) fn add_attr(attrs: &mut Vec<(String, String)>, key: &str, value: &str)
    ensures
        attrs_view(final(attrs)@) == attrs_view(old(attrs)@).push((key@, value@)),
{
    attrs.push(attr(key, value));
    assert(attrs_view(attrs@) =~= attrs_view(old(attrs)@).push((key@, value@)));
}

pub(crate) fn push_event(out: &mut Vec<XmlEvent>, e: XmlEvent)
    ensures
        events_view(final(out)@) == events_view(old(out)@).push(e@),
{
    out.push(e);
    assert(events_view(out@) =~= events_view(old(out)@).push(e@));
}

pub(crate) fn push_start(out: &mut Vec<XmlEvent>, name: &str, attrs: Vec<(String, String)>)
    ensures
        events_view(final(out)@) == events_view(old(out)@).push(
            EventView::Start { name: name@, attrs: attrs_view(attrs@) },
        ),
{
    push_event(out, XmlEvent::Start { name: name.to_owned(), attrs });
}

pub(crate) fn push_empty(out: &mut Vec<XmlEvent>, name: &str, attrs: Vec<(String, String)>)
    ensures
        events_view(final(out)@) == events_view(old(out)@).push(
            EventView::Empty { name: name@, attrs: attrs_view(attrs@) },
        ),
{
    push_event(out, XmlEvent::Empty { name: name.to_owned(), attrs });
}

pub(crate) fn push_end(out: &mut Vec<XmlEvent>, name: &str)
    ensures
        events_view(final(out)@) == events_view(old(out)@).push(EventView::End { name: name@ }),
{
    push_event(out, XmlEvent::End { name: name.to_owned() });
}

pub(crate) fn push_element(out: &mut Vec<XmlEvent>, name: &str, attrs: Vec<(String, String)>, text: String)
    ensures
        events_view(final(out)@) == events_view(old(out)@) + element(
            name@,
            attrs_view(attrs@),
            text@,
        ),
{
    push_start(out, name, attrs);
    push_event(out, XmlEvent::Text { escaped: text });
    push_end(out, name);
    assert(events_view(out@) =~= events_view(old(out)@) + element(
        name@,
        attrs_view(attrs@),
        text@,
    ));
}

pub(crate) fn append_events(out: &mut Vec<XmlEvent>, more: Vec<XmlEvent>)
    ensures
        events_view(final(out)@) == events_view(old(out)@) + events_view(more@),
{
    let ghost added = more@;
    let mut more = more;
    out.append(&mut more);
    assert(events_view(out@) =~= events_view(old(out)@) + events_view(added));
}

/// The service base URL with its trailing slash.
fn normalized_service_url(url: &str) -> (r: String)
    ensures
        r@ == service_url(url@),
{
    proof {
        reveal_strlit("/");
    }
    if ends_with(url, "/") {
        assert(url@.subrange(url@.len() - 1, url@.len() as int)[0] == '/');
        url.to_owned()
    } else {
        proof {
            if url@.len() > 0 && url@.last() == '/' {
                assert(url@.subrange(url@.len() - 1, url@.len() as int) =~= "/"@);
            }
        }
        let r = url.to_owned().concat("/");
        assert(r@ =~= url@.push('/'));
        r
    }
}

/// The collection base URL without its trailing slashes.
fn normalized_collection_url(url: &str) -> (r: String)
    ensures
        r@ == collection_url(url@),
{
    let chars = chars_of(url);
    let mut n: usize = chars.len();
    assert(url@.take(n as int) =~= url@);
    while n > 0 && chars[n - 1] == '/'
        invariant
            chars@ == url@,
            n <= url@.len(),
            collection_url(url@) == collection_url(url@.take(n as int)),
        decreases n,
    {
        assert(url@.take(n as int).drop_last() =~= url@.take(n - 1));
        n = n - 1;
    }
    assert(url@.take(n as int) =~= url@.subrange(0, n as int));
    text_of(&chars, 0, n)
}

fn root_attributes(base: &str) -> (r: Vec<(String, String)>)
    ensures
        attrs_view(r@) == root_attrs(base@),
{
    let mut attrs = one_attr("xml:base", base);
    add_attr(&mut attrs, "xmlns", "http://www.w3.org/2005/Atom");
    add_attr(&mut attrs, "xmlns:d", "http://schemas.microsoft.com/ado/2007/08/dataservices");
    add_attr(
        &mut attrs,
        "xmlns:m",
        "http://schemas.microsoft.com/ado/2007/08/dataservices/metadata",
    );
    assert(attrs_view(attrs@) =~= root_attrs(base@));
    attrs
}

pub(crate) fn declaration_event() -> (r: XmlEvent)
    ensures
        r@ == declaration(),
{
    XmlEvent::Decl { version: "1.0".to_owned(), encoding: "utf-8".to_owned() }
}

/// The texts that the entries of a document share, as strings.
struct Names {
    base: String,
    name: String,
    fq_type: String,
    updated: String,
}

impl Names {
    spec fn view(&self) -> EntryNames {
        EntryNames {
            base: self.base@,
            name: self.name@,
            fq_type: self.fq_type@,
            updated: self.updated@,
        }
    }
}

/// What setup hands to the encoders.
struct Setup {
    plan: ColumnPlan,
    names: Names,
    service_base: String,
}

fn setup(schema: &Schema, info: &CollectionInfo, updated_millis: i64) -> (r: Result<Setup, ODataError>)
    ensures
        match r {
            Ok(s) => {
                &&& document_setup(*schema, *info, updated_millis) == Ok::<
                    (Seq<PlannedColumn>, Option<int>, Seq<char>),
                    ErrorKind,
                >((plan_view(s.plan.edms@), option_index(s.plan.key_index), s.names.updated@))
                &&& s.names.view() == entry_names(*info, s.names.updated@)
                &&& s.service_base@ == service_url(info.service_base_url@)
                &&& s.plan.within(schema.fields@.len() as int)
            },
            Err(e) => document_setup(*schema, *info, updated_millis) == Err::<
                (Seq<PlannedColumn>, Option<int>, Seq<char>),
                ErrorKind,
            >(e@),
        },
{
    if !starts_with(info.service_base_url.as_str(), "http") {
        return Err(
            ODataError::UnsupportedNetProtocol(
                UnsupportedNetProtocol::new(info.service_base_url.clone()),
            ),
        );
    }
    if !starts_with(info.collection_base_url.as_str(), "http") {
        return Err(
            ODataError::UnsupportedNetProtocol(
                UnsupportedNetProtocol::new(info.collection_base_url.clone()),
            ),
        );
    }
    let service_base = normalized_service_url(info.service_base_url.as_str());
    let base = normalized_collection_url(info.collection_base_url.as_str());
    let fq_type = info.collection_namespace.clone().concat(".").concat(
        info.collection_name.as_str(),
    );
    let plan = match to_edms(schema, info.key_column_alias.as_str(), info.on_unsupported) {
        Ok(plan) => plan,
        Err(e) => {
            return Err(ODataError::UnsupportedDataType(e));
        },
    };
    let updated = match encode_date_time(updated_millis) {
        Some(text) => text,
        None => {
            return Err(ODataError::internal("Update time is out of range"));
        },
    };
    Ok(Setup { plan, names: Names { base, name: info.collection_name.clone(), fq_type, updated }, service_base })
}

/// The properties of one row.
fn row_properties(plan: &ColumnPlan, batch: &RecordBatch, row: usize) -> (r: Result<
    Vec<XmlEvent>,
    UnsupportedDataType,
>)
    requires
        plan.within(batch.columns@.len() as int),
        forall|i: int| 0 <= i < batch.columns@.len() ==> row < (#[trigger] batch.columns@[i]).cells@.len(),
    ensures
        match r {
            Ok(events) => property_events(
                plan_view(plan.edms@),
                *batch,
                row as int,
                plan.edms@.len() as int,
            ) == Ok::<Seq<EventView>, DataType>(events_view(events@)),
            Err(e) => property_events(
                plan_view(plan.edms@),
                *batch,
                row as int,
                plan.edms@.len() as int,
            ) == Err::<Seq<EventView>, DataType>(e.data_type),
        },
{
    let mut out: Vec<XmlEvent> = Vec::new();
    let n: usize = plan.edms.len();
    let mut i: usize = 0;
    assert(events_view(out@) =~= Seq::<EventView>::empty());
    while i < n
        invariant
            n == plan.edms@.len(),
            i <= n,
            plan.within(batch.columns@.len() as int),
            forall|k: int|
                0 <= k < batch.columns@.len() ==> row < (#[trigger] batch.columns@[k]).cells@.len(),
            property_events(plan_view(plan.edms@), *batch, row as int, i as int) == Ok::<
                Seq<EventView>,
                DataType,
            >(events_view(out@)),
        decreases n - i,
    {
        let index: usize = plan.edms[i].1;
        let col = &batch.columns[index];
        match encode_primitive_dyn(col, row) {
            Ok(text) => {
                let attrs = one_attr("m:type", plan.edms[i].0.typ.as_str());
                push_element(&mut out, plan.edms[i].0.tag.as_str(), attrs, text);
            },
            Err(e) => {
                proof {
                    lemma_properties_error_stays(
                        plan_view(plan.edms@),
                        *batch,
                        row as int,
                        i + 1,
                        n as int,
                    );
                }
                return Err(e);
            },
        }
        i = i + 1;
    }
    Ok(out)
}

proof fn lemma_properties_error_stays(
    plan: Seq<PlannedColumn>,
    batch: RecordBatch,
    row: int,
    n: int,
    m: int,
)
    requires
        n <= m,
        property_events(plan, batch, row, n) is Err,
    ensures
        property_events(plan, batch, row, m) == property_events(plan, batch, row, n),
    decreases m - n,
{
    if n < m {
        lemma_properties_error_stays(plan, batch, row, n, m - 1);
    }
}

/// The inside of the entry of one row.
fn row_entry(names: &Names, plan: &ColumnPlan, batch: &RecordBatch, row: usize) -> (r: Result<
    Vec<XmlEvent>,
    ODataError,
>)
    requires
        plan.within(batch.columns@.len() as int),
        forall|i: int| 0 <= i < batch.columns@.len() ==> row < (#[trigger] batch.columns@[i]).cells@.len(),
    ensures
        events_result(
            r,
            entry_inner(
                names.view(),
                plan_view(plan.edms@),
                option_index(plan.key_index),
                *batch,
                row as int,
            ),
        ),
{
    let key: usize = match plan.key_index {
        Some(k) => k,
        None => {
            return Err(ODataError::KeyColumnNotAssigned(KeyColumnNotAssigned));
        },
    };
    let id = match primitive_text(&batch.columns[key], row) {
        Ok(id) => id,
        Err(e) => {
            return Err(ODataError::UnsupportedDataType(e));
        },
    };
    let id_text = match encode_primitive_dyn(&batch.columns[key], row) {
        Ok(text) => text,
        Err(e) => {
            return Err(ODataError::UnsupportedDataType(e));
        },
    };
    let entry_url_rel = names.name.clone().concat("(").concat(id.as_str()).concat(")");
    let entry_url_full = names.base.clone().concat("(").concat(id_text.as_str()).concat(")");

    let mut out: Vec<XmlEvent> = Vec::new();
    assert(events_view(out@) =~= Seq::<EventView>::empty());
    push_element(&mut out, "id", no_attrs(), entry_url_full);
    let mut category = one_attr(
        "scheme",
        "http://schemas.microsoft.com/ado/2007/08/dataservices/scheme",
    );
    add_attr(&mut category, "term", names.fq_type.as_str());
    assert(attrs_view(category@) =~= seq![("scheme"@, scheme_uri()), ("term"@, names.fq_type@)]);
    push_empty(&mut out, "category", category);
    let mut link = one_attr("rel", "edit");
    add_attr(&mut link, "title", names.name.as_str());
    add_attr(&mut link, "href", entry_url_rel.as_str());
    assert(attrs_view(link@) =~= seq![
        ("rel"@, "edit"@),
        ("title"@, names.name@),
        ("href"@, names.name@ + "("@ + id@ + ")"@),
    ]);
    push_empty(&mut out, "link", link);
    push_empty(&mut out, "title", no_attrs());
    push_element(&mut out, "updated", no_attrs(), names.updated.clone());
    push_start(&mut out, "author", no_attrs());
    push_empty(&mut out, "name", no_attrs());
    push_end(&mut out, "author");
    push_start(&mut out, "content", one_attr("type", "application/xml"));
    push_start(&mut out, "m:properties", no_attrs());
    assert(events_view(out@) =~= entry_head(names.view(), id_text@, id@));

    let props = match row_properties(plan, batch, row) {
        Ok(props) => props,
        Err(e) => {
            return Err(ODataError::UnsupportedDataType(e));
        },
    };
    append_events(&mut out, props);
    push_end(&mut out, "m:properties");
    push_end(&mut out, "content");
    assert(events_view(out@) =~= entry_head(names.view(), id_text@, id@) + events_view(props@)
        + entry_tail());
    Ok(out)
}

proof fn lemma_batch_error_stays(
    names: EntryNames,
    plan: Seq<PlannedColumn>,
    key_index: Option<int>,
    batch: RecordBatch,
    n: int,
    m: int,
)
    requires
        n <= m,
        batch_entries(names, plan, key_index, batch, n) is Err,
    ensures
        batch_entries(names, plan, key_index, batch, m) == batch_entries(
            names,
            plan,
            key_index,
            batch,
            n,
        ),
    decreases m - n,
{
    if n < m {
        lemma_batch_error_stays(names, plan, key_index, batch, n, m - 1);
    }
}

proof fn lemma_feed_error_stays(
    names: EntryNames,
    plan: Seq<PlannedColumn>,
    key_index: Option<int>,
    batches: Seq<RecordBatch>,
    n: int,
    m: int,
)
    requires
        n <= m,
        feed_entries(names, plan, key_index, batches, n) is Err,
    ensures
        feed_entries(names, plan, key_index, batches, m) == feed_entries(
            names,
            plan,
            key_index,
            batches,
            n,
        ),
    decreases m - n,
{
    if n < m {
        lemma_feed_error_stays(names, plan, key_index, batches, n, m - 1);
    }
}

/// The entries of all rows of one batch.
fn batch_rows(names: &Names, plan: &ColumnPlan, batch: &RecordBatch) -> (r: Result<
    Vec<XmlEvent>,
    ODataError,
>)
    requires
        plan.within(batch.columns@.len() as int),
        forall|i: int|
            0 <= i < batch.columns@.len() ==> (#[trigger] batch.columns@[i]).cells@.len()
                == batch.num_rows,
    ensures
        events_result(
            r,
            batch_entries(
                names.view(),
                plan_view(plan.edms@),
                option_index(plan.key_index),
                *batch,
                batch.num_rows as int,
            ),
        ),
{
    let mut out: Vec<XmlEvent> = Vec::new();
    assert(events_view(out@) =~= Seq::<EventView>::empty());
    let n: usize = batch.num_rows;
    let mut row: usize = 0;
    while row < n
        invariant
            n == batch.num_rows,
            row <= n,
            plan.within(batch.columns@.len() as int),
            forall|i: int|
                0 <= i < batch.columns@.len() ==> (#[trigger] batch.columns@[i]).cells@.len()
                    == batch.num_rows,
            batch_entries(
                names.view(),
                plan_view(plan.edms@),
                option_index(plan.key_index),
                *batch,
                row as int,
            ) == Ok::<Seq<EventView>, ErrorKind>(events_view(out@)),
        decreases n - row,
    {
        let ghost before = events_view(out@);
        match row_entry(names, plan, batch, row) {
            Ok(inner) => {
                push_start(&mut out, "entry", no_attrs());
                append_events(&mut out, inner);
                push_end(&mut out, "entry");
                assert(events_view(out@) =~= before + seq![
                    EventView::Start { name: "entry"@, attrs: Seq::empty() },
                ] + events_view(inner@) + seq![EventView::End { name: "entry"@ }]);
            },
            Err(e) => {
                proof {
                    lemma_batch_error_stays(
                        names.view(),
                        plan_view(plan.edms@),
                        option_index(plan.key_index),
                        *batch,
                        row + 1,
                        n as int,
                    );
                }
                return Err(e);
            },
        }
        row = row + 1;
    }
    Ok(out)
}

/// Checks that every batch has the shape the schema asks for.
pub(crate) fn all_conform(batches: &Vec<RecordBatch>, schema: &Schema) -> (r: bool)
    ensures
        r == all_match(batches@, *schema),
{
    let mut i: usize = 0;
    while i < batches.len()
        invariant
            i <= batches@.len(),
            forall|k: int| 0 <= k < i ==> (#[trigger] batches@[k]).matches(schema),
        decreases batches@.len() - i,
    {
        if !batches[i].conforms_to(schema) {
            return false;
        }
        i = i + 1;
    }
    true
}

/// The events of the feed of a collection.
///
/// Fails with `UnsupportedNetProtocol` on a base URL that is not http or
/// https, with `UnsupportedDataType` on a column without a mapping under the
/// `Error` policy or on a cell without text, with `KeyColumnNotAssigned`
/// where a row is to be shown and no field bears the key alias, and with
/// `Internal` on an update time that is out of range and on a batch that
/// does not match the schema.
pub fn atom_feed_events(
    schema: &Schema,
    record_batches: &Vec<RecordBatch>,
    ctx: &CollectionInfo,
    updated_time: i64,
) -> (r: Result<Vec<XmlEvent>, ODataError>)
    ensures
        events_result(r, feed_document(*schema, record_batches@, *ctx, updated_time)),
{
    let s = setup(schema, ctx, updated_time)?;
    if !all_conform(record_batches, schema) {
        return Err(ODataError::internal("Batch does not match the schema"));
    }
    let mut out: Vec<XmlEvent> = Vec::new();
    assert(events_view(out@) =~= Seq::<EventView>::empty());
    push_event(&mut out, declaration_event());
    push_start(&mut out, "feed", root_attributes(s.service_base.as_str()));
    push_element(&mut out, "id", no_attrs(), s.names.base.clone());
    push_element(&mut out, "title", one_attr("type", "text"), ctx.collection_name.clone());
    push_element(&mut out, "updated", no_attrs(), s.names.updated.clone());
    let mut link = one_attr("rel", "self");
    add_attr(&mut link, "title", ctx.collection_name.as_str());
    add_attr(&mut link, "href", ctx.collection_name.as_str());
    assert(attrs_view(link@) =~= seq![
        ("rel"@, "self"@),
        ("title"@, ctx.collection_name@),
        ("href"@, ctx.collection_name@),
    ]);
    push_empty(&mut out, "link", link);
    assert(events_view(out@) =~= feed_head(*ctx, s.names.updated@));

    let ghost head = events_view(out@);
    let ghost mut entries = Seq::<EventView>::empty();
    let n: usize = record_batches.len();
    let mut b: usize = 0;
    while b < n
        invariant
            n == record_batches@.len(),
            b <= n,
            all_match(record_batches@, *schema),
            s.plan.within(schema.fields@.len() as int),
            document_setup(*schema, *ctx, updated_time) == Ok::<
                (Seq<PlannedColumn>, Option<int>, Seq<char>),
                ErrorKind,
            >((plan_view(s.plan.edms@), option_index(s.plan.key_index), s.names.updated@)),
            s.names.view() == entry_names(*ctx, s.names.updated@),
            feed_entries(
                s.names.view(),
                plan_view(s.plan.edms@),
                option_index(s.plan.key_index),
                record_batches@,
                b as int,
            ) == Ok::<Seq<EventView>, ErrorKind>(entries),
            events_view(out@) == head + entries,
        decreases n - b,
    {
        let batch = &record_batches[b];
        assert(batch.matches(schema));
        match batch_rows(&s.names, &s.plan, batch) {
            Ok(rows) => {
                append_events(&mut out, rows);
                proof {
                    assert(head + entries + events_view(rows@) =~= head + (entries + events_view(
                        rows@,
                    )));
                    entries = entries + events_view(rows@);
                }
            },
            Err(e) => {
                proof {
                    lemma_feed_error_stays(
                        s.names.view(),
                        plan_view(s.plan.edms@),
                        option_index(s.plan.key_index),
                        record_batches@,
                        b + 1,
                        n as int,
                    );
                }
                return Err(e);
            },
        }
        b = b + 1;
    }
    push_end(&mut out, "feed");
    assert(events_view(out@) =~= feed_head(*ctx, s.names.updated@) + entries + seq![
        EventView::End { name: "feed"@ },
    ]);
    Ok(out)
}

/// The events of the entry document of the first row of a batch.
///
/// Fails as `atom_feed_events` does, and with `Internal` on a batch
/// without a row.
pub fn atom_entry_events(
    schema: &Schema,
    batch: &RecordBatch,
    ctx: &CollectionInfo,
    updated_time: i64,
) -> (r: Result<Vec<XmlEvent>, ODataError>)
    ensures
        events_result(r, entry_document(*schema, *batch, *ctx, updated_time)),
{
    let s = setup(schema, ctx, updated_time)?;
    if !batch.conforms_to(schema) {
        return Err(ODataError::internal("Batch does not match the schema"));
    }
    if batch.num_rows == 0 {
        return Err(ODataError::internal("Batch holds no row"));
    }
    let inner = row_entry(&s.names, &s.plan, batch, 0)?;
    let mut out: Vec<XmlEvent> = Vec::new();
    assert(events_view(out@) =~= Seq::<EventView>::empty());
    push_event(&mut out, declaration_event());
    push_start(&mut out, "entry", root_attributes(s.service_base.as_str()));
    append_events(&mut out, inner);
    push_end(&mut out, "entry");
    assert(events_view(out@) =~= seq![
        declaration(),
        EventView::Start { name: "entry"@, attrs: root_attrs(service_url(ctx.service_base_url@)) },
    ] + events_view(inner@) + seq![EventView::End { name: "entry"@ }]);
    Ok(out)
}

/// Whether a call has written what a specification asks for: it succeeds
/// exactly where there is a document, and then the writer has taken the
/// document and nothing else; where there is none, it fails as the
/// specification says and the writer holds what it held.
pub open spec fn written_result(
    r: Result<(), ODataError>,
    before: XmlWriter,
    after: XmlWriter,
    wanted: Result<Seq<EventView>, ErrorKind>,
) -> bool {
    match r {
        Ok(()) => wanted is Ok && after.bytes() == before.bytes() + rendered_bytes(wanted->Ok_0),
        Err(e) => wanted == Err::<Seq<EventView>, ErrorKind>(e@) && after.bytes() == before.bytes(),
    }
}

/// Whether two outcomes are the same: both succeed, or both fail with the
/// same error.
pub open spec fn same_outcome(first: Result<(), ODataError>, second: Result<(), ODataError>) -> bool {
    match (first, second) {
        (Ok(()), Ok(())) => true,
        (Err(a), Err(b)) => a@ == b@,
        _ => false,
    }
}

/// Encoding is repeatable: whenever the same schema, rows, context and
/// update time are written twice, to writers that held the same bytes, both
/// calls end the same way, with success or with the same error, and both
/// writers hold the same bytes afterwards.
pub proof fn lemma_feed_is_repeatable(
    schema: Schema,
    batches: Seq<RecordBatch>,
    info: CollectionInfo,
    updated_millis: i64,
    first: Result<(), ODataError>,
    first_before: XmlWriter,
    first_after: XmlWriter,
    second: Result<(), ODataError>,
    second_before: XmlWriter,
    second_after: XmlWriter,
)
    requires
        first_before.bytes() == second_before.bytes(),
        written_result(
            first,
            first_before,
            first_after,
            feed_document(schema, batches, info, updated_millis),
        ),
        written_result(
            second,
            second_before,
            second_after,
            feed_document(schema, batches, info, updated_millis),
        ),
    ensures
        same_outcome(first, second),
        first_after.bytes() == second_after.bytes(),
{
}

/// The same holds of a single entry.
pub proof fn lemma_entry_is_repeatable(
    schema: Schema,
    batch: RecordBatch,
    info: CollectionInfo,
    updated_millis: i64,
    first: Result<(), ODataError>,
    first_before: XmlWriter,
    first_after: XmlWriter,
    second: Result<(), ODataError>,
    second_before: XmlWriter,
    second_after: XmlWriter,
)
    requires
        first_before.bytes() == second_before.bytes(),
        written_result(
            first,
            first_before,
            first_after,
            entry_document(schema, batch, info, updated_millis),
        ),
        written_result(
            second,
            second_before,
            second_after,
            entry_document(schema, batch, info, updated_millis),
        ),
    ensures
        same_outcome(first, second),
        first_after.bytes() == second_after.bytes(),
{
}

/// Writes the feed of a collection: one entry per row, in the order of the
/// batches and of their rows. Nothing is written where the feed cannot be
/// made.
pub fn write_atom_feed_from_records(
    schema: &Schema,
    record_batches: &Vec<RecordBatch>,
    ctx: &CollectionInfo,
    updated_time: i64,
    writer: &mut XmlWriter,
) -> (r: Result<(), ODataError>)
    ensures
        written_result(
            r,
            *old(writer),
            *final(writer),
            feed_document(*schema, record_batches@, *ctx, updated_time),
        ),
{
    let events = atom_feed_events(schema, record_batches, ctx, updated_time)?;
    writer.write_events(&events)
}

/// Writes the entry of the first row of a batch as a document of its own.
/// Nothing is written where the entry cannot be made.
pub fn write_atom_entry_from_record(
    schema: &Schema,
    batch: &RecordBatch,
    ctx: &CollectionInfo,
    updated_time: i64,
    writer: &mut XmlWriter,
) -> (r: Result<(), ODataError>)
    ensures
        written_result(
            r,
            *old(writer),
            *final(writer),
            entry_document(*schema, *batch, *ctx, updated_time),
        ),
{
    let events = atom_entry_events(schema, batch, ctx, updated_time)?;
    writer.write_events(&events)
}

} // verus!
