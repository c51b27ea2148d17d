//! A feed in its plainest form: every column of every row, without
//! identities, links or times.
use vstd::prelude::*;
use vstd::string::*;
use crate::atom::{
    all_conform, all_match, append_events, batch_mismatch, declaration, declaration_event, element,
    events_result, no_attrs, one_attr, push_element, push_empty, push_end, push_event,
    push_start, written_result,
};
use crate::error::{ErrorKind, ODataError, UnsupportedDataType};
use crate::metadata::{edm_type_of, to_edm_type};
use crate::record::{encode_primitive_dyn, encoded_text, Cell, Column, RecordBatch};
use crate::schema::{DataType, Field, Schema};
use crate::xml::{attrs_view, events_view, EventView, XmlEvent, XmlWriter};

verus! {

/// The column types whose values this feed writes: booleans, integers,
/// floats, timestamps and plain strings.
pub open spec fn writes_values_of(dt: DataType) -> bool {
    match dt {
        DataType::Boolean
        | DataType::Int8
        | DataType::Int16
        | DataType::Int32
        | DataType::Int64
        | DataType::UInt8
        | DataType::UInt16
        | DataType::UInt32
        | DataType::UInt64
        | DataType::Float16
        | DataType::Float32
        | DataType::Float64
        | DataType::Timestamp(_)
        | DataType::Utf8 => true,
        _ => false,
    }
}

/// The text of a cell: `null` for a missing value of any type, and the
/// value's text for the types that this feed writes.
pub open spec fn value_text(dt: DataType, cell: Cell) -> Result<Seq<char>, DataType> {
    if cell is Null {
        Ok("null"@)
    } else if writes_values_of(dt) {
        encoded_text(dt, cell)
    } else {
        Err(dt)
    }
}

/// The EDM types of the first `n` fields, or the first type without one.
pub open spec fn column_types(fields: Seq<Field>, n: int) -> Result<Seq<Seq<char>>, DataType>
    decreases n,
{
    if n <= 0 {
        Ok(Seq::empty())
    } else {
        match column_types(fields, n - 1) {
            Err(t) => Err(t),
            Ok(prev) => match edm_type_of(fields[n - 1].data_type) {
                Some(typ) => Ok(prev.push(typ)),
                None => Err(fields[n - 1].data_type),
            },
        }
    }
}

/// The elements of the first `n` columns of one row: each tagged `d:<name>`
/// with its EDM type in `m:type`.
pub open spec fn row_columns(
    fields: Seq<Field>,
    types: Seq<Seq<char>>,
    batch: RecordBatch,
    row: int,
    n: int,
) -> Result<Seq<EventView>, DataType>
    decreases n,
{
    if n <= 0 {
        Ok(Seq::empty())
    } else {
        match row_columns(fields, types, batch, row, n - 1) {
            Err(t) => Err(t),
            Ok(prev) => {
                let col = batch.columns@[n - 1];
                match value_text(col.data_type, col.cells@[row]) {
                    Err(t) => Err(t),
                    Ok(text) => Ok(
                        prev + element(
                            "d:"@ + fields[n - 1].name@,
                            seq![("m:type"@, types[n - 1])],
                            text,
                        ),
                    ),
                }
            },
        }
    }
}

/// What a feed and each of its entries begin with.
pub open spec fn preamble() -> Seq<EventView> {
    element("id"@, Seq::empty(), "123"@) + seq![
        EventView::Empty { name: "category"@, attrs: Seq::empty() },
        EventView::Empty { name: "link"@, attrs: Seq::empty() },
        EventView::Empty { name: "title"@, attrs: Seq::empty() },
        EventView::Empty { name: "updated"@, attrs: Seq::empty() },
    ]
}

/// The entry of one row.
pub open spec fn row_entry(
    fields: Seq<Field>,
    types: Seq<Seq<char>>,
    batch: RecordBatch,
    row: int,
) -> Result<Seq<EventView>, DataType> {
    match row_columns(fields, types, batch, row, fields.len() as int) {
        Err(t) => Err(t),
        Ok(columns) => Ok(
            seq![EventView::Start { name: "entry"@, attrs: Seq::empty() }] + preamble() + seq![
                EventView::Start { name: "author"@, attrs: Seq::empty() },
                EventView::Empty { name: "name"@, attrs: Seq::empty() },
                EventView::End { name: "author"@ },
                EventView::Start { name: "content"@, attrs: Seq::empty() },
            ] + columns + seq![
                EventView::End { name: "content"@ },
                EventView::End { name: "entry"@ },
            ],
        ),
    }
}

/// The entries of the first `n` rows of a batch.
pub open spec fn batch_rows(
    fields: Seq<Field>,
    types: Seq<Seq<char>>,
    batch: RecordBatch,
    n: int,
) -> Result<Seq<EventView>, DataType>
    decreases n,
{
    if n <= 0 {
        Ok(Seq::empty())
    } else {
        match batch_rows(fields, types, batch, n - 1) {
            Err(t) => Err(t),
            Ok(prev) => match row_entry(fields, types, batch, n - 1) {
                Err(t) => Err(t),
                Ok(entry) => Ok(prev + entry),
            },
        }
    }
}

/// The entries of the first `n` batches.
pub open spec fn feed_rows(
    fields: Seq<Field>,
    types: Seq<Seq<char>>,
    batches: Seq<RecordBatch>,
    n: int,
) -> Result<Seq<EventView>, DataType>
    decreases n,
{
    if n <= 0 {
        Ok(Seq::empty())
    } else {
        match feed_rows(fields, types, batches, n - 1) {
            Err(t) => Err(t),
            Ok(prev) => match batch_rows(
                fields,
                types,
                batches[n - 1],
                batches[n - 1].num_rows as int,
            ) {
                Err(t) => Err(t),
                Ok(rows) => Ok(prev + rows),
            },
        }
    }
}

/// The feed of all rows: the declaration, the feed's preamble, one entry per
/// row, in the order of the batches and their rows. A column without an EDM
/// type, and a value of a type that is not written, fail the feed; a batch
/// that does not match the schema is a fault of the query engine.
pub open spec fn feed(schema: Schema, batches: Seq<RecordBatch>) -> Result<
    Seq<EventView>,
    ErrorKind,
> {
    match column_types(schema.fields@, schema.fields@.len() as int) {
        Err(t) => Err(ErrorKind::UnsupportedDataType(t)),
        Ok(types) => if !all_match(batches, schema) {
            Err(ErrorKind::Internal(batch_mismatch()))
        } else {
            match feed_rows(schema.fields@, types, batches, batches.len() as int) {
                Err(t) => Err(ErrorKind::UnsupportedDataType(t)),
                Ok(rows) => Ok(
                    seq![declaration(), EventView::Start { name: "feed"@, attrs: Seq::empty() }]
                        + preamble() + rows + seq![EventView::End { name: "feed"@ }],
                ),
            }
        },
    }
}

proof fn lemma_types_error_stays(fields: Seq<Field>, n: int, m: int)
    requires
        n <= m,
        column_types(fields, n) is Err,
    ensures
        column_types(fields, m) == column_types(fields, n),
    decreases m - n,
{
    if n < m {
        lemma_types_error_stays(fields, n, m - 1);
    }
}

proof fn lemma_columns_error_stays(
    fields: Seq<Field>,
    types: Seq<Seq<char>>,
    batch: RecordBatch,
    row: int,
    n: int,
    m: int,
)
    requires
        n <= m,
        row_columns(fields, types, batch, row, n) is Err,
    ensures
        row_columns(fields, types, batch, row, m) == row_columns(fields, types, batch, row, n),
    decreases m - n,
{
    if n < m {
        lemma_columns_error_stays(fields, types, batch, row, n, m - 1);
    }
}

proof fn lemma_rows_error_stays(
    fields: Seq<Field>,
    types: Seq<Seq<char>>,
    batch: RecordBatch,
    n: int,
    m: int,
)
    requires
        n <= m,
        batch_rows(fields, types, batch, n) is Err,
    ensures
        batch_rows(fields, types, batch, m) == batch_rows(fields, types, batch, n),
    decreases m - n,
{
    if n < m {
        lemma_rows_error_stays(fields, types, batch, n, m - 1);
    }
}

proof fn lemma_feed_error_stays(
    fields: Seq<Field>,
    types: Seq<Seq<char>>,
    batches: Seq<RecordBatch>,
    n: int,
    m: int,
)
    requires
        n <= m,
        feed_rows(fields, types, batches, n) is Err,
    ensures
        feed_rows(fields, types, batches, m) == feed_rows(fields, types, batches, n),
    decreases m - n,
{
    if n < m {
        lemma_feed_error_stays(fields, types, batches, n, m - 1);
    }
}

/// A list of type names as character sequences.
pub open spec fn types_view(types: Seq<String>) -> Seq<Seq<char>> {
    Seq::new(types.len(), |i: int| types[i]@)
}

fn schema_types(schema: &Schema) -> (r: Result<Vec<String>, UnsupportedDataType>)
    ensures
        match r {
            Ok(types) => column_types(schema.fields@, schema.fields@.len() as int) == Ok::<
                Seq<Seq<char>>,
                DataType,
            >(types_view(types@)) && types@.len() == schema.fields@.len(),
            Err(e) => column_types(schema.fields@, schema.fields@.len() as int) == Err::<
                Seq<Seq<char>>,
                DataType,
            >(e.data_type),
        },
{
    let mut types: Vec<String> = Vec::new();
    let n: usize = schema.fields.len();
    let mut i: usize = 0;
    assert(types_view(types@) =~= Seq::<Seq<char>>::empty());
    while i < n
        invariant
            n == schema.fields@.len(),
            i <= n,
            types@.len() == i,
            column_types(schema.fields@, i as int) == Ok::<Seq<Seq<char>>, DataType>(
                types_view(types@),
            ),
        decreases n - i,
    {
        match to_edm_type(&schema.fields[i].data_type) {
            Ok(typ) => {
                let ghost before = types@;
                types.push(typ.to_owned());
                assert(types_view(types@) =~= types_view(before).push(typ@));
            },
            Err(e) => {
                proof {
                    lemma_types_error_stays(schema.fields@, i + 1, n as int);
                }
                return Err(e);
            },
        }
        i = i + 1;
    }
    Ok(types)
}

fn writes(dt: DataType) -> (r: bool)
    ensures
        r == writes_values_of(dt),
{
    match dt {
        DataType::Boolean
        | DataType::Int8
        | DataType::Int16
        | DataType::Int32
        | DataType::Int64
        | DataType::UInt8
        | DataType::UInt16
        | DataType::UInt32
        | DataType::UInt64
        | DataType::Float16
        | DataType::Float32
        | DataType::Float64
        | DataType::Timestamp(_)
        | DataType::Utf8 => true,
        _ => false,
    }
}

fn cell_value_text(col: &Column, row: usize) -> (r: Result<String, UnsupportedDataType>)
    requires
        row < col.cells@.len(),
    ensures
        match r {
            Ok(text) => value_text(col.data_type, col.cells@[row as int]) == Ok::<
                Seq<char>,
                DataType,
            >(text@),
            Err(e) => value_text(col.data_type, col.cells@[row as int]) == Err::<
                Seq<char>,
                DataType,
            >(e.data_type),
        },
{
    match &col.cells[row] {
        Cell::Null => Ok("null".to_owned()),
        _ => {
            if writes(col.data_type) {
                encode_primitive_dyn(col, row)
            } else {
                Err(UnsupportedDataType::new(col.data_type))
            }
        },
    }
}

fn push_preamble(out: &mut Vec<XmlEvent>)
    ensures
        events_view(final(out)@) == events_view(old(out)@) + preamble(),
{
    push_element(out, "id", no_attrs(), "123".to_owned());
    push_empty(out, "category", no_attrs());
    push_empty(out, "link", no_attrs());
    push_empty(out, "title", no_attrs());
    push_empty(out, "updated", no_attrs());
    assert(events_view(out@) =~= events_view(old(out)@) + preamble());
}

fn entry_events(schema: &Schema, types: &Vec<String>, batch: &RecordBatch, row: usize) -> (r:
    Result<Vec<XmlEvent>, UnsupportedDataType>)
    requires
        batch.matches(schema),
        types@.len() == schema.fields@.len(),
        row < batch.num_rows,
    ensures
        match r {
            Ok(events) => row_entry(schema.fields@, types_view(types@), *batch, row as int)
                == Ok::<Seq<EventView>, DataType>(events_view(events@)),
            Err(e) => row_entry(schema.fields@, types_view(types@), *batch, row as int) == Err::<
                Seq<EventView>,
                DataType,
            >(e.data_type),
        },
{
    let mut columns: Vec<XmlEvent> = Vec::new();
    assert(events_view(columns@) =~= Seq::<EventView>::empty());
    let n: usize = schema.fields.len();
    let mut i: usize = 0;
    while i < n
        invariant
            n == schema.fields@.len(),
            i <= n,
            batch.matches(schema),
            types@.len() == schema.fields@.len(),
            row < batch.num_rows,
            row_columns(schema.fields@, types_view(types@), *batch, row as int, i as int) == Ok::<
                Seq<EventView>,
                DataType,
            >(events_view(columns@)),
        decreases n - i,
    {
        let col = &batch.columns[i];
        match cell_value_text(col, row) {
            Ok(text) => {
                let tag = "d:".to_owned().concat(schema.fields[i].name.as_str());
                let attrs = one_attr("m:type", types[i].as_str());
                push_element(&mut columns, tag.as_str(), attrs, text);
            },
            Err(e) => {
                proof {
                    lemma_columns_error_stays(
                        schema.fields@,
                        types_view(types@),
                        *batch,
                        row as int,
                        i + 1,
                        n as int,
                    );
                }
                return Err(e);
            },
        }
        i = i + 1;
    }
    let mut out: Vec<XmlEvent> = Vec::new();
    assert(events_view(out@) =~= Seq::<EventView>::empty());
    push_start(&mut out, "entry", no_attrs());
    push_preamble(&mut out);
    push_start(&mut out, "author", no_attrs());
    push_empty(&mut out, "name", no_attrs());
    push_end(&mut out, "author");
    push_start(&mut out, "content", no_attrs());
    append_events(&mut out, columns);
    push_end(&mut out, "content");
    push_end(&mut out, "entry");
    assert(events_view(out@) =~= seq![EventView::Start { name: "entry"@, attrs: Seq::empty() }]
        + preamble() + seq![
        EventView::Start { name: "author"@, attrs: Seq::empty() },
        EventView::Empty { name: "name"@, attrs: Seq::empty() },
        EventView::End { name: "author"@ },
        EventView::Start { name: "content"@, attrs: Seq::empty() },
    ] + events_view(columns@) + seq![
        EventView::End { name: "content"@ },
        EventView::End { name: "entry"@ },
    ]);
    Ok(out)
}

fn batch_events(schema: &Schema, types: &Vec<String>, batch: &RecordBatch) -> (r: Result<
    Vec<XmlEvent>,
    UnsupportedDataType,
>)
    requires
        batch.matches(schema),
        types@.len() == schema.fields@.len(),
    ensures
        match r {
            Ok(events) => batch_rows(
                schema.fields@,
                types_view(types@),
                *batch,
                batch.num_rows as int,
            ) == Ok::<Seq<EventView>, DataType>(events_view(events@)),
            Err(e) => batch_rows(
                schema.fields@,
                types_view(types@),
                *batch,
                batch.num_rows as int,
            ) == Err::<Seq<EventView>, DataType>(e.data_type),
        },
{
    let mut out: Vec<XmlEvent> = Vec::new();
    assert(events_view(out@) =~= Seq::<EventView>::empty());
    let n: usize = batch.num_rows;
    let mut row: usize = 0;
    while row < n
        invariant
            n == batch.num_rows,
            row <= n,
            batch.matches(schema),
            types@.len() == schema.fields@.len(),
            batch_rows(schema.fields@, types_view(types@), *batch, row as int) == Ok::<
                Seq<EventView>,
                DataType,
            >(events_view(out@)),
        decreases n - row,
    {
        match entry_events(schema, types, batch, row) {
            Ok(entry) => {
                append_events(&mut out, entry);
            },
            Err(e) => {
                proof {
                    lemma_rows_error_stays(
                        schema.fields@,
                        types_view(types@),
                        *batch,
                        row + 1,
                        n as int,
                    );
                }
                return Err(e);
            },
        }
        row = row + 1;
    }
    Ok(out)
}

/// The events of the feed of all rows.
pub fn feed_events(schema: &Schema, record_batches: &Vec<RecordBatch>) -> (r: Result<
    Vec<XmlEvent>,
    ODataError,
>)
    ensures
        events_result(r, feed(*schema, record_batches@)),
{
    let types = match schema_types(schema) {
        Ok(t) => t,
        Err(e) => {
            return Err(ODataError::UnsupportedDataType(e));
        },
    };
    if !all_conform(record_batches, schema) {
        return Err(ODataError::internal("Batch does not match the schema"));
    }
    let n: usize = record_batches.len();
    let mut out: Vec<XmlEvent> = Vec::new();
    assert(events_view(out@) =~= Seq::<EventView>::empty());
    push_event(&mut out, declaration_event());
    push_start(&mut out, "feed", no_attrs());
    push_preamble(&mut out);
    let ghost head = events_view(out@);
    assert(head =~= seq![declaration(), EventView::Start { name: "feed"@, attrs: Seq::empty() }]
        + preamble());
    let ghost mut rows = Seq::<EventView>::empty();
    let mut b: usize = 0;
    while b < n
        invariant
            n == record_batches@.len(),
            b <= n,
            all_match(record_batches@, *schema),
            types@.len() == schema.fields@.len(),
            column_types(schema.fields@, schema.fields@.len() as int) == Ok::<
                Seq<Seq<char>>,
                DataType,
            >(types_view(types@)),
            feed_rows(schema.fields@, types_view(types@), record_batches@, b as int) == Ok::<
                Seq<EventView>,
                DataType,
            >(rows),
            events_view(out@) == head + rows,
        decreases n - b,
    {
        let batch = &record_batches[b];
        assert(batch.matches(schema));
        match batch_events(schema, &types, batch) {
            Ok(more) => {
                append_events(&mut out, more);
                proof {
                    assert(head + rows + events_view(more@) =~= head + (rows + events_view(more@)));
                    rows = rows + events_view(more@);
                }
            },
            Err(e) => {
                proof {
                    lemma_feed_error_stays(
                        schema.fields@,
                        types_view(types@),
                        record_batches@,
                        b + 1,
                        n as int,
                    );
                }
                return Err(ODataError::UnsupportedDataType(e));
            },
        }
        b = b + 1;
    }
    push_end(&mut out, "feed");
    assert(events_view(out@) =~= seq![
        declaration(),
        EventView::Start { name: "feed"@, attrs: Seq::empty() },
    ] + preamble() + rows + seq![EventView::End { name: "feed"@ }]);
    Ok(out)
}

/// Writes the feed of all rows. Nothing is written where the feed cannot be
/// made.
pub fn feed_from_records(
    schema: &Schema,
    record_batches: &Vec<RecordBatch>,
    writer: &mut XmlWriter,
) -> (r: Result<(), ODataError>)
    ensures
        written_result(r, *old(writer), *final(writer), feed(*schema, record_batches@)),
{
    let events = feed_events(schema, record_batches)?;
    writer.write_events(&events)
}

} // verus!
