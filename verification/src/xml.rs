//! XML events as plain values, what each of them puts on the wire, and a
//! writer that hands them to `quick_xml`.
use vstd::prelude::*;
use vstd::utf8::{decode_utf8, encode_utf8, encode_utf8_decode_utf8, encode_utf8_valid_utf8, valid_utf8};
use quick_xml::events::{BytesDecl, BytesEnd, BytesStart, BytesText, Event};
use quick_xml::Writer;
use crate::error::ODataError;

verus! {

/// `quick_xml::Error`, carried as it is.
#[verifier::external_type_specification]
#[verifier::external_body]
pub struct ExXmlError(quick_xml::Error);

/// One piece of an XML document.
#[derive(Clone, Debug, PartialEq, Eq)]
pub enum XmlEvent {
    /// The XML declaration.
    Decl { version: String, encoding: String },
    /// An opening tag. Attribute values are given unescaped.
    Start { name: String, attrs: Vec<(String, String)> },
    /// A tag without content. Attribute values are given unescaped.
    Empty { name: String, attrs: Vec<(String, String)> },
    /// A closing tag.
    End { name: String },
    /// Character data, already escaped.
    Text { escaped: String },
}

/// An event with its texts as character sequences.
pub enum EventView {
    Decl { version: Seq<char>, encoding: Seq<char> },
    Start { name: Seq<char>, attrs: Seq<(Seq<char>, Seq<char>)> },
    Empty { name: Seq<char>, attrs: Seq<(Seq<char>, Seq<char>)> },
    End { name: Seq<char> },
    Text { escaped: Seq<char> },
}

/// A list of attributes, with their texts as character sequences.
pub open spec fn attrs_view(attrs: Seq<(String, String)>) -> Seq<(Seq<char>, Seq<char>)> {
    Seq::new(attrs.len(), |i: int| (attrs[i].0@, attrs[i].1@))
}

impl View for XmlEvent {
    type V = EventView;

    open spec fn view(&self) -> EventView {
        match self {
            XmlEvent::Decl { version, encoding } => EventView::Decl {
                version: version@,
                encoding: encoding@,
            },
            XmlEvent::Start { name, attrs } => EventView::Start {
                name: name@,
                attrs: attrs_view(attrs@),
            },
            XmlEvent::Empty { name, attrs } => EventView::Empty {
                name: name@,
                attrs: attrs_view(attrs@),
            },
            XmlEvent::End { name } => EventView::End { name: name@ },
            XmlEvent::Text { escaped } => EventView::Text { escaped: escaped@ },
        }
    }
}

/// A run of events, with their texts as character sequences.
pub open spec fn events_view(events: Seq<XmlEvent>) -> Seq<EventView> {
    Seq::new(events.len(), |i: int| events[i]@)
}

/// The replacement of one character in escaped text.
pub open spec fn escaped_char(c: char) -> Seq<char> {
    if c == '<' {
        "&lt;"@
    } else if c == '>' {
        "&gt;"@
    } else if c == '&' {
        "&amp;"@
    } else if c == '\'' {
        "&apos;"@
    } else if c == '"' {
        "&quot;"@
    } else {
        seq![c]
    }
}

/// Text with the five XML special characters replaced by their entities.
pub open spec fn escaped(raw: Seq<char>) -> Seq<char>
    decreases raw.len(),
{
    if raw.len() == 0 {
        Seq::empty()
    } else {
        escaped(raw.drop_last()) + escaped_char(raw.last())
    }
}

/// The attributes of a tag as they stand in it: each one after a space, its
/// value escaped and in double quotes.
pub open spec fn rendered_attrs(attrs: Seq<(Seq<char>, Seq<char>)>) -> Seq<char>
    decreases attrs.len(),
{
    if attrs.len() == 0 {
        Seq::empty()
    } else {
        rendered_attrs(attrs.drop_last()) + " "@ + attrs.last().0 + "=\""@ + escaped(
            attrs.last().1,
        ) + "\""@
    }
}

/// The characters that an event puts into the document.
pub open spec fn rendered(e: EventView) -> Seq<char> {
    match e {
        EventView::Decl { version, encoding } => "<?xml version=\""@ + version
            + "\" encoding=\""@ + encoding + "\"?>"@,
        EventView::Start { name, attrs } => "<"@ + name + rendered_attrs(attrs) + ">"@,
        EventView::Empty { name, attrs } => "<"@ + name + rendered_attrs(attrs) + "/>"@,
        EventView::End { name } => "</"@ + name + ">"@,
        EventView::Text { escaped } => escaped,
    }
}

/// The bytes that a run of events puts into the document, in UTF-8.
pub open spec fn rendered_bytes(events: Seq<EventView>) -> Seq<u8>
    decreases events.len(),
{
    if events.len() == 0 {
        Seq::empty()
    } else {
        rendered_bytes(events.drop_last()) + encode_utf8(rendered(events.last()))
    }
}

/// The characters that a run of events puts into the document.
pub open spec fn rendered_text(events: Seq<EventView>) -> Seq<char>
    decreases events.len(),
{
    if events.len() == 0 {
        Seq::empty()
    } else {
        rendered_text(events.drop_last()) + rendered(events.last())
    }
}

proof fn lemma_encode_concat(a: Seq<char>, b: Seq<char>)
    ensures
        encode_utf8(a + b) == encode_utf8(a) + encode_utf8(b),
    decreases a.len(),
{
    if a.len() == 0 {
        assert(a + b =~= b);
        assert(encode_utf8(a) + encode_utf8(b) =~= encode_utf8(b));
    } else {
        lemma_encode_concat(a.drop_first(), b);
        assert((a + b).drop_first() =~= a.drop_first() + b);
        assert((a + b)[0] == a[0]);
        assert(encode_utf8(a + b) =~= encode_utf8(a) + encode_utf8(b));
    }
}

/// The bytes of a document are the UTF-8 encoding of its text: they are
/// valid UTF-8 and decode to the text.
pub proof fn lemma_document_is_text(events: Seq<EventView>)
    ensures
        rendered_bytes(events) == encode_utf8(rendered_text(events)),
        valid_utf8(rendered_bytes(events)),
        decode_utf8(rendered_bytes(events)) == rendered_text(events),
    decreases events.len(),
{
    if events.len() > 0 {
        lemma_document_is_text(events.drop_last());
        lemma_encode_concat(rendered_text(events.drop_last()), rendered(events.last()));
    }
    encode_utf8_valid_utf8(rendered_text(events));
    encode_utf8_decode_utf8(rendered_text(events));
}

/// The names of the elements that are open after one more event, given the
/// names that were open before it, innermost last; `None` where the event
/// closes an element that is not the innermost open one.
pub open spec fn open_after_event(open: Seq<Seq<char>>, e: EventView) -> Option<Seq<Seq<char>>> {
    match e {
        EventView::Start { name, attrs } => Some(open.push(name)),
        EventView::End { name } => if open.len() > 0 && open.last() == name {
            Some(open.drop_last())
        } else {
            None
        },
        _ => Some(open),
    }
}

/// The names of the elements that are open after a run of events.
pub open spec fn open_after(events: Seq<EventView>, open: Seq<Seq<char>>) -> Option<
    Seq<Seq<char>>,
>
    decreases events.len(),
{
    if events.len() == 0 {
        Some(open)
    } else {
        match open_after(events.drop_last(), open) {
            None => None,
            Some(inner) => open_after_event(inner, events.last()),
        }
    }
}

/// Whether a run of events leaves open what was open before it, whatever
/// that is: every element that it opens it closes, in order.
pub open spec fn balanced(events: Seq<EventView>) -> bool {
    forall|open: Seq<Seq<char>>| #[trigger] open_after(events, open) == Some(open)
}

/// Whether a run of events is a document: one element, closed at the end,
/// after a declaration.
pub open spec fn is_document(events: Seq<EventView>) -> bool {
    &&& events.len() >= 3
    &&& events[0] is Decl
    &&& events[1] is Start
    &&& events.last() == (EventView::End { name: events[1]->Start_name })
    &&& balanced(events.subrange(2, events.len() - 1))
}

/// Running one run of events after another.
pub proof fn lemma_open_after_both(a: Seq<EventView>, b: Seq<EventView>, open: Seq<Seq<char>>)
    ensures
        open_after(a + b, open) == match open_after(a, open) {
            Some(inner) => open_after(b, inner),
            None => None,
        },
    decreases b.len(),
{
    if b.len() == 0 {
        assert(a + b =~= a);
    } else {
        lemma_open_after_both(a, b.drop_last(), open);
        assert((a + b).drop_last() =~= a + b.drop_last());
        assert((a + b).last() == b.last());
    }
}

/// Running a single event.
pub proof fn lemma_open_after_one(e: EventView, open: Seq<Seq<char>>)
    ensures
        open_after(seq![e], open) == open_after_event(open, e),
{
    reveal_with_fuel(open_after, 2);
    assert(seq![e].drop_last() =~= Seq::<EventView>::empty());
}

/// Two balanced runs make a balanced run.
pub proof fn lemma_balanced_both(a: Seq<EventView>, b: Seq<EventView>)
    requires
        balanced(a),
        balanced(b),
    ensures
        balanced(a + b),
{
    assert forall|open: Seq<Seq<char>>| #[trigger] open_after(a + b, open) == Some(open) by {
        lemma_open_after_both(a, b, open);
        assert(open_after(a, open) == Some(open));
        assert(open_after(b, open) == Some(open));
    }
}

/// A balanced run within an element is a balanced run.
pub proof fn lemma_balanced_within(
    name: Seq<char>,
    attrs: Seq<(Seq<char>, Seq<char>)>,
    inner: Seq<EventView>,
)
    requires
        balanced(inner),
    ensures
        balanced(seq![EventView::Start { name, attrs }] + inner + seq![EventView::End { name }]),
{
    let start = seq![EventView::Start { name, attrs }];
    let end = seq![EventView::End { name }];
    assert forall|open: Seq<Seq<char>>| #[trigger]
        open_after(start + inner + end, open) == Some(open) by {
        lemma_open_after_both(start + inner, end, open);
        lemma_open_after_both(start, inner, open);
        lemma_open_after_one(EventView::Start { name, attrs }, open);
        lemma_open_after_one(EventView::End { name }, open.push(name));
        assert(open_after(start, open) == Some(open.push(name)));
        assert(open_after(inner, open.push(name)) == Some(open.push(name)));
        assert(open.push(name).drop_last() =~= open);
    }
}

/// A run of events that open and close nothing is balanced.
pub proof fn lemma_balanced_flat(events: Seq<EventView>)
    requires
        forall|i: int| 0 <= i < events.len() ==> !(events[i] is Start) && !(events[i] is End),
    ensures
        balanced(events),
    decreases events.len(),
{
    if events.len() > 0 {
        lemma_balanced_flat(events.drop_last());
        assert forall|open: Seq<Seq<char>>| #[trigger] open_after(events, open) == Some(open) by {
            assert(open_after(events.drop_last(), open) == Some(open));
        }
    }
}

/// An attribute as `quick_xml` takes it: its name and its unescaped value.
fn attribute(a: &(String, String)) -> (r: (&str, &str))
    ensures
        r.0@ == a.0@,
        r.1@ == a.1@,
{
    (a.0.as_str(), a.1.as_str())
}

/// `quick_xml::Writer::write_event`, on a writer that `Writer::new` makes
/// over the buffer: it succeeds, since a write into a byte vector cannot
/// fail, and exactly the event's text has been appended in UTF-8. A start or
/// empty tag is `<`, the name, each attribute after a space as
/// `key="escaped value"`, and `>` or `/>`; an end tag is `</name>`; text goes
/// out as it is; the declaration is `<?xml version=".." encoding=".."?>`.
#[verifier::external_body]
fn write_event_to(buffer: &mut Vec<u8>, e: &XmlEvent) -> (r: Result<(), quick_xml::Error>)
    ensures
        r is Ok,
        final(buffer)@ == old(buffer)@ + encode_utf8(rendered(e@)),
{
    Writer::new(buffer).write_event(match e {
        XmlEvent::Decl { version, encoding } => Event::Decl(BytesDecl::new(version, Some(encoding), None)),
        XmlEvent::Start { name, attrs } => Event::Start(BytesStart::new(name).with_attributes(attrs.iter().map(attribute))),
        XmlEvent::Empty { name, attrs } => Event::Empty(BytesStart::new(name).with_attributes(attrs.iter().map(attribute))),
        XmlEvent::End { name } => Event::End(BytesEnd::new(name)),
        XmlEvent::Text { escaped } => Event::Text(BytesText::from_escaped(escaped)),
    })
}

/// The `Display` text of a `quick_xml::Error`.
#[verifier::external_body]
fn xml_error_text(e: &quick_xml::Error) -> String {
    e.to_string()
}

/// `quick_xml::escape::escape`: replaces `<`, `>`, `&`, `'` and `"` by
/// `&lt;`, `&gt;`, `&amp;`, `&apos;` and `&quot;` and keeps every other
/// character.
#[verifier::external_body]
fn escape_text(raw: &str) -> (r: String)
    ensures
        r@ == escaped(raw@),
{
    quick_xml::escape::escape(raw).into_owned()
}

/// `String::from_utf8`: the text that the bytes encode, where they are
/// valid UTF-8, and nothing where they are not.
#[verifier::external_body]
fn string_from_utf8(bytes: Vec<u8>) -> (r: Option<String>)
    ensures
        match r {
            Some(text) => valid_utf8(bytes@) && text@ == decode_utf8(bytes@),
            None => !valid_utf8(bytes@),
        },
{
    String::from_utf8(bytes).ok()
}

/// Escapes text for use as character data.
pub fn escape(raw: &str) -> (r: String)
    ensures
        r@ == escaped(raw@),
{
    escape_text(raw)
}

/// An XML writer over a byte buffer that writes events one after the other,
/// with nothing between them.
pub struct XmlWriter {
    buffer: Vec<u8>,
}

impl XmlWriter {
    /// The bytes written so far.
    pub closed spec fn bytes(&self) -> Seq<u8> {
        self.buffer@
    }

    /// A writer that has written nothing yet.
    pub fn new() -> (r: XmlWriter)
        ensures
            r.bytes() == Seq::<u8>::empty(),
    {
        XmlWriter { buffer: Vec::new() }
    }

    /// Writes one event: the event's text is appended in UTF-8. Writing
    /// into the buffer always succeeds.
    pub fn write_event(&mut self, e: &XmlEvent) -> (r: Result<(), ODataError>)
        ensures
            r is Ok,
            final(self).bytes() == old(self).bytes() + encode_utf8(rendered(e@)),
    {
        match write_event_to(&mut self.buffer, e) {
            Ok(()) => Ok(()),
            Err(err) => {
                let text = xml_error_text(&err);
                Err(ODataError::internal(text.as_str()))
            },
        }
    }

    /// Writes a run of events in order: their text is appended in UTF-8.
    /// Writing into the buffer always succeeds.
    pub fn write_events(&mut self, events: &Vec<XmlEvent>) -> (r: Result<(), ODataError>)
        ensures
            r is Ok,
            final(self).bytes() == old(self).bytes() + rendered_bytes(events_view(events@)),
    {
        let mut i: usize = 0;
        while i < events.len()
            invariant
                i <= events.len(),
                self.bytes() == old(self).bytes() + rendered_bytes(
                    events_view(events@).take(i as int),
                ),
            decreases events.len() - i,
        {
            self.write_event(&events[i])?;
            proof {
                let all = events_view(events@);
                assert(all.take(i + 1).drop_last() == all.take(i as int));
                assert(all.take(i + 1).last() == events@[i as int]@);
            }
            i = i + 1;
        }
        proof {
            let all = events_view(events@);
            assert(all.take(i as int) == all);
        }
        Ok(())
    }

    /// The text of all that was written, where the bytes are valid UTF-8.
    pub fn into_string(self) -> (r: Option<String>)
        ensures
            match r {
                Some(text) => valid_utf8(self.bytes()) && text@ == decode_utf8(self.bytes()),
                None => !valid_utf8(self.bytes()),
            },
    {
        string_from_utf8(self.buffer)
    }

    /// The buffer with all that was written.
    pub fn into_inner(self) -> (r: Vec<u8>)
        ensures
            r@ == self.bytes(),
    {
        self.buffer
    }
}

} // verus!
