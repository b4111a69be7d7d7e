//! The document sink: markup events (start element, character data, end
//! element) are written through an event-based XML emitter into an in-memory
//! byte buffer. The emitter is outside code; what each call does to the
//! writer's accepted-event history is stated here and believed, and the
//! rendering logic above it is verified against those statements.
use vstd::prelude::*;

verus! {

/// One markup event as the contracts speak of it: an element opening with its
/// attributes in order, character data, or an element closing.
pub ghost enum MarkupEvent {
    Start { name: Seq<char>, attrs: Seq<(Seq<char>, Seq<char>)> },
    Text(Seq<char>),
    End,
}

/// The attribute list of a start-element event, as name/value pairs.
pub open spec fn attr_views(attrs: Seq<(String, String)>) -> Seq<(Seq<char>, Seq<char>)> {
    attrs.map_values(|p: (String, String)| (p.0@, p.1@))
}

/// How one event moves the count of currently open elements.
pub open spec fn open_step(e: MarkupEvent) -> int {
    match e {
        MarkupEvent::Start { .. } => 1,
        MarkupEvent::Text(_) => 0,
        MarkupEvent::End => -1,
    }
}

/// The number of elements an accepted event history leaves open.
pub open spec fn open_depth(events: Seq<MarkupEvent>) -> int
    decreases events.len(),
{
    if events.len() == 0 {
        0
    } else {
        open_depth(events.drop_last()) + open_step(events.last())
    }
}

/// The document writer: an event-based XML emitter over an in-memory byte
/// buffer. The emitter sits in a private field, so every value of this type
/// was built by this module's one constructor and carries its one
/// configuration: indented output, the leading document declaration,
/// escaping, and the element-name stack that lets an end event close the most
/// recently opened element. The wrappers' contracts below are stated of that
/// configuration and of no other.
#[verifier::external_body]
pub struct DocWriter {
    writer: xml::writer::EventWriter<Vec<u8>>,
}

/// The events the writer has accepted so far, in order.
pub uninterp spec fn writer_events(w: DocWriter) -> Seq<MarkupEvent>;

/// The bytes that the emitter produces for an accepted event history, under
/// the writer's one configuration.
pub uninterp spec fn xml_output_of(events: Seq<MarkupEvent>) -> Seq<u8>;

/// Relies on xml::writer::EmitterConfig::create_writer: a fresh writer over an
/// empty byte buffer has accepted no events.
#[verifier::external_body]
pub(crate) fn xml_new_writer() -> (w: DocWriter)
    ensures
        writer_events(w) == Seq::<MarkupEvent>::empty(),
{
    DocWriter {
        writer: xml::writer::EmitterConfig::new().perform_indent(true).create_writer(Vec::new()),
    }
}

/// Relies on xml::writer::EventWriter::write with a start-element event built
/// by XmlEvent::start_element and StartElementBuilder::attr: the event, with
/// its attributes in the given order, is accepted. The write succeeds: into a
/// byte buffer the emitter's output cannot fail, and a start element has no
/// other failure path.
#[verifier::external_body]
pub(crate) fn xml_start_element(
    w: &mut DocWriter,
    name: &str,
    attrs: &Vec<(String, String)>,
) -> (r: Result<(), String>)
    ensures
        r is Ok,
        writer_events(*final(w)) == writer_events(*old(w)).push(
            MarkupEvent::Start { name: name@, attrs: attr_views(attrs@) },
        ),
{
    let mut ev = xml::writer::XmlEvent::start_element(name);
    for a in attrs.iter() {
        ev = ev.attr(a.0.as_str(), a.1.as_str());
    }
    w.writer.write(ev).map_err(|e| e.to_string())
}

/// Relies on xml::writer::EventWriter::write with XmlEvent::characters: a
/// character-data event is accepted (the emitter escapes the text as it
/// serializes it). The write succeeds: into a byte buffer the emitter's
/// output cannot fail, and character data has no other failure path.
#[verifier::external_body]
pub(crate) fn xml_characters(w: &mut DocWriter, text: &str) -> (r: Result<(), String>)
    ensures
        r is Ok,
        writer_events(*final(w)) == writer_events(*old(w)).push(MarkupEvent::Text(text@)),
{
    w.writer.write(xml::writer::XmlEvent::characters(text)).map_err(|e| e.to_string())
}

/// Relies on xml::writer::EventWriter::write with XmlEvent::end_element: on
/// success the most recently opened element has been closed. Under the
/// writer's configuration the element-name stack holds exactly the open
/// elements, so the write can fail only when none is open — into a byte
/// buffer the emitter's output cannot fail, and the one remaining error path
/// returns before touching any state, so a failed write accepts nothing.
#[verifier::external_body]
pub(crate) fn xml_end_element(w: &mut DocWriter) -> (r: Result<(), String>)
    ensures
        open_depth(writer_events(*old(w))) > 0 ==> r is Ok,
        r is Ok ==> writer_events(*final(w)) == writer_events(*old(w)).push(MarkupEvent::End),
        r is Err ==> writer_events(*final(w)) == writer_events(*old(w)),
{
    w.writer.write(xml::writer::XmlEvent::end_element()).map_err(|e| e.to_string())
}

/// Relies on xml::writer::EventWriter::into_inner: the buffer holds exactly
/// the serialization of the accepted events, a deterministic function of that
/// history under the writer's one configuration.
#[verifier::external_body]
pub(crate) fn xml_into_output(w: DocWriter) -> (r: Vec<u8>)
    ensures
        r@ == xml_output_of(writer_events(w)),
{
    w.writer.into_inner()
}

} // verus!
