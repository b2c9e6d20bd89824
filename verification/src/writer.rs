//! The XML writer that the library writes its documents with.

use vstd::prelude::*;
use xml::writer::EmitterConfig;
use xml::writer::EventWriter;
use crate::event::{depth_change, Event, XmlEvent};
use crate::plan::Plan;
use crate::quiz::QuizError;

verus! {

/// The event writer of the `xml` crate.
#[verifier::external_type_specification]
#[verifier::external_body]
#[verifier::reject_recursive_types(W)]
pub struct ExEventWriter<W>(EventWriter<W>);

/// The error of the event writer of the `xml` crate.
#[verifier::external_type_specification]
#[verifier::external_body]
pub struct ExWriterError(xml::writer::Error);

/// The bytes that an event writer holds in its sink.
pub uninterp spec fn written(writer: EventWriter<Vec<u8>>) -> Seq<u8>;

/// The number of elements that an event writer has open: those that were
/// opened and not closed yet, whose names the writer keeps to close them.
pub uninterp spec fn open_elements(writer: EventWriter<Vec<u8>>) -> nat;

/// Makes an event writer that collects its output in memory, and indents it
/// if `indent` is set: `EmitterConfig::new`, `perform_indent` and
/// `create_writer`. The writer keeps the sink that it is given, which is an
/// empty vector: it holds no bytes yet. No element is open in it.
#[verifier::external_body]
fn new_event_writer(indent: bool) -> (writer: EventWriter<Vec<u8>>)
    ensures
        written(writer) == Seq::<u8>::empty(),
        open_elements(writer) == 0,
{
    EmitterConfig::new().perform_indent(indent).create_writer(Vec::new())
}

/// Hands one event to `EventWriter::write`, built with the constructors of
/// `xml::writer::XmlEvent`.
///
/// The writer only writes to its sink, and a vector takes what is written
/// at its end and never refuses it: the bytes that the writer held are the
/// first of those that it holds afterwards, and an opening, a piece of text
/// and a CDATA block are always taken. The writer keeps the name of each
/// element that it opens, to close it by: a closing is taken exactly where
/// an element is open, and closes that element. A closing that is refused
/// changes nothing.
#[verifier::external_body]
fn write_event(writer: &mut EventWriter<Vec<u8>>, event: &XmlEvent<'_>) -> (outcome: Result<
    (),
    xml::writer::Error,
>)
    ensures
        written(*old(writer)).is_prefix_of(written(*final(writer))),
        event@ is Start ==> outcome is Ok && open_elements(*final(writer)) == open_elements(
            *old(writer),
        ) + 1,
        event@ is Characters || event@ is CData ==> outcome is Ok && open_elements(
            *final(writer),
        ) == open_elements(*old(writer)),
        event@ is End ==> (outcome is Ok <==> open_elements(*old(writer)) > 0),
        event@ is End && outcome is Ok ==> open_elements(*final(writer)) + 1 == open_elements(
            *old(writer),
        ),
        event@ is End && outcome is Err ==> open_elements(*final(writer)) == open_elements(
            *old(writer),
        ),
{
    match event {
        XmlEvent::StartElement { name, attributes } => {
            let mut start = xml::writer::XmlEvent::start_element(*name);
            for attribute in attributes.iter() {
                start = start.attr(attribute.name, attribute.value);
            }
            writer.write(start)
        },
        XmlEvent::Characters(text) => writer.write(xml::writer::XmlEvent::characters(text)),
        XmlEvent::CData(text) => writer.write(xml::writer::XmlEvent::cdata(text)),
        XmlEvent::EndElement => writer.write(xml::writer::XmlEvent::end_element()),
    }
}

/// Takes the output out of the writer: `EventWriter::into_inner`, which
/// returns the sink of the writer with the bytes that it holds.
#[verifier::external_body]
fn into_sink(writer: EventWriter<Vec<u8>>) -> (bytes: Vec<u8>)
    ensures
        bytes@ == written(writer),
{
    writer.into_inner()
}

/// An XML writer that keeps its output in memory and indents it.
///
/// The writer records which events it has taken: the contracts of the
/// library say what is written by saying how that record grows. What the
/// events look like as bytes is the work of the `xml` crate.
pub struct XmlWriter {
    inner: EventWriter<Vec<u8>>,
    taken: Ghost<Seq<Event>>,
}

impl XmlWriter {
    /// The events that the writer has taken so far, in order.
    pub closed spec fn events(&self) -> Seq<Event> {
        self.taken@
    }

    /// The bytes of the document as far as it has been written.
    pub closed spec fn bytes(&self) -> Seq<u8> {
        written(self.inner)
    }

    /// The number of scopes that are open in the document: those that were
    /// opened and not closed yet.
    pub closed spec fn open(&self) -> nat {
        open_elements(self.inner)
    }

    /// A writer that indents its output. It has taken no event and holds no
    /// bytes yet, and no scope is open in it.
    pub fn new() -> (writer: Self)
        ensures
            writer.events() == Seq::<Event>::empty(),
            writer.bytes() == Seq::<u8>::empty(),
            writer.open() == 0,
    {
        XmlWriter { inner: new_event_writer(true), taken: Ghost(Seq::empty()) }
    }

    /// What a call of [`XmlWriter::write`] returns for each outcome of the
    /// underlying writer: `Ok` as it is, and the writer's error unchanged
    /// inside `XMLWriterError`.
    pub fn outcome(written: Result<(), xml::writer::Error>) -> (outcome: Result<(), QuizError>)
        ensures
            outcome == match written {
                Ok(()) => Ok::<(), QuizError>(()),
                Err(error) => Err(QuizError::XMLWriterError(error)),
            },
    {
        match written {
            Ok(()) => Ok(()),
            Err(error) => Err(QuizError::XMLWriterError(error)),
        }
    }

    /// Hands one event to the writer. An opening, a piece of text and a
    /// CDATA block are always taken, and a closing is taken exactly where a
    /// scope is open. If the writer takes the event, it is the last of its
    /// events afterwards; if not, its events and its open scopes are as
    /// before and the writer's error is returned. Either way the bytes that
    /// were written before stay where they are.
    pub fn write(&mut self, event: XmlEvent<'_>) -> (outcome: Result<(), QuizError>)
        ensures
            Plan::event(event@).followed(old(self).events(), final(self).events(), outcome),
            old(self).bytes().is_prefix_of(final(self).bytes()),
            outcome is Ok <==> !(event@ is End) || old(self).open() > 0,
            final(self).open() == old(self).open() + if outcome is Ok {
                depth_change(event@)
            } else {
                0
            },
            outcome is Ok ==> final(self).events() == old(self).events().push(event@),
            outcome is Err ==> outcome->Err_0@ is Writer && final(self).events() == old(
                self,
            ).events(),
    {
        let written = write_event(&mut self.inner, &event);
        if written.is_ok() {
            self.taken = Ghost(self.taken@.push(event@));
        }
        proof {
            let one = Plan::event(event@).events;
            assert(old(self).events().push(event@) =~= old(self).events() + one);
            assert(old(self).events() =~= old(self).events() + one.take(0));
        }
        Self::outcome(written)
    }

    /// Ends the writing and returns the bytes of the document as far as it
    /// was written.
    pub fn into_inner(self) -> (bytes: Vec<u8>)
        ensures
            bytes@ == self.bytes(),
    {
        into_sink(self.inner)
    }
}

} // verus!
