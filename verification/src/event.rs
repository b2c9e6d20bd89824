//! The events a document is made of, and what it means for a sequence of
//! them to be well nested.

use vstd::prelude::*;

verus! {

/// One event of a document, as the writer receives it.
///
/// A scope is opened by `Start` and closed by the `End` that brings the
/// nesting depth back to where it was before the `Start`.
pub enum Event {
    /// Opens a scope with the given name and attributes, in order.
    Start { name: Seq<char>, attributes: Seq<(Seq<char>, Seq<char>)> },
    /// Text that the writer escapes.
    Characters(Seq<char>),
    /// Text that the writer keeps verbatim, in a CDATA block.
    CData(Seq<char>),
    /// Closes the innermost open scope.
    End,
}

/// An attribute of an opening tag.
pub struct Attribute<'a> {
    pub name: &'a str,
    pub value: &'a str,
}

impl<'a> View for Attribute<'a> {
    type V = (Seq<char>, Seq<char>);

    open spec fn view(&self) -> (Seq<char>, Seq<char>) {
        (self.name@, self.value@)
    }
}

/// The executable form of an [`Event`]: it borrows its text.
pub enum XmlEvent<'a> {
    StartElement { name: &'a str, attributes: Vec<Attribute<'a>> },
    Characters(&'a str),
    CData(&'a str),
    EndElement,
}

impl<'a> View for XmlEvent<'a> {
    type V = Event;

    open spec fn view(&self) -> Event {
        match *self {
            XmlEvent::StartElement { name, attributes } => Event::Start {
                name: name@,
                attributes: Seq::new(attributes@.len(), |i: int| attributes@[i]@),
            },
            XmlEvent::Characters(text) => Event::Characters(text@),
            XmlEvent::CData(text) => Event::CData(text@),
            XmlEvent::EndElement => Event::End,
        }
    }
}

impl<'a> XmlEvent<'a> {
    /// An opening tag without attributes.
    pub fn start_element(name: &'a str) -> (event: Self)
        ensures
            event@ == (Event::Start { name: name@, attributes: Seq::empty() }),
    {
        let event = XmlEvent::StartElement { name, attributes: Vec::new() };
        assert(event@->attributes =~= Seq::empty());
        event
    }

    /// Adds an attribute behind those that an opening tag already has. Any
    /// other event is returned as it is.
    pub fn attr(self, name: &'a str, value: &'a str) -> (event: Self)
        ensures
            event@ == match self@ {
                Event::Start { name: element, attributes } => Event::Start {
                    name: element,
                    attributes: attributes.push((name@, value@)),
                },
                other => other,
            },
    {
        match self {
            XmlEvent::StartElement { name: element, attributes } => {
                let mut attributes = attributes;
                attributes.push(Attribute { name, value });
                let event = XmlEvent::StartElement { name: element, attributes };
                assert(event@->attributes =~= self@->attributes.push((name@, value@)));
                event
            },
            other => other,
        }
    }
}

/// By how much an event changes the nesting depth.
pub open spec fn depth_change(event: Event) -> int {
    match event {
        Event::Start { .. } => 1,
        Event::End => -1,
        _ => 0,
    }
}

/// The number of scopes that are open after `events`: openings minus
/// closings.
pub open spec fn depth(events: Seq<Event>) -> int
    decreases events.len(),
{
    if events.len() == 0 {
        0
    } else {
        depth(events.drop_last()) + depth_change(events.last())
    }
}

/// Every scope that `events` opens is closed again, and nothing is closed
/// that was not opened before: the depth is never negative on the way and is
/// zero at the end.
pub open spec fn well_nested(events: Seq<Event>) -> bool {
    &&& depth(events) == 0
    &&& forall|k: int| 0 <= k <= events.len() ==> depth(#[trigger] events.take(k)) >= 0
}

/// `events` are one scope of the given name: its opening, events that are
/// well nested, and the closing that belongs to the opening.
pub open spec fn is_scope(events: Seq<Event>, name: Seq<char>) -> bool {
    &&& events.len() >= 2
    &&& events.first() is Start
    &&& events.first()->name == name
    &&& events.last() == Event::End
    &&& well_nested(events.subrange(1, events.len() - 1))
}

/// The depth after two sequences in a row is the sum of their depths.
pub proof fn lemma_depth_concat(first: Seq<Event>, second: Seq<Event>)
    ensures
        depth(first + second) == depth(first) + depth(second),
    decreases second.len(),
{
    if second.len() == 0 {
        assert(first + second =~= first);
    } else {
        assert((first + second).drop_last() =~= first + second.drop_last());
        assert((first + second).last() == second.last());
        lemma_depth_concat(first, second.drop_last());
    }
}

/// The depth after a single event is the change that the event makes.
pub proof fn lemma_depth_one(event: Event)
    ensures
        depth(seq![event]) == depth_change(event),
{
    let one = seq![event];
    assert(one.drop_last() =~= Seq::<Event>::empty());
    assert(depth(Seq::<Event>::empty()) == 0);
    assert(one.last() == event);
}

/// Nothing at all is well nested.
pub proof fn lemma_well_nested_empty()
    ensures
        well_nested(Seq::<Event>::empty()),
{
    let none = Seq::<Event>::empty();
    assert forall|k: int| 0 <= k <= 0 implies depth(#[trigger] none.take(k)) >= 0 by {
        assert(none.take(k) =~= none);
    }
}

/// One well-nested sequence behind another is well nested.
pub proof fn lemma_well_nested_concat(first: Seq<Event>, second: Seq<Event>)
    requires
        well_nested(first),
        well_nested(second),
    ensures
        well_nested(first + second),
{
    lemma_depth_concat(first, second);
    let both = first + second;
    assert forall|k: int| 0 <= k <= both.len() implies depth(#[trigger] both.take(k)) >= 0 by {
        if k <= first.len() {
            assert(both.take(k) =~= first.take(k));
        } else {
            assert(both.take(k) =~= first + second.take(k - first.len()));
            lemma_depth_concat(first, second.take(k - first.len()));
        }
    }
}

/// A well-nested sequence between an opening and a closing is well nested.
pub proof fn lemma_well_nested_scope(start: Event, body: Seq<Event>)
    requires
        start is Start,
        well_nested(body),
    ensures
        well_nested(seq![start] + body + seq![Event::End]),
{
    let open = seq![start];
    let close = seq![Event::End];
    let all = open + body + close;
    lemma_depth_one(start);
    lemma_depth_one(Event::End);
    lemma_depth_concat(open, body);
    lemma_depth_concat(open + body, close);
    assert forall|k: int| 0 <= k <= all.len() implies depth(#[trigger] all.take(k)) >= 0 by {
        if k == 0 {
            assert(all.take(k) =~= Seq::<Event>::empty());
        } else if k <= 1 + body.len() {
            assert(all.take(k) =~= open + body.take(k - 1));
            lemma_depth_concat(open, body.take(k - 1));
        } else {
            assert(all.take(k) =~= all);
        }
    }
}

/// A piece of text alone is well nested.
pub proof fn lemma_well_nested_text(event: Event)
    requires
        event is Characters || event is CData,
    ensures
        well_nested(seq![event]),
{
    let one = seq![event];
    lemma_depth_one(event);
    assert forall|k: int| 0 <= k <= one.len() implies depth(#[trigger] one.take(k)) >= 0 by {
        if k == 0 {
            assert(one.take(k) =~= Seq::<Event>::empty());
        } else {
            assert(one.take(k) =~= one);
        }
    }
}

/// A scope is well nested.
pub proof fn lemma_scope_is_well_nested(events: Seq<Event>, name: Seq<char>)
    requires
        is_scope(events, name),
    ensures
        well_nested(events),
{
    let body = events.subrange(1, events.len() - 1);
    assert(events =~= seq![events.first()] + body + seq![Event::End]);
    lemma_well_nested_scope(events.first(), body);
}

} // verus!
