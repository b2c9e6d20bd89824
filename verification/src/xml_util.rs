//! Utility functions for writing XML elements.
//! The main purpose is to reduce code duplication
//! and make sure that every element has a single start and end event.
//! The functions are specific to Moodle XML structure.

use vstd::prelude::*;
use crate::event::{Event, XmlEvent};
use crate::plan::{
    lemma_scope_balanced,
    lemma_sequence_end,
    lemma_sequence_failure,
    lemma_sequence_push,
    lemma_sequence_start,
    lemma_sequence_step,
    lemma_prefix_of_prefix,
    lemma_text_balanced,
    Plan,
};
use crate::question::TextFormat;
use crate::quiz::QuizError;
use crate::writer::XmlWriter;

verus! {

/// The character of a decimal digit.
pub open spec fn digit(d: nat) -> char {
    if d == 0 {
        '0'
    } else if d == 1 {
        '1'
    } else if d == 2 {
        '2'
    } else if d == 3 {
        '3'
    } else if d == 4 {
        '4'
    } else if d == 5 {
        '5'
    } else if d == 6 {
        '6'
    } else if d == 7 {
        '7'
    } else if d == 8 {
        '8'
    } else {
        '9'
    }
}

/// A number in decimal digits, without leading zeros.
pub open spec fn decimal(n: nat) -> Seq<char>
    decreases n,
{
    if n < 10 {
        seq![digit(n)]
    } else {
        decimal(n / 10).push(digit(n % 10))
    }
}

/// How a flag is written where Moodle reads a word.
pub open spec fn flag_word(flag: bool) -> Seq<char> {
    if flag {
        "true"@
    } else {
        "false"@
    }
}

/// How a flag is written where Moodle reads a digit.
pub open spec fn flag_digit(flag: bool) -> Seq<char> {
    if flag {
        "1"@
    } else {
        "0"@
    }
}

/// One decimal digit as text.
fn digit_str(d: u8) -> (text: &'static str)
    requires
        d < 10,
    ensures
        text@ == seq![digit(d as nat)],
{
    proof {
        reveal_strlit("0");
        reveal_strlit("1");
        reveal_strlit("2");
        reveal_strlit("3");
        reveal_strlit("4");
        reveal_strlit("5");
        reveal_strlit("6");
        reveal_strlit("7");
        reveal_strlit("8");
        reveal_strlit("9");
    }
    let text = if d == 0 {
        "0"
    } else if d == 1 {
        "1"
    } else if d == 2 {
        "2"
    } else if d == 3 {
        "3"
    } else if d == 4 {
        "4"
    } else if d == 5 {
        "5"
    } else if d == 6 {
        "6"
    } else if d == 7 {
        "7"
    } else if d == 8 {
        "8"
    } else {
        "9"
    };
    assert(text@ =~= seq![digit(d as nat)]);
    text
}

/// A number as text, in decimal digits.
pub fn decimal_string(n: u8) -> (text: String)
    ensures
        text@ == decimal(n as nat),
{
    let mut text = String::new();
    if n >= 100 {
        text.append(digit_str(n / 100));
    }
    if n >= 10 {
        text.append(digit_str((n / 10) % 10));
    }
    text.append(digit_str(n % 10));
    proof {
        reveal_with_fuel(decimal, 3);
        assert(text@ =~= decimal(n as nat));
    }
    text
}

/// A flag as the word `true` or `false`.
pub fn flag_word_str(flag: bool) -> (text: &'static str)
    ensures
        text@ == flag_word(flag),
{
    if flag {
        "true"
    } else {
        "false"
    }
}

/// A flag as the digit `1` or `0`.
pub fn flag_digit_str(flag: bool) -> (text: &'static str)
    ensures
        text@ == flag_digit(flag),
{
    if flag {
        "1"
    } else {
        "0"
    }
}

/// The opening of a scope without attributes.
pub open spec fn plain_start(name: Seq<char>) -> Event {
    Event::Start { name, attributes: Seq::empty() }
}

/// The opening of a scope that says how its text is to be read, if a format
/// is given.
pub open spec fn formatted_start(name: Seq<char>, format: Option<TextFormat>) -> Event {
    match format {
        Some(format) => Event::Start { name, attributes: seq![("format"@, format.name_view())] },
        None => plain_start(name),
    }
}

/// The parts of a `text` scope around `data`, which is kept verbatim in a
/// CDATA block if `cdata` is set and escaped if not.
pub open spec fn text_tag_parts(data: Seq<char>, cdata: bool) -> Seq<Plan> {
    seq![
        Plan::event(plain_start("text"@)),
        Plan::event(text_event(data, cdata)),
        Plan::event(Event::End),
    ]
}

/// What [`write_text_tag`] attempts.
pub open spec fn text_tag_plan(data: Seq<char>, cdata: bool) -> Plan {
    Plan::sequence(text_tag_parts(data, cdata))
}

/// The parts of a scope around `body`.
pub open spec fn scope_parts(start: Event, body: Plan) -> Seq<Plan> {
    seq![Plan::event(start), body, Plan::event(Event::End)]
}

/// What [`write_named_formatted_scope`] attempts, where its `scope` follows
/// `body`.
pub open spec fn named_formatted_scope_plan(
    name: Seq<char>,
    format: Option<TextFormat>,
    body: Plan,
) -> Plan {
    Plan::sequence(scope_parts(formatted_start(name, format), body))
}

/// The event for a piece of text: verbatim in a CDATA block if `cdata` is
/// set, and escaped if not.
pub open spec fn text_event(data: Seq<char>, cdata: bool) -> Event {
    if cdata {
        Event::CData(data)
    } else {
        Event::Characters(data)
    }
}

/// A `text` scope never fails. It is the opening, the
/// text and the closing: one scope.
pub proof fn lemma_text_tag_plan(data: Seq<char>, cdata: bool)
    ensures
        text_tag_plan(data, cdata).failure is None,
        text_tag_plan(data, cdata).events == seq![
            plain_start("text"@),
            text_event(data, cdata),
            Event::End,
        ],
        text_tag_plan(data, cdata).scoped("text"@),
        text_tag_plan(data, cdata).balanced(),
{
    let parts = text_tag_parts(data, cdata);
    let text = text_event(data, cdata);
    lemma_sequence_failure(parts);
    lemma_text_balanced(text);
    let middle = seq![Plan::event(text)];
    assert(parts =~= seq![Plan::event(plain_start("text"@))] + middle + seq![
        Plan::event(Event::End),
    ]);
    lemma_scope_balanced(plain_start("text"@), middle);
    lemma_scope_events(plain_start("text"@), Plan::event(text));
    assert(seq![plain_start("text"@)] + seq![text] + seq![Event::End] =~= seq![
        plain_start("text"@),
        text,
        Event::End,
    ]);
}

/// A scope fails where its body does, with the failure of the body and
/// behind what the body writes before it fails. Where the body does not
/// fail, the scope is the opening, the body and the closing.
pub proof fn lemma_scope_events(start: Event, body: Plan)
    ensures
        Plan::sequence(scope_parts(start, body)).failure == body.failure,
        Plan::sequence(scope_parts(start, body)).events == if body.failure is Some {
            seq![start] + body.events
        } else {
            seq![start] + body.events + seq![Event::End]
        },
{
    let parts = scope_parts(start, body);
    let open = seq![Plan::event(start)];
    assert(parts.take(1) =~= open);
    assert(parts.take(2) =~= open.push(body));
    assert(parts =~= parts.take(2).push(Plan::event(Event::End)));
    assert(open =~= Seq::<Plan>::empty().push(Plan::event(start)));
    lemma_sequence_push(Seq::<Plan>::empty(), Plan::event(start));
    lemma_sequence_push(open, body);
    lemma_sequence_push(parts.take(2), Plan::event(Event::End));
    assert(Plan::sequence(Seq::<Plan>::empty()) == Plan::nothing());
    assert(Seq::<Event>::empty() + seq![start] =~= seq![start]);
}

/// A scope fails where its body does. Where the body is balanced, what is
/// written is one scope of the given name, unless the body fails.
pub proof fn lemma_named_formatted_scope_plan(
    name: Seq<char>,
    format: Option<TextFormat>,
    body: Plan,
)
    ensures
        named_formatted_scope_plan(name, format, body).failure == body.failure,
        body.balanced() ==> named_formatted_scope_plan(name, format, body).scoped(name),
        body.balanced() ==> named_formatted_scope_plan(name, format, body).balanced(),
{
    let start = formatted_start(name, format);
    let parts = scope_parts(start, body);
    lemma_scope_events(start, body);
    if body.balanced() {
        let middle = seq![body];
        assert(parts =~= seq![Plan::event(start)] + middle + seq![Plan::event(Event::End)]);
        lemma_scope_balanced(start, middle);
    }
}

/// Writes a text named tag and a add text inside it, wheter plain or wrapped with CDATA
pub fn write_text_tag(writer: &mut XmlWriter, data: &str, cdata: bool) -> (outcome: Result<
    (),
    QuizError,
>)
    ensures
        text_tag_plan(data@, cdata).carried_out(*old(writer), *final(writer), outcome),
        outcome is Ok,
{
    let ghost before = writer.events();
    let ghost parts = text_tag_parts(data@, cdata);
    proof {
        lemma_text_tag_plan(data@, cdata);
        lemma_sequence_start(parts, before);
    }
    let outcome = writer.write(XmlEvent::start_element("text"));
    proof {
        lemma_sequence_step(parts, 0, before, writer.events(), outcome);
    }
    outcome?;
    let outcome = if cdata {
        writer.write(XmlEvent::CData(data))
    } else {
        writer.write(XmlEvent::Characters(data))
    };
    proof {
        lemma_sequence_step(parts, 1, before, writer.events(), outcome);
    }
    outcome?;
    let outcome = writer.write(XmlEvent::EndElement);
    proof {
        lemma_sequence_step(parts, 2, before, writer.events(), outcome);
    }
    outcome?;
    proof {
        lemma_sequence_end(parts, before, writer.events());
    }
    Ok(())
}

/// Writes something inside a tag with name `name` which has an optional format attribute `format`
///
/// <correctfeedback format="html">
/// ... scope start...
/// <text>The Answer is good!</text>
/// ... scope end...
/// </correctfeedback>
///
/// The closing tag is written only if `scope` returns `Ok`: when it fails,
/// its error is returned and nothing more is written.
///
/// The contract says what is written for every plan that `scope` is known
/// to keep to: where `scope` follows a plan, the scope around that plan is
/// followed; where `scope` carries a plan out, so that the writer refuses
/// nothing in it and the scopes that it opens are closed again, the scope
/// around that plan is carried out.
pub fn write_named_formatted_scope<F>(
    writer: &mut XmlWriter,
    name: &str,
    format: Option<TextFormat>,
    scope: F,
) -> (outcome: Result<(), QuizError>) where F: FnOnce(&mut XmlWriter) -> Result<(), QuizError>
    requires
        forall|w: &mut XmlWriter| call_requires(scope, (w,)),
    ensures
        forall|body: Plan|
            (forall|w: &mut XmlWriter, inner: Result<(), QuizError>| #[trigger]
                call_ensures(scope, (w,), inner) ==> body.followed(
                    (*w).events(),
                    (*final(w)).events(),
                    inner,
                )) ==> (#[trigger] named_formatted_scope_plan(name@, format, body)).followed(
                old(writer).events(),
                final(writer).events(),
                outcome,
            ),
        forall|body: Plan|
            (forall|w: &mut XmlWriter, inner: Result<(), QuizError>| #[trigger]
                call_ensures(scope, (w,), inner) ==> body.carried_out(*w, *final(w), inner))
                ==> (#[trigger] named_formatted_scope_plan(name@, format, body)).carried_out(
                *old(writer),
                *final(writer),
                outcome,
            ),
{
    let ghost before = writer.events();
    let ghost start = formatted_start(name@, format);
    let outcome = if let Some(format) = format {
        writer.write(XmlEvent::start_element(name).attr("format", format.name()))
    } else {
        writer.write(XmlEvent::start_element(name))
    };
    assert(outcome is Ok);
    outcome?;
    let ghost inside = *writer;
    let outcome = scope(writer);
    proof {
        assert forall|body: Plan|
            outcome is Err && (forall|w: &mut XmlWriter, inner: Result<(), QuizError>| #[trigger]
                call_ensures(scope, (w,), inner) ==> body.followed(
                    (*w).events(),
                    (*final(w)).events(),
                    inner,
                )) implies (#[trigger] named_formatted_scope_plan(name@, format, body)).followed(
            before,
            writer.events(),
            outcome,
        ) by {
            let parts = scope_parts(start, body);
            lemma_sequence_start(parts, before);
            lemma_sequence_step(parts, 0, before, inside.events(), Ok(()));
            lemma_sequence_step(parts, 1, before, writer.events(), outcome);
        }
        assert forall|body: Plan|
            outcome is Err && (forall|w: &mut XmlWriter, inner: Result<(), QuizError>| #[trigger]
                call_ensures(scope, (w,), inner) ==> body.carried_out(*w, *final(w), inner))
                implies (#[trigger] named_formatted_scope_plan(name@, format, body)).carried_out(
            *old(writer),
            *writer,
            outcome,
        ) by {
            assert(body.carried_out(inside, *writer, outcome));
            let parts = scope_parts(start, body);
            lemma_sequence_start(parts, before);
            lemma_sequence_step(parts, 0, before, inside.events(), Ok(()));
            lemma_sequence_step(parts, 1, before, writer.events(), outcome);
            lemma_prefix_of_prefix(old(writer).bytes(), inside.bytes(), writer.bytes());
        }
    }
    outcome?;
    let ghost closing = *writer;
    let outcome = writer.write(XmlEvent::EndElement);
    proof {
        assert forall|body: Plan|
            (forall|w: &mut XmlWriter, inner: Result<(), QuizError>| #[trigger]
                call_ensures(scope, (w,), inner) ==> body.followed(
                    (*w).events(),
                    (*final(w)).events(),
                    inner,
                )) implies (#[trigger] named_formatted_scope_plan(name@, format, body)).followed(
            before,
            writer.events(),
            outcome,
        ) by {
            let parts = scope_parts(start, body);
            lemma_sequence_start(parts, before);
            lemma_sequence_step(parts, 0, before, inside.events(), Ok(()));
            lemma_sequence_step(parts, 1, before, closing.events(), Ok(()));
            lemma_sequence_step(parts, 2, before, writer.events(), outcome);
            if outcome is Ok {
                lemma_sequence_end(parts, before, writer.events());
            }
        }
        assert forall|body: Plan|
            (forall|w: &mut XmlWriter, inner: Result<(), QuizError>| #[trigger]
                call_ensures(scope, (w,), inner) ==> body.carried_out(*w, *final(w), inner))
                implies (#[trigger] named_formatted_scope_plan(name@, format, body)).carried_out(
            *old(writer),
            *writer,
            outcome,
        ) by {
            assert(body.carried_out(inside, closing, Ok(())));
            assert(outcome is Ok);
            let parts = scope_parts(start, body);
            lemma_sequence_start(parts, before);
            lemma_sequence_step(parts, 0, before, inside.events(), Ok(()));
            lemma_sequence_step(parts, 1, before, closing.events(), Ok(()));
            lemma_sequence_step(parts, 2, before, writer.events(), outcome);
            lemma_sequence_end(parts, before, writer.events());
            lemma_prefix_of_prefix(old(writer).bytes(), inside.bytes(), closing.bytes());
            lemma_prefix_of_prefix(old(writer).bytes(), closing.bytes(), writer.bytes());
        }
    }
    outcome
}

} // verus!
