//! Plans: what the writing of a value attempts, and when it stops.

use vstd::prelude::*;
use crate::event::{
    is_scope,
    lemma_scope_is_well_nested,
    lemma_well_nested_concat,
    lemma_well_nested_empty,
    lemma_well_nested_text,
    well_nested,
    Event,
};
use crate::quiz::{Failure, QuizError};
use crate::writer::XmlWriter;

verus! {

/// What the writing of a value attempts: the events it hands to the writer,
/// in order, and the failure that ends it behind the last of them, if any.
pub struct Plan {
    pub events: Seq<Event>,
    pub failure: Option<Failure>,
}

impl Plan {
    /// Nothing to write, and no failure.
    pub open spec fn nothing() -> Plan {
        Plan { events: Seq::empty(), failure: None }
    }

    /// One event.
    pub open spec fn event(event: Event) -> Plan {
        Plan { events: seq![event], failure: None }
    }

    /// A failure before anything is written.
    pub open spec fn fails(failure: Failure) -> Plan {
        Plan { events: Seq::empty(), failure: Some(failure) }
    }

    /// This plan and, unless it fails, `next` behind it.
    pub open spec fn and_then(self, next: Plan) -> Plan {
        if self.failure is Some {
            self
        } else {
            Plan { events: self.events + next.events, failure: next.failure }
        }
    }

    /// The plans of `parts` one behind the other, up to the first that fails.
    pub open spec fn sequence(parts: Seq<Plan>) -> Plan
        decreases parts.len(),
    {
        if parts.len() == 0 {
            Plan::nothing()
        } else {
            Plan::sequence(parts.drop_last()).and_then(parts.last())
        }
    }

    /// Unless the plan fails, every scope that it opens is closed again.
    pub open spec fn balanced(self) -> bool {
        self.failure is None ==> well_nested(self.events)
    }

    /// Unless the plan fails, what it writes is one scope of the given
    /// name.
    pub open spec fn scoped(self, name: Seq<char>) -> bool {
        self.failure is None ==> is_scope(self.events, name)
    }

    /// The plan was followed by a call that found the writer with the events
    /// `before`, left it with the events `after` and returned `outcome`:
    ///
    /// - `Ok`: the plan has no failure, and all its events were written;
    /// - the writer's error: the writer refused an event of the plan, and
    ///   those in front of that one were written;
    /// - another error: it is the plan's failure, and all events in front of
    ///   it were written.
    pub open spec fn followed(
        self,
        before: Seq<Event>,
        after: Seq<Event>,
        outcome: Result<(), QuizError>,
    ) -> bool {
        match outcome {
            Ok(()) => self.failure is None && after == before + self.events,
            Err(error) => if error@ is Writer {
                exists|k: int|
                    0 <= k < self.events.len() && after == before + #[trigger] self.events.take(k)
            } else {
                self.failure == Some(error@) && after == before + self.events
            },
        }
    }

    /// The plan was carried out by a call that found the writer as `before`,
    /// left it as `after` and returned `outcome`. The writer did not refuse
    /// anything, so that the outcome is that of the plan:
    ///
    /// - `Ok` if and only if the plan has no failure: all its events were
    ///   written, and the scopes that are open are those that were open
    ///   before;
    /// - the failure of the plan if it has one, with all events in front of
    ///   it written.
    ///
    /// The bytes that were written before stay where they are.
    pub open spec fn carried_out(
        self,
        before: XmlWriter,
        after: XmlWriter,
        outcome: Result<(), QuizError>,
    ) -> bool {
        &&& self.followed(before.events(), after.events(), outcome)
        &&& outcome matches Err(error) ==> !(error@ is Writer)
        &&& outcome is Ok ==> after.open() == before.open()
        &&& before.bytes().is_prefix_of(after.bytes())
    }
}

/// What begins what begins a sequence begins the sequence.
pub proof fn lemma_prefix_of_prefix(first: Seq<u8>, second: Seq<u8>, third: Seq<u8>)
    requires
        first.is_prefix_of(second),
        second.is_prefix_of(third),
    ensures
        first.is_prefix_of(third),
{
}

/// A sequence with one more part is the sequence, then the part.
pub proof fn lemma_sequence_push(parts: Seq<Plan>, part: Plan)
    ensures
        Plan::sequence(parts.push(part)) == Plan::sequence(parts).and_then(part),
{
    assert(parts.push(part).drop_last() =~= parts);
}

/// Before the first part nothing has been written.
pub proof fn lemma_sequence_start(parts: Seq<Plan>, before: Seq<Event>)
    ensures
        Plan::sequence(parts.take(0)) == Plan::nothing(),
        before + Plan::sequence(parts.take(0)).events == before,
{
    assert(parts.take(0) =~= Seq::<Plan>::empty());
    assert(before + Seq::<Event>::empty() =~= before);
}

/// One step through a sequence of plans. The parts in front of part `i` have
/// been written without failure, and then part `i` was followed with
/// `outcome`. If that is `Ok`, the parts up to and with part `i` have been
/// written without failure; if not, the whole sequence was followed with the
/// same outcome.
pub proof fn lemma_sequence_step(
    parts: Seq<Plan>,
    i: int,
    before: Seq<Event>,
    after: Seq<Event>,
    outcome: Result<(), QuizError>,
)
    requires
        0 <= i < parts.len(),
        Plan::sequence(parts.take(i)).failure is None,
        parts[i].followed(before + Plan::sequence(parts.take(i)).events, after, outcome),
    ensures
        outcome is Ok ==> Plan::sequence(parts.take(i + 1)).failure is None,
        outcome is Ok ==> after == before + Plan::sequence(parts.take(i + 1)).events,
        outcome is Err ==> Plan::sequence(parts).followed(before, after, outcome),
{
    let front = Plan::sequence(parts.take(i));
    let upto = Plan::sequence(parts.take(i + 1));
    assert(parts.take(i + 1) =~= parts.take(i).push(parts[i]));
    lemma_sequence_push(parts.take(i), parts[i]);
    assert(upto == front.and_then(parts[i]));
    match outcome {
        Ok(()) => {
            assert(before + front.events + parts[i].events =~= before + upto.events);
        },
        Err(error) => {
            lemma_sequence_prefix(parts, i + 1);
            let whole = Plan::sequence(parts);
            if error@ is Writer {
                let k = choose|k: int|
                    0 <= k < parts[i].events.len() && after == before + front.events
                        + #[trigger] parts[i].events.take(k);
                let n = front.events.len() + k;
                assert(upto.events.take(n) =~= front.events + parts[i].events.take(k));
                assert(whole.events.take(n) =~= upto.events.take(n));
                assert(before + front.events + parts[i].events.take(k) =~= before
                    + whole.events.take(n));
            } else {
                assert(before + front.events + parts[i].events =~= before + upto.events);
            }
        },
    }
}

/// The sequence of the first `n` parts is where the whole sequence begins:
/// if it fails, the whole sequence is the same plan; if not, its events are
/// the first events of the whole.
pub proof fn lemma_sequence_prefix(parts: Seq<Plan>, n: int)
    requires
        0 <= n <= parts.len(),
    ensures
        Plan::sequence(parts.take(n)).failure is Some ==> Plan::sequence(parts) == Plan::sequence(
            parts.take(n),
        ),
        Plan::sequence(parts.take(n)).failure is None ==> Plan::sequence(
            parts.take(n),
        ).events.is_prefix_of(Plan::sequence(parts).events),
    decreases parts.len() - n,
{
    if n == parts.len() {
        assert(parts.take(n) =~= parts);
    } else {
        assert(parts.take(n + 1) =~= parts.take(n).push(parts[n]));
        lemma_sequence_push(parts.take(n), parts[n]);
        lemma_sequence_prefix(parts, n + 1);
    }
}

/// All parts of a sequence have been written without failure: the sequence
/// was followed, and the call returns `Ok`.
pub proof fn lemma_sequence_end(parts: Seq<Plan>, before: Seq<Event>, after: Seq<Event>)
    requires
        Plan::sequence(parts.take(parts.len() as int)).failure is None,
        after == before + Plan::sequence(parts.take(parts.len() as int)).events,
    ensures
        Plan::sequence(parts).followed(before, after, Ok(())),
{
    assert(parts.take(parts.len() as int) =~= parts);
}

/// Three plans in a row may be read either way.
pub proof fn lemma_and_then_associative(first: Plan, second: Plan, third: Plan)
    ensures
        first.and_then(second).and_then(third) == first.and_then(second.and_then(third)),
{
    if first.failure is None && second.failure is None {
        assert((first.events + second.events) + third.events =~= first.events + (second.events
            + third.events));
    }
}

/// The sequence of two lists of parts in a row is the sequence of the first,
/// and behind it the sequence of the second.
pub proof fn lemma_sequence_concat(first: Seq<Plan>, second: Seq<Plan>)
    ensures
        Plan::sequence(first + second) == Plan::sequence(first).and_then(Plan::sequence(second)),
    decreases second.len(),
{
    if second.len() == 0 {
        assert(first + second =~= first);
        assert(Plan::sequence(first).events + Seq::<Event>::empty() =~= Plan::sequence(
            first,
        ).events);
    } else {
        assert((first + second).drop_last() =~= first + second.drop_last());
        assert((first + second).last() == second.last());
        lemma_sequence_concat(first, second.drop_last());
        lemma_and_then_associative(
            Plan::sequence(first),
            Plan::sequence(second.drop_last()),
            second.last(),
        );
    }
}

/// A sequence fails if and only if one of its parts fails.
pub proof fn lemma_sequence_failure(parts: Seq<Plan>)
    ensures
        Plan::sequence(parts).failure is None <==> forall|i: int|
            0 <= i < parts.len() ==> (#[trigger] parts[i]).failure is None,
    decreases parts.len(),
{
    if parts.len() > 0 {
        lemma_sequence_failure(parts.drop_last());
        let front = parts.drop_last();
        if Plan::sequence(parts).failure is None {
            assert forall|i: int| 0 <= i < parts.len() implies (#[trigger] parts[i]).failure
                is None by {
                if i < front.len() {
                    assert(front[i] == parts[i]);
                }
            }
        } else if Plan::sequence(front).failure is None {
            assert(parts[parts.len() - 1].failure is Some);
        } else {
            let i = choose|i: int| 0 <= i < front.len() && (#[trigger] front[i]).failure is Some;
            assert(parts[i] == front[i]);
        }
    }
}

/// The failure of a sequence, if it has one, is the failure of one of its
/// parts.
pub proof fn lemma_sequence_failure_among(parts: Seq<Plan>)
    ensures
        Plan::sequence(parts).failure is Some ==> exists|i: int|
            0 <= i < parts.len() && (#[trigger] parts[i]).failure == Plan::sequence(parts).failure,
    decreases parts.len(),
{
    if parts.len() > 0 {
        let front = parts.drop_last();
        lemma_sequence_failure_among(front);
        if Plan::sequence(front).failure is Some {
            let i = choose|i: int|
                0 <= i < front.len() && (#[trigger] front[i]).failure == Plan::sequence(
                    front,
                ).failure;
            assert(parts[i] == front[i]);
        } else if Plan::sequence(parts).failure is Some {
            assert(parts[parts.len() - 1].failure == Plan::sequence(parts).failure);
        }
    }
}

/// The failure of a sequence is the failure of the first part that fails,
/// and what is written in front of it is what the parts in front of that
/// part write and what the part itself writes in front of its failure.
pub proof fn lemma_sequence_first_failure(parts: Seq<Plan>, i: int)
    requires
        0 <= i < parts.len(),
        parts[i].failure is Some,
        forall|j: int| 0 <= j < i ==> (#[trigger] parts[j]).failure is None,
    ensures
        Plan::sequence(parts).failure == parts[i].failure,
        Plan::sequence(parts).events == Plan::sequence(parts.take(i)).events + parts[i].events,
{
    let front = parts.take(i);
    assert forall|j: int| 0 <= j < front.len() implies (#[trigger] front[j]).failure is None by {
        assert(front[j] == parts[j]);
    }
    lemma_sequence_failure(front);
    assert(parts.take(i + 1) =~= front.push(parts[i]));
    lemma_sequence_push(front, parts[i]);
    lemma_sequence_prefix(parts, i + 1);
}

/// A sequence of balanced parts is balanced.
pub proof fn lemma_sequence_balanced(parts: Seq<Plan>)
    requires
        forall|i: int| 0 <= i < parts.len() ==> (#[trigger] parts[i]).balanced(),
    ensures
        Plan::sequence(parts).balanced(),
    decreases parts.len(),
{
    if parts.len() == 0 {
        lemma_well_nested_empty();
    } else {
        let front = parts.drop_last();
        assert forall|i: int| 0 <= i < front.len() implies (#[trigger] front[i]).balanced() by {
            assert(front[i] == parts[i]);
        }
        lemma_sequence_balanced(front);
        if Plan::sequence(parts).failure is None {
            assert(parts[parts.len() - 1].balanced());
            lemma_well_nested_concat(Plan::sequence(front).events, parts.last().events);
        }
    }
}

/// Balanced parts between an opening and a closing are one scope, unless
/// one of the parts fails.
pub proof fn lemma_scope_balanced(start: Event, middle: Seq<Plan>)
    requires
        start is Start,
        forall|i: int| 0 <= i < middle.len() ==> (#[trigger] middle[i]).balanced(),
    ensures
        Plan::sequence(
            seq![Plan::event(start)] + middle + seq![Plan::event(Event::End)],
        ).scoped(start->name),
        Plan::sequence(
            seq![Plan::event(start)] + middle + seq![Plan::event(Event::End)],
        ).balanced(),
{
    let open = seq![Plan::event(start)];
    let close = seq![Plan::event(Event::End)];
    let body = Plan::sequence(middle);
    let all = Plan::sequence(open + middle + close);
    lemma_sequence_balanced(middle);
    lemma_sequence_concat(open, middle);
    lemma_sequence_concat(open + middle, close);
    lemma_sequence_push(Seq::<Plan>::empty(), Plan::event(start));
    lemma_sequence_push(Seq::<Plan>::empty(), Plan::event(Event::End));
    assert(Seq::<Plan>::empty().push(Plan::event(start)) =~= open);
    assert(Seq::<Plan>::empty().push(Plan::event(Event::End)) =~= close);
    assert(Plan::sequence(Seq::<Plan>::empty()) == Plan::nothing());
    assert(Seq::<Event>::empty() + seq![start] =~= seq![start]);
    assert(Seq::<Event>::empty() + seq![Event::End] =~= seq![Event::End]);
    if body.failure is None {
        assert(all.events =~= seq![start] + body.events + seq![Event::End]);
        assert(all.events.subrange(1, all.events.len() - 1) =~= body.events);
        lemma_scope_is_well_nested(all.events, start->name);
    }
}

/// A piece of text is balanced.
pub proof fn lemma_text_balanced(event: Event)
    requires
        event is Characters || event is CData,
    ensures
        Plan::event(event).balanced(),
{
    lemma_well_nested_text(event);
}

} // verus!
