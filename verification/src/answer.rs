//! An answer of a question.

use vstd::prelude::*;
use vstd::std_specs::convert::FromSpecImpl;
use crate::event::{lemma_well_nested_empty, Event, XmlEvent};
use crate::plan::{
    lemma_scope_balanced,
    lemma_sequence_end,
    lemma_sequence_failure,
    lemma_sequence_start,
    lemma_sequence_step,
    Plan,
};
use crate::question::TextFormat;
use crate::quiz::{Failure, QuizError};
use crate::writer::XmlWriter;
use crate::xml_util::{
    decimal,
    decimal_string,
    lemma_named_formatted_scope_plan,
    lemma_text_tag_plan,
    named_formatted_scope_plan,
    text_tag_plan,
    write_named_formatted_scope,
    write_text_tag,
};

verus! {

/// An answer of a question: what it is worth, its text, and what is said to
/// those who choose it.
///
/// `fraction` is the share of the points that the answer gives, in percent.
/// An answer may be made with more than 100; it is refused when it is
/// written.
#[derive(Debug, Clone)]
pub struct Answer {
    pub fraction: u8,
    pub text: String,
    pub feedback: Option<String>,
    pub text_format: TextFormat,
}

impl Answer {
    /// Generates a new Answer type struct
    ///
    /// ### Arguments
    /// * `new_fraction` - The amount of points answer gives from 0-100
    /// * `new_text` - Text displayed on the answer.
    /// * `new_feedback` - Feedback displayed on the answer can be left empty with None.
    pub fn new(new_fraction: u8, new_text: String, new_feedback: Option<String>) -> (answer: Self)
        ensures
            answer == (Answer {
                fraction: new_fraction,
                text: new_text,
                feedback: new_feedback,
                text_format: TextFormat::HTML,
            }),
    {
        Self {
            fraction: new_fraction,
            text: new_text,
            feedback: new_feedback,
            text_format: TextFormat::default(),
        }
    }

    /// Sets the text rendering format for the answer and feedback. Default is HTML.
    pub fn set_text_format(&mut self, text_format: TextFormat)
        ensures
            *final(self) == (Answer { text_format, ..*old(self) }),
    {
        self.text_format = text_format;
    }

    /// The opening of the `answer` scope: the fraction, then the format.
    pub open spec fn start(&self) -> Event {
        Event::Start {
            name: "answer"@,
            attributes: seq![
                ("fraction"@, decimal(self.fraction as nat)),
                ("format"@, self.text_format.name_view()),
            ],
        }
    }

    /// What is written for the feedback: a `feedback` scope with the format
    /// of the answer around the text, or nothing where there is no feedback.
    pub open spec fn feedback_plan(&self) -> Plan {
        match self.feedback {
            Some(feedback) => named_formatted_scope_plan(
                "feedback"@,
                Some(self.text_format),
                text_tag_plan(feedback@, false),
            ),
            None => Plan::nothing(),
        }
    }

    /// The parts of an answer that can be written: the opening, the text,
    /// the feedback and the closing.
    pub open spec fn parts(&self) -> Seq<Plan> {
        seq![
            Plan::event(self.start()),
            text_tag_plan(self.text@, false),
            self.feedback_plan(),
            Plan::event(Event::End),
        ]
    }

    /// The failure with which the answer is refused when it is written, if
    /// it is: an answer must not give more than 100.
    pub open spec fn failure(&self) -> Option<Failure> {
        if self.fraction > 100 {
            Some(Failure::invalid_fraction())
        } else {
            None
        }
    }

    /// What [`Answer::to_xml`] attempts: nothing but a failure where the
    /// fraction is over 100, and the parts of the answer in order where it
    /// is not.
    pub open spec fn plan(&self) -> Plan {
        match self.failure() {
            Some(failure) => Plan::fails(failure),
            None => Plan::sequence(self.parts()),
        }
    }

    /// An answer fails to be written exactly where it
    /// gives more than 100. An answer that has been written is one `answer`
    /// scope, and the scopes in it are closed.
    pub proof fn lemma_plan(&self)
        ensures
            self.plan().failure == self.failure(),
            self.plan().scoped("answer"@),
            self.plan().balanced(),
    {
        let parts = self.parts();
        lemma_text_tag_plan(self.text@, false);
        match self.feedback {
            Some(feedback) => {
                lemma_text_tag_plan(feedback@, false);
                lemma_named_formatted_scope_plan(
                    "feedback"@,
                    Some(self.text_format),
                    text_tag_plan(feedback@, false),
                );
            },
            None => {
                lemma_well_nested_empty();
            },
        }
        lemma_sequence_failure(parts);
        let middle = seq![text_tag_plan(self.text@, false), self.feedback_plan()];
        assert(parts =~= seq![Plan::event(self.start())] + middle + seq![Plan::event(Event::End)]);
        lemma_scope_balanced(self.start(), middle);
    }

    /// Writes answer part of xml for the writer.
    ///
    /// An answer with a fraction over 100 is refused before anything is
    /// written. Any other answer is written in full.
    pub fn to_xml(&self, writer: &mut XmlWriter) -> (outcome: Result<(), QuizError>)
        ensures
            self.plan().carried_out(*old(writer), *final(writer), outcome),
            self.fraction > 100 ==> outcome is Err && outcome->Err_0@
                == Failure::invalid_fraction() && final(writer).events() == old(writer).events(),
            self.fraction <= 100 ==> outcome is Ok,
    {
        let ghost before = writer.events();
        let ghost parts = self.parts();
        if self.fraction > 100 {
            proof {
                assert(before + Seq::<Event>::empty() =~= before);
            }
            return Err(
                QuizError::AnswerFractionError("Answer fraction is larger than 100".to_string()),
            );
        }
        proof {
            self.lemma_plan();
            lemma_sequence_start(parts, before);
        }
        let fraction = decimal_string(self.fraction);
        let start = XmlEvent::start_element("answer").attr("fraction", fraction.as_str()).attr(
            "format",
            self.text_format.name(),
        );
        assert(start@->attributes =~= self.start()->attributes);
        let outcome = writer.write(start);
        proof {
            lemma_sequence_step(parts, 0, before, writer.events(), outcome);
        }
        outcome?;
        let outcome = write_text_tag(writer, self.text.as_str(), false);
        proof {
            lemma_sequence_step(parts, 1, before, writer.events(), outcome);
        }
        outcome?;
        let outcome = match &self.feedback {
            Some(string) => {
                let text = |w: &mut XmlWriter| -> (inner: Result<(), QuizError>)
                    ensures
                        text_tag_plan(string@, false).carried_out(*old(w), *final(w), inner)
                    {
                        write_text_tag(w, string.as_str(), false)
                    };
                write_named_formatted_scope(writer, "feedback", Some(self.text_format), text)
            },
            None => Ok(()),
        };
        proof {
            if self.feedback is None {
                assert(writer.events() + Seq::<Event>::empty() =~= writer.events());
            }
            lemma_sequence_step(parts, 2, before, writer.events(), outcome);
        }
        outcome?;
        let outcome = writer.write(XmlEvent::EndElement);
        proof {
            lemma_sequence_step(parts, 3, before, writer.events(), outcome);
        }
        outcome?;
        proof {
            lemma_sequence_end(parts, before, writer.events());
        }
        Ok(())
    }
}

/// What the conversion gives is said by the contract of `from`.
impl FromSpecImpl<Answer> for Vec<Answer> {
    open spec fn obeys_from_spec() -> bool {
        false
    }

    open spec fn from_spec(answer: Answer) -> Vec<Answer> {
        arbitrary()
    }
}

impl From<Answer> for Vec<Answer> {
    /// The answer alone.
    fn from(answer: Answer) -> (answers: Vec<Answer>)
        ensures
            answers@ == seq![answer],
    {
        vec![answer]
    }
}

} // verus!
