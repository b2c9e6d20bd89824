//! The kinds of question, and the rules for their answers.

use vstd::prelude::*;
use crate::answer::Answer;
use crate::event::{Event, XmlEvent};
use crate::plan::{
    lemma_scope_balanced,
    lemma_sequence_balanced,
    lemma_sequence_end,
    lemma_sequence_failure,
    lemma_sequence_failure_among,
    lemma_sequence_first_failure,
    lemma_sequence_start,
    lemma_sequence_step,
    lemma_text_balanced,
    Plan,
};
use crate::quiz::{EmptyError, Failure, QuizError};
use crate::writer::XmlWriter;
use crate::xml_util::{
    flag_digit,
    flag_digit_str,
    flag_word,
    flag_word_str,
    lemma_named_formatted_scope_plan,
    lemma_text_tag_plan,
    named_formatted_scope_plan,
    text_tag_plan,
    write_named_formatted_scope,
    write_text_tag,
};

verus! {

/// Common trait for all question types
pub trait Question {
    /// The fields that all question types share.
    spec fn base(&self) -> QuestionBase;

    /// What the question type asks of a question over what its fields can
    /// hold.
    spec fn well_formed(&self) -> bool;

    /// The failure with which these answers are refused when they are added,
    /// if they are.
    spec fn refusal(&self, answers: Seq<Answer>) -> Option<Failure>;

    /// What the writing of the question attempts.
    spec fn plan(&self) -> Plan;

    /// Returns the name of the question>
    fn get_name(&self) -> (name: &str)
        ensures
            name@ == self.base().name@,
    ;

    /// Returns the description of the question.
    fn get_description(&self) -> (description: &str)
        ensures
            description@ == self.base().description@,
    ;

    /// Set the text rendering format `TextFormat` for the question.
    fn set_text_format(&mut self, format: TextFormat)
        ensures
            final(self).base() == (QuestionBase {
                question_text_format: format,
                ..old(self).base()
            }),
            old(self).well_formed() ==> final(self).well_formed(),
    ;

    /// Adds all answers from type `Vec<Answer>` to the Question variant type.
    /// May return an error if there is a problem with the fractions or count of answers.
    ///
    /// The answers are refused exactly where `refusal` names a failure, and
    /// with that failure. Answers that are taken stand behind those that the
    /// question has; where they are refused, the question keeps the answers
    /// it has or loses them all.
    fn add_answers(&mut self, answers: Vec<Answer>) -> (outcome: Result<(), QuizError>)
        ensures
            match outcome {
                Ok(()) => old(self).refusal(answers@) is None,
                Err(error) => old(self).refusal(answers@) == Some(error@),
            },
            final(self).base() == (QuestionBase {
                answers: final(self).base().answers,
                ..old(self).base()
            }),
            outcome is Ok ==> final(self).base().answers@ == old(self).base().answers@ + answers@,
            outcome is Err ==> final(self).base().answers@ == old(self).base().answers@
                || final(self).base().answers@ == Seq::<Answer>::empty(),
            old(self).well_formed() ==> final(self).well_formed(),
    ;

    /// Writes the question in XML format to the provided writer.
    fn to_xml(&self, writer: &mut XmlWriter) -> (outcome: Result<(), QuizError>)
        ensures
            self.plan().carried_out(*old(writer), *final(writer), outcome),
    ;
}

/// Represents the formatting options for the question text, feedback text and in other situations where Moodle could render it differently.
#[derive(Debug, Copy, Clone)]
pub enum TextFormat {
    HTML,
    Moodle,
    Markdown,
    PlainText,
}

impl Default for TextFormat {
    /// Text is HTML unless something else is said.
    fn default() -> (format: Self)
        ensures
            format == TextFormat::HTML,
    {
        TextFormat::HTML
    }
}

impl TextFormat {
    /// The name of the format as the value of a `format` attribute.
    pub open spec fn name_view(self) -> Seq<char> {
        match self {
            TextFormat::HTML => "html"@,
            TextFormat::Moodle => "moodle_auto_format"@,
            TextFormat::Markdown => "markdown"@,
            TextFormat::PlainText => "plain_text"@,
        }
    }

    pub fn name(&self) -> (name: &'static str)
        ensures
            name@ == self.name_view(),
    {
        match self {
            TextFormat::HTML => "html",
            TextFormat::Moodle => "moodle_auto_format",
            TextFormat::Markdown => "markdown",
            TextFormat::PlainText => "plain_text",
        }
    }
}

/// The sum of the fractions of some answers.
pub open spec fn total_fraction(answers: Seq<Answer>) -> nat
    decreases answers.len(),
{
    if answers.len() == 0 {
        0
    } else {
        total_fraction(answers.drop_last()) + answers.last().fraction as nat
    }
}

/// The first answers give no more than all of them.
pub proof fn lemma_total_fraction_grows(answers: Seq<Answer>, n: int)
    requires
        0 <= n <= answers.len(),
    ensures
        total_fraction(answers.take(n)) <= total_fraction(answers),
    decreases answers.len(),
{
    if n == answers.len() {
        assert(answers.take(n) =~= answers);
    } else {
        assert(answers.drop_last().take(n) =~= answers.take(n));
        lemma_total_fraction_grows(answers.drop_last(), n);
    }
}

/// The fractions of two lists of answers in a row add up.
pub proof fn lemma_total_fraction_concat(first: Seq<Answer>, second: Seq<Answer>)
    ensures
        total_fraction(first + second) == total_fraction(first) + total_fraction(second),
    decreases second.len(),
{
    if second.len() == 0 {
        assert(first + second =~= first);
    } else {
        assert((first + second).drop_last() =~= first + second.drop_last());
        lemma_total_fraction_concat(first, second.drop_last());
    }
}

/// The plans of some answers, one for each.
pub open spec fn answer_plans(answers: Seq<Answer>) -> Seq<Plan> {
    Seq::new(answers.len(), |i: int| answers[i].plan())
}

/// What is written for the answers of a question: a failure where there is
/// none, and the answers in order where there are some.
pub open spec fn answers_plan(answers: Seq<Answer>) -> Plan {
    if answers.len() == 0 {
        Plan::fails(Failure::no_answers())
    } else {
        Plan::sequence(answer_plans(answers))
    }
}

/// The failure with which the answers of a question are refused when the
/// question is written, if they are: there must be an answer, and no answer
/// may give more than 100.
pub open spec fn answers_failure(answers: Seq<Answer>) -> Option<Failure> {
    if answers.len() == 0 {
        Some(Failure::no_answers())
    } else if exists|i: int| 0 <= i < answers.len() && (#[trigger] answers[i]).fraction > 100 {
        Some(Failure::invalid_fraction())
    } else {
        None
    }
}

/// The answers of a question fail to be written
/// exactly where [`answers_failure`] says so, and their scopes are closed
/// when they have been written.
pub proof fn lemma_answers_plan(answers: Seq<Answer>)
    ensures
        answers_plan(answers).failure == answers_failure(answers),
        answers_plan(answers).balanced(),
{
    let plans = answer_plans(answers);
    assert forall|i: int| 0 <= i < plans.len() implies (#[trigger] plans[i]).balanced()
        && plans[i].failure == answers[i].failure() by {
        answers[i].lemma_plan();
    }
    lemma_sequence_failure(plans);
    lemma_sequence_balanced(plans);
    if answers.len() > 0 {
        if exists|i: int| 0 <= i < answers.len() && (#[trigger] answers[i]).fraction > 100 {
            let i = choose|i: int| 0 <= i < answers.len() && (#[trigger] answers[i]).fraction > 100;
            assert(plans[i].failure is Some);
            lemma_sequence_failure_among(plans);
        } else {
            assert forall|i: int| 0 <= i < plans.len() implies (#[trigger] plans[i]).failure
                is None by {
                assert(answers[i].fraction <= 100);
            }
        }
    }
}

/// The opening of a `question` scope of the given type.
pub open spec fn question_start(kind: Seq<char>) -> Event {
    Event::Start { name: "question"@, attributes: seq![("type"@, kind)] }
}

/// A scope without format around a piece of text.
pub open spec fn value_scope_plan(name: Seq<char>, value: Seq<char>) -> Plan {
    named_formatted_scope_plan(name, None, Plan::event(Event::Characters(value)))
}

/// A scope in HTML around a `text` scope.
pub open spec fn feedback_scope_plan(name: Seq<char>, text: Seq<char>) -> Plan {
    named_formatted_scope_plan(name, Some(TextFormat::HTML), text_tag_plan(text, false))
}

/// Neither kind of scope fails, and both are closed when
/// they have been written.
pub proof fn lemma_value_and_feedback_scope_plan(name: Seq<char>, text: Seq<char>)
    ensures
        value_scope_plan(name, text).failure is None,
        value_scope_plan(name, text).balanced(),
        feedback_scope_plan(name, text).failure is None,
        feedback_scope_plan(name, text).balanced(),
{
    lemma_text_balanced(Event::Characters(text));
    lemma_named_formatted_scope_plan(name, None, Plan::event(Event::Characters(text)));
    lemma_text_tag_plan(text, false);
    lemma_named_formatted_scope_plan(name, Some(TextFormat::HTML), text_tag_plan(text, false));
}

/// Writes a scope without format around a piece of text.
fn write_value_scope(writer: &mut XmlWriter, name: &str, value: &str) -> (outcome: Result<
    (),
    QuizError,
>)
    ensures
        value_scope_plan(name@, value@).carried_out(*old(writer), *final(writer), outcome),
        outcome is Ok,
{
    proof {
        lemma_value_and_feedback_scope_plan(name@, value@);
    }
    let characters = |w: &mut XmlWriter| -> (inner: Result<(), QuizError>)
        ensures
            Plan::event(Event::Characters(value@)).carried_out(*old(w), *final(w), inner)
        {
            w.write(XmlEvent::Characters(value))
        };
    write_named_formatted_scope(writer, name, None, characters)
}

/// Writes a scope in HTML around a `text` scope.
fn write_feedback_scope(writer: &mut XmlWriter, name: &str, text: &str) -> (outcome: Result<
    (),
    QuizError,
>)
    ensures
        feedback_scope_plan(name@, text@).carried_out(*old(writer), *final(writer), outcome),
        outcome is Ok,
{
    proof {
        lemma_value_and_feedback_scope_plan(name@, text@);
    }
    let text_tag = |w: &mut XmlWriter| -> (inner: Result<(), QuizError>)
        ensures
            text_tag_plan(text@, false).carried_out(*old(w), *final(w), inner)
        {
            write_text_tag(w, text, false)
        };
    write_named_formatted_scope(writer, name, Some(TextFormat::default()), text_tag)
}

/// Represents a base for question in Moodle XML format.
///
/// # Fields
///
/// - `name`: The name of the question.
/// - `description`: A description of the question.
/// - `question_text_format`: The format that Moodle uses to render the question.
/// - `answers`: A vector of answer objects associated with the question.
///
#[derive(Debug, Clone)]
pub struct QuestionBase {
    pub name: String,
    pub description: String,
    pub question_text_format: TextFormat,
    pub answers: Vec<Answer>,
}

impl QuestionBase {
    pub fn new(name: String, description: String) -> (base: Self)
        ensures
            base.name == name,
            base.description == description,
            base.question_text_format == TextFormat::HTML,
            base.answers@ == Seq::<Answer>::empty(),
            base.well_formed(),
    {
        Self {
            name,
            description,
            question_text_format: TextFormat::default(),
            answers: Vec::new(),
        }
    }

    /// Checks if the answers create the total fraction of 100% at least
    /// There can be also cases where the total fraction is more than 100% because of multiple correct answers
    ///
    /// Answers that give less are all taken out of the question.
    pub fn check_answer_fraction(&mut self) -> (outcome: Result<(), QuizError>)
        ensures
            total_fraction(old(self).answers@) >= 100 ==> outcome is Ok && *final(self) == *old(
                self,
            ),
            total_fraction(old(self).answers@) < 100 ==> outcome is Err && outcome->Err_0@
                == Failure::insufficient_fraction() && final(self).answers@ == Seq::<
                Answer,
            >::empty() && *final(self) == (QuestionBase {
                answers: final(self).answers,
                ..*old(self)
            }),
    {
        let mut total: usize = 0;
        let mut i: usize = 0;
        while i < self.answers.len() && total < 100
            invariant
                *self == *old(self),
                i <= self.answers.len(),
                total < 100 ==> total == total_fraction(self.answers@.take(i as int)),
                total >= 100 ==> total_fraction(self.answers@.take(i as int)) >= 100,
                total < 100 + 256,
            decreases self.answers.len() - i,
        {
            proof {
                assert(self.answers@.take(i + 1).drop_last() =~= self.answers@.take(i as int));
            }
            total += self.answers[i].fraction as usize;
            i += 1;
        }
        proof {
            lemma_total_fraction_grows(self.answers@, i as int);
            if total < 100 {
                assert(self.answers@.take(i as int) =~= self.answers@);
            }
        }
        if total < 100 {
            self.answers.clear();
            return Err(
                QuizError::AnswerFractionError(
                    "The total fraction of answers must be at least 100".to_string(),
                ),
            );
        }
        Ok(())
    }

    /// What is written in front of the answers: the `name` scope around the
    /// name, and the `questiontext` scope, with its format, around the
    /// description, which is kept verbatim.
    pub open spec fn header_parts(&self) -> Seq<Plan> {
        seq![
            named_formatted_scope_plan("name"@, None, text_tag_plan(self.name@, false)),
            named_formatted_scope_plan(
                "questiontext"@,
                Some(self.question_text_format),
                text_tag_plan(self.description@, true),
            ),
        ]
    }

    /// What [`QuestionBase::header_to_xml`] attempts.
    pub open spec fn header_plan(&self) -> Plan {
        Plan::sequence(self.header_parts())
    }

    /// The parts of the common part of a question: the header, then the
    /// answers.
    pub open spec fn parts(&self) -> Seq<Plan> {
        seq![self.header_plan(), answers_plan(self.answers@)]
    }

    /// The header never fails, and its scopes are closed
    /// when it has been written.
    pub proof fn lemma_header_plan(&self)
        ensures
            self.header_plan().failure is None,
            self.header_plan().balanced(),
    {
        let parts = self.header_parts();
        lemma_text_tag_plan(self.name@, false);
        lemma_text_tag_plan(self.description@, true);
        lemma_named_formatted_scope_plan("name"@, None, text_tag_plan(self.name@, false));
        lemma_named_formatted_scope_plan(
            "questiontext"@,
            Some(self.question_text_format),
            text_tag_plan(self.description@, true),
        );
        lemma_sequence_failure(parts);
        lemma_sequence_balanced(parts);
    }

    /// The failure with which the question is refused when it is written,
    /// if it is: that of its answers.
    pub open spec fn failure(&self) -> Option<Failure> {
        answers_failure(self.answers@)
    }

    /// The common part of a question fails to be written, but for the
    /// writer, exactly where its answers do, and its scopes are closed when
    /// it has been written.
    pub proof fn lemma_plan(&self)
        ensures
            self.plan().failure == self.failure(),
            self.plan().balanced(),
    {
        let parts = self.parts();
        self.lemma_header_plan();
        lemma_answers_plan(self.answers@);
        lemma_sequence_failure(parts);
        lemma_sequence_balanced(parts);
        if answers_plan(self.answers@).failure is Some {
            lemma_sequence_first_failure(parts, 1);
        }
    }

    /// Writes what stands in front of the answers of a question: its name
    /// and its description.
    pub fn header_to_xml(&self, writer: &mut XmlWriter) -> (outcome: Result<(), QuizError>)
        ensures
            self.header_plan().carried_out(*old(writer), *final(writer), outcome),
            outcome is Ok,
    {
        let ghost before = writer.events();
        let ghost parts = self.header_parts();
        proof {
            self.lemma_header_plan();
            lemma_sequence_start(parts, before);
        }
        let name = |w: &mut XmlWriter| -> (inner: Result<(), QuizError>)
            ensures
                text_tag_plan(self.name@, false).carried_out(*old(w), *final(w), inner)
            {
                write_text_tag(w, self.name.as_str(), false)
            };
        let outcome = write_named_formatted_scope(writer, "name", None, name);
        proof {
            lemma_sequence_step(parts, 0, before, writer.events(), outcome);
        }
        outcome?;
        // By default, the text format should be specified on the parent of the <text> element.
        let description = |w: &mut XmlWriter| -> (inner: Result<(), QuizError>)
            ensures
                text_tag_plan(self.description@, true).carried_out(*old(w), *final(w), inner)
            {
                write_text_tag(w, self.description.as_str(), true)
            };
        let outcome = write_named_formatted_scope(
            writer,
            "questiontext",
            Some(self.question_text_format),
            description,
        );
        proof {
            lemma_sequence_step(parts, 1, before, writer.events(), outcome);
        }
        outcome?;
        proof {
            lemma_sequence_end(parts, before, writer.events());
        }
        Ok(())
    }

    /// Writes the answers of a question in order. A question without
    /// answers is refused.
    pub fn answers_to_xml(&self, writer: &mut XmlWriter) -> (outcome: Result<(), QuizError>)
        ensures
            answers_plan(self.answers@).carried_out(*old(writer), *final(writer), outcome),
            outcome is Ok <==> answers_failure(self.answers@) is None,
            outcome is Err ==> answers_failure(self.answers@) == Some(outcome->Err_0@),
    {
        let ghost before = writer.events();
        let ghost plans = answer_plans(self.answers@);
        proof {
            lemma_answers_plan(self.answers@);
        }
        if self.answers.is_empty() {
            proof {
                assert(before + Seq::<Event>::empty() =~= before);
            }
            return Err(QuizError::EmptyError(EmptyError.to_string()));
        }
        proof {
            lemma_sequence_start(plans, before);
        }
        let mut i: usize = 0;
        while i < self.answers.len()
            invariant
                i <= self.answers.len(),
                self.answers.len() > 0,
                before == old(writer).events(),
                writer.open() == old(writer).open(),
                old(writer).bytes().is_prefix_of(writer.bytes()),
                plans == answer_plans(self.answers@),
                Plan::sequence(plans.take(i as int)).failure is None,
                writer.events() == before + Plan::sequence(plans.take(i as int)).events,
            decreases self.answers.len() - i,
        {
            let outcome = self.answers[i].to_xml(writer);
            proof {
                lemma_sequence_step(plans, i as int, before, writer.events(), outcome);
            }
            outcome?;
            i += 1;
        }
        proof {
            lemma_sequence_end(plans, before, writer.events());
        }
        Ok(())
    }
}

impl Question for QuestionBase {
    open spec fn base(&self) -> QuestionBase {
        *self
    }

    /// The answers, if there are any, give 100 or more together.
    open spec fn well_formed(&self) -> bool {
        self.answers@.len() == 0 || total_fraction(self.answers@) >= 100
    }

    /// Answers are refused where they and those that the question has give
    /// less than 100 together.
    open spec fn refusal(&self, answers: Seq<Answer>) -> Option<Failure> {
        if total_fraction(self.answers@ + answers) < 100 {
            Some(Failure::insufficient_fraction())
        } else {
            None
        }
    }

    open spec fn plan(&self) -> Plan {
        Plan::sequence(self.parts())
    }

    fn get_name(&self) -> (name: &str) {
        self.name.as_str()
    }

    fn get_description(&self) -> (description: &str) {
        self.description.as_str()
    }

    fn set_text_format(&mut self, format: TextFormat) {
        self.question_text_format = format;
    }

    /// Answers that give less than 100 together with those that the
    /// question has are refused, and the question is left without answers.
    /// Any others are taken.
    fn add_answers(&mut self, answers: Vec<Answer>) -> (outcome: Result<(), QuizError>)
        ensures
            total_fraction(old(self).answers@ + answers@) < 100 ==> outcome is Err
                && outcome->Err_0@ == Failure::insufficient_fraction() && final(self).answers@
                == Seq::<Answer>::empty(),
            total_fraction(old(self).answers@ + answers@) >= 100 ==> outcome is Ok
                && final(self).answers@ == old(self).answers@ + answers@,
            final(self).well_formed(),
    {
        let mut answers = answers;
        self.answers.append(&mut answers);
        self.check_answer_fraction()
    }

    /// Writes the common part between all types of the question for provided XML writer.
    ///
    /// A question without answers is refused when its name and description
    /// have been written, and an answer that gives more than 100 when the
    /// answers in front of it have been written.
    fn to_xml(&self, writer: &mut XmlWriter) -> (outcome: Result<(), QuizError>)
        ensures
            outcome is Ok <==> self.failure() is None,
            outcome is Err ==> self.failure() == Some(outcome->Err_0@),
    {
        let ghost before = writer.events();
        let ghost parts = self.parts();
        proof {
            self.lemma_plan();
            lemma_sequence_start(parts, before);
        }
        let outcome = self.header_to_xml(writer);
        proof {
            lemma_sequence_step(parts, 0, before, writer.events(), outcome);
        }
        outcome?;
        let outcome = self.answers_to_xml(writer);
        proof {
            lemma_sequence_step(parts, 1, before, writer.events(), outcome);
        }
        outcome?;
        proof {
            lemma_sequence_end(parts, before, writer.events());
        }
        Ok(())
    }
}

/// What a multiple choice question holds besides its base.
pub struct MultiChoiceView {
    pub single: bool,
    pub shuffleanswers: bool,
    pub correctfeedback: Seq<char>,
    pub partiallycorrectfeedback: Seq<char>,
    pub incorrectfeedback: Seq<char>,
    pub answernumbering: Seq<char>,
}

/// Multiple choice question type.
#[derive(Debug, Clone)]
pub struct MultiChoiceQuestion {
    base: QuestionBase,
    pub single: bool,
    pub shuffleanswers: bool,  // Written as 1 or 0 in XML
    pub correctfeedback: String,
    pub partiallycorrectfeedback: String,
    pub incorrectfeedback: String,
    pub answernumbering: String,
}

impl View for MultiChoiceQuestion {
    type V = MultiChoiceView;

    closed spec fn view(&self) -> MultiChoiceView {
        MultiChoiceView {
            single: self.single,
            shuffleanswers: self.shuffleanswers,
            correctfeedback: self.correctfeedback@,
            partiallycorrectfeedback: self.partiallycorrectfeedback@,
            incorrectfeedback: self.incorrectfeedback@,
            answernumbering: self.answernumbering@,
        }
    }
}

/// The text that is given, or none.
pub open spec fn text_or_empty(text: Option<String>) -> Seq<char> {
    match text {
        Some(text) => text@,
        None => Seq::empty(),
    }
}

/// The text that is given, or an empty one.
fn string_or_default(text: Option<String>) -> (string: String)
    ensures
        string@ == text_or_empty(text),
{
    match text {
        Some(text) => text,
        None => String::new(),
    }
}

impl MultiChoiceQuestion {
    /// New must take all the required fields after base wrapped with Option<> so that I can use default when not provided.
    ///
    /// A question is to have a single right answer and shuffled answers
    /// unless something else is said, and its texts are empty where none is
    /// given.
    #[allow(clippy::too_many_arguments)]
    pub fn new(
        name: String,
        description: String,
        single: Option<bool>,
        shuffleanswers: Option<bool>,
        correctfeedback: Option<String>,
        partiallycorrectfeedback: Option<String>,
        incorrectfeedback: Option<String>,
        answernumbering: Option<String>,
    ) -> (question: Self)
        ensures
            question.base().name == name,
            question.base().description == description,
            question.base().question_text_format == TextFormat::HTML,
            question.base().answers@ == Seq::<Answer>::empty(),
            question@ == (MultiChoiceView {
                single: match single {
                    Some(single) => single,
                    None => true,
                },
                shuffleanswers: match shuffleanswers {
                    Some(shuffleanswers) => shuffleanswers,
                    None => true,
                },
                correctfeedback: text_or_empty(correctfeedback),
                partiallycorrectfeedback: text_or_empty(partiallycorrectfeedback),
                incorrectfeedback: text_or_empty(incorrectfeedback),
                answernumbering: text_or_empty(answernumbering),
            }),
            question.well_formed(),
    {
        Self {
            base: QuestionBase::new(name, description),
            single: single.unwrap_or(true),
            shuffleanswers: shuffleanswers.unwrap_or(true),
            correctfeedback: string_or_default(correctfeedback),
            partiallycorrectfeedback: string_or_default(partiallycorrectfeedback),
            incorrectfeedback: string_or_default(incorrectfeedback),
            answernumbering: string_or_default(answernumbering),
        }
    }

    /// The parts of a multiple choice question: the opening with the type
    /// `multichoice`, the common part, then `single` as a word,
    /// `shuffleanswers` as a digit, the three feedbacks and
    /// `answernumbering`, each in a scope of its own, and the closing.
    pub open spec fn parts(&self) -> Seq<Plan> {
        seq![
            Plan::event(question_start("multichoice"@)),
            self.base().plan(),
            value_scope_plan("single"@, flag_word(self@.single)),
            value_scope_plan("shuffleanswers"@, flag_digit(self@.shuffleanswers)),
            feedback_scope_plan("correctfeedback"@, self@.correctfeedback),
            feedback_scope_plan("partiallycorrectfeedback"@, self@.partiallycorrectfeedback),
            feedback_scope_plan("incorrectfeedback"@, self@.incorrectfeedback),
            value_scope_plan("answernumbering"@, self@.answernumbering),
            Plan::event(Event::End),
        ]
    }

    /// The question fails to be written exactly where
    /// its answers do. A question that has been written is one `question`
    /// scope, and the scopes in it are closed.
    pub proof fn lemma_plan(&self)
        ensures
            self.plan().failure == self.base().failure(),
            self.plan().scoped("question"@),
            self.plan().balanced(),
    {
        let parts = self.parts();
        self.base().lemma_plan();
        lemma_value_and_feedback_scope_plan("single"@, flag_word(self@.single));
        lemma_value_and_feedback_scope_plan("shuffleanswers"@, flag_digit(self@.shuffleanswers));
        lemma_value_and_feedback_scope_plan("correctfeedback"@, self@.correctfeedback);
        lemma_value_and_feedback_scope_plan(
            "partiallycorrectfeedback"@,
            self@.partiallycorrectfeedback,
        );
        lemma_value_and_feedback_scope_plan("incorrectfeedback"@, self@.incorrectfeedback);
        lemma_value_and_feedback_scope_plan("answernumbering"@, self@.answernumbering);
        lemma_sequence_failure(parts);
        if self.base().plan().failure is Some {
            lemma_sequence_first_failure(parts, 1);
        }
        let middle = parts.subrange(1, 8);
        assert(parts =~= seq![Plan::event(question_start("multichoice"@))] + middle + seq![
            Plan::event(Event::End),
        ]);
        lemma_scope_balanced(question_start("multichoice"@), middle);
    }
}

impl Question for MultiChoiceQuestion {
    closed spec fn base(&self) -> QuestionBase {
        self.base
    }

    open spec fn well_formed(&self) -> bool {
        self.base().well_formed()
    }

    open spec fn refusal(&self, answers: Seq<Answer>) -> Option<Failure> {
        self.base().refusal(answers)
    }

    open spec fn plan(&self) -> Plan {
        Plan::sequence(self.parts())
    }

    fn get_name(&self) -> (name: &str) {
        self.base.get_name()
    }

    fn get_description(&self) -> (description: &str) {
        self.base.get_description()
    }

    fn set_text_format(&mut self, format: TextFormat)
        ensures
            final(self)@ == old(self)@,
    {
        self.base.question_text_format = format;
    }

    /// Answers that give less than 100 together with those that the
    /// question has are refused, and the question is left without answers.
    /// Any others are taken.
    fn add_answers(&mut self, answers: Vec<Answer>) -> (outcome: Result<(), QuizError>)
        ensures
            total_fraction(old(self).base().answers@ + answers@) < 100 ==> outcome is Err
                && outcome->Err_0@ == Failure::insufficient_fraction()
                && final(self).base().answers@ == Seq::<Answer>::empty(),
            total_fraction(old(self).base().answers@ + answers@) >= 100 ==> outcome is Ok
                && final(self).base().answers@ == old(self).base().answers@ + answers@,
            final(self).well_formed(),
            final(self)@ == old(self)@,
    {
        self.base.add_answers(answers)
    }

    /// A question without answers is refused when its name and description
    /// have been written, and an answer that gives more than 100 when the
    /// answers in front of it have been written.
    fn to_xml(&self, writer: &mut XmlWriter) -> (outcome: Result<(), QuizError>)
        ensures
            outcome is Ok <==> self.base().failure() is None,
            outcome is Err ==> self.base().failure() == Some(outcome->Err_0@),
    {
        let ghost before = writer.events();
        let ghost parts = self.parts();
        proof {
            self.lemma_plan();
            lemma_sequence_start(parts, before);
        }
        // Start question tag
        let start = XmlEvent::start_element("question").attr("type", "multichoice");
        assert(start@->attributes =~= question_start("multichoice"@)->attributes);
        let outcome = writer.write(start);
        proof {
            lemma_sequence_step(parts, 0, before, writer.events(), outcome);
        }
        outcome?;
        // Write the common part of the question
        let outcome = self.base.to_xml(writer);
        proof {
            lemma_sequence_step(parts, 1, before, writer.events(), outcome);
        }
        outcome?;
        let outcome = write_value_scope(writer, "single", flag_word_str(self.single));
        proof {
            lemma_sequence_step(parts, 2, before, writer.events(), outcome);
        }
        outcome?;
        let outcome = write_value_scope(
            writer,
            "shuffleanswers",
            flag_digit_str(self.shuffleanswers),
        );
        proof {
            lemma_sequence_step(parts, 3, before, writer.events(), outcome);
        }
        outcome?;
        let outcome = write_feedback_scope(
            writer,
            "correctfeedback",
            self.correctfeedback.as_str(),
        );
        proof {
            lemma_sequence_step(parts, 4, before, writer.events(), outcome);
        }
        outcome?;
        let outcome = write_feedback_scope(
            writer,
            "partiallycorrectfeedback",
            self.partiallycorrectfeedback.as_str(),
        );
        proof {
            lemma_sequence_step(parts, 5, before, writer.events(), outcome);
        }
        outcome?;
        let outcome = write_feedback_scope(
            writer,
            "incorrectfeedback",
            self.incorrectfeedback.as_str(),
        );
        proof {
            lemma_sequence_step(parts, 6, before, writer.events(), outcome);
        }
        outcome?;
        let outcome = write_value_scope(writer, "answernumbering", self.answernumbering.as_str());
        proof {
            lemma_sequence_step(parts, 7, before, writer.events(), outcome);
        }
        outcome?;
        // End question tag
        let outcome = writer.write(XmlEvent::EndElement);
        proof {
            lemma_sequence_step(parts, 8, before, writer.events(), outcome);
        }
        outcome?;
        proof {
            lemma_sequence_end(parts, before, writer.events());
        }
        Ok(())
    }
}

/// True/false question type: it takes its answers two at a time, one for
/// true and one for false.
#[derive(Debug, Clone)]
pub struct TrueFalseQuestion {
    base: QuestionBase,
}

/// One of the two fractions is 100 and the other is 0.
pub open spec fn true_false_pair(first: u8, second: u8) -> bool {
    (first == 100 && second == 0) || (first == 0 && second == 100)
}

impl TrueFalseQuestion {
    pub fn new(name: String, description: String) -> (question: Self)
        ensures
            question.base().name == name,
            question.base().description == description,
            question.base().question_text_format == TextFormat::HTML,
            question.base().answers@ == Seq::<Answer>::empty(),
            question.well_formed(),
    {
        Self { base: QuestionBase::new(name, description) }
    }

    /// The parts of a true/false question: the opening with the type
    /// `truefalse`, the common part and the closing.
    pub open spec fn parts(&self) -> Seq<Plan> {
        seq![
            Plan::event(question_start("truefalse"@)),
            self.base().plan(),
            Plan::event(Event::End),
        ]
    }

    /// The question fails to be written exactly where
    /// its answers do. A question that has been written is one `question`
    /// scope, and the scopes in it are closed.
    pub proof fn lemma_plan(&self)
        ensures
            self.plan().failure == self.base().failure(),
            self.plan().scoped("question"@),
            self.plan().balanced(),
    {
        let parts = self.parts();
        self.base().lemma_plan();
        lemma_sequence_failure(parts);
        if self.base().plan().failure is Some {
            lemma_sequence_first_failure(parts, 1);
        }
        let middle = seq![self.base().plan()];
        assert(parts =~= seq![Plan::event(question_start("truefalse"@))] + middle + seq![
            Plan::event(Event::End),
        ]);
        lemma_scope_balanced(question_start("truefalse"@), middle);
    }
}

impl Question for TrueFalseQuestion {
    closed spec fn base(&self) -> QuestionBase {
        self.base
    }

    open spec fn well_formed(&self) -> bool {
        self.base().well_formed()
    }

    /// Answers are refused unless they are two, one of 100 and one of 0.
    open spec fn refusal(&self, answers: Seq<Answer>) -> Option<Failure> {
        if answers.len() != 2 {
            Some(Failure::true_false_count())
        } else if !true_false_pair(answers[0].fraction, answers[1].fraction) {
            Some(Failure::true_false_fractions())
        } else {
            None
        }
    }

    open spec fn plan(&self) -> Plan {
        Plan::sequence(self.parts())
    }

    fn get_name(&self) -> (name: &str) {
        self.base.get_name()
    }

    fn get_description(&self) -> (description: &str) {
        self.base.get_description()
    }

    fn set_text_format(&mut self, format: TextFormat) {
        self.base.question_text_format = format;
    }

    /// The answers are taken if and only if they are two, one of 100 and
    /// one of 0 in either order. Where they are refused, the question is as
    /// before.
    fn add_answers(&mut self, answers: Vec<Answer>) -> (outcome: Result<(), QuizError>)
        ensures
            outcome is Ok <==> answers@.len() == 2 && true_false_pair(
                answers@[0].fraction,
                answers@[1].fraction,
            ),
            outcome is Ok ==> final(self).base().answers@ == old(self).base().answers@ + answers@,
            outcome is Err ==> *final(self) == *old(self),
            outcome is Err ==> outcome->Err_0@ == if answers@.len() != 2 {
                Failure::true_false_count()
            } else {
                Failure::true_false_fractions()
            },
    {
        if answers.len() != 2 {
            return Err(
                QuizError::AnswerCountError(
                    "True/False questions must have exactly 2 answers".to_string(),
                ),
            );
        }
        let first = answers[0].fraction;
        let second = answers[1].fraction;
        if !((first == 100 && second == 0) || (second == 100 && first == 0)) {
            return Err(
                QuizError::AnswerFractionError(
                    "Only fractions 100 and 0 are allowed in True/False questions".to_string(),
                ),
            );
        }
        proof {
            let one = answers@.drop_last();
            assert(one.drop_last() =~= Seq::<Answer>::empty());
            assert(total_fraction(one.drop_last()) == 0);
            assert(total_fraction(one) == first);
            assert(total_fraction(answers@) == 100);
            lemma_total_fraction_concat(self.base.answers@, answers@);
        }
        self.base.add_answers(answers)
    }

    /// A question without answers is refused when its name and description
    /// have been written, and an answer that gives more than 100 when the
    /// answers in front of it have been written.
    fn to_xml(&self, writer: &mut XmlWriter) -> (outcome: Result<(), QuizError>)
        ensures
            outcome is Ok <==> self.base().failure() is None,
            outcome is Err ==> self.base().failure() == Some(outcome->Err_0@),
    {
        let ghost before = writer.events();
        let ghost parts = self.parts();
        proof {
            self.lemma_plan();
            lemma_sequence_start(parts, before);
        }
        // Start question tag
        let start = XmlEvent::start_element("question").attr("type", "truefalse");
        assert(start@->attributes =~= question_start("truefalse"@)->attributes);
        let outcome = writer.write(start);
        proof {
            lemma_sequence_step(parts, 0, before, writer.events(), outcome);
        }
        outcome?;
        // Write the common part of the question
        let outcome = self.base.to_xml(writer);
        proof {
            lemma_sequence_step(parts, 1, before, writer.events(), outcome);
        }
        outcome?;
        // End question tag
        let outcome = writer.write(XmlEvent::EndElement);
        proof {
            lemma_sequence_step(parts, 2, before, writer.events(), outcome);
        }
        outcome?;
        proof {
            lemma_sequence_end(parts, before, writer.events());
        }
        Ok(())
    }
}

/// Short answer question type.
#[derive(Debug, Clone)]
pub struct ShortAnswerQuestion {
    base: QuestionBase,
    // The <usecase> tag toggles case-sensitivity with the values 1/0.
    pub usecase: bool,
}

impl ShortAnswerQuestion {
    /// Whether the case of an answer counts.
    pub closed spec fn usecase_view(&self) -> bool {
        self.usecase
    }

    /// The case of an answer does not count unless something else is said.
    pub fn new(name: String, description: String, usecase: Option<bool>) -> (question: Self)
        ensures
            question.base().name == name,
            question.base().description == description,
            question.base().question_text_format == TextFormat::HTML,
            question.base().answers@ == Seq::<Answer>::empty(),
            question.usecase_view() == match usecase {
                Some(usecase) => usecase,
                None => false,
            },
            question.well_formed(),
    {
        Self { base: QuestionBase::new(name, description), usecase: usecase.unwrap_or(false) }
    }

    /// The parts of a short answer question: the opening with the type
    /// `shortanswer`, the common part, `usecase` as a digit in a scope of
    /// its own, and the closing.
    pub open spec fn parts(&self) -> Seq<Plan> {
        seq![
            Plan::event(question_start("shortanswer"@)),
            self.base().plan(),
            value_scope_plan("usecase"@, flag_digit(self.usecase_view())),
            Plan::event(Event::End),
        ]
    }

    /// The question fails to be written exactly where
    /// its answers do. A question that has been written is one `question`
    /// scope, and the scopes in it are closed.
    pub proof fn lemma_plan(&self)
        ensures
            self.plan().failure == self.base().failure(),
            self.plan().scoped("question"@),
            self.plan().balanced(),
    {
        let parts = self.parts();
        self.base().lemma_plan();
        lemma_value_and_feedback_scope_plan("usecase"@, flag_digit(self.usecase_view()));
        lemma_sequence_failure(parts);
        if self.base().plan().failure is Some {
            lemma_sequence_first_failure(parts, 1);
        }
        let middle = parts.subrange(1, 3);
        assert(parts =~= seq![Plan::event(question_start("shortanswer"@))] + middle + seq![
            Plan::event(Event::End),
        ]);
        lemma_scope_balanced(question_start("shortanswer"@), middle);
    }
}

impl Question for ShortAnswerQuestion {
    closed spec fn base(&self) -> QuestionBase {
        self.base
    }

    open spec fn well_formed(&self) -> bool {
        self.base().well_formed()
    }

    open spec fn refusal(&self, answers: Seq<Answer>) -> Option<Failure> {
        self.base().refusal(answers)
    }

    open spec fn plan(&self) -> Plan {
        Plan::sequence(self.parts())
    }

    fn get_name(&self) -> (name: &str) {
        self.base.get_name()
    }

    fn get_description(&self) -> (description: &str) {
        self.base.get_description()
    }

    fn set_text_format(&mut self, format: TextFormat)
        ensures
            final(self).usecase_view() == old(self).usecase_view(),
    {
        self.base.question_text_format = format;
    }

    /// Answers that give less than 100 together with those that the
    /// question has are refused, and the question is left without answers.
    /// Any others are taken.
    fn add_answers(&mut self, answers: Vec<Answer>) -> (outcome: Result<(), QuizError>)
        ensures
            total_fraction(old(self).base().answers@ + answers@) < 100 ==> outcome is Err
                && outcome->Err_0@ == Failure::insufficient_fraction()
                && final(self).base().answers@ == Seq::<Answer>::empty(),
            total_fraction(old(self).base().answers@ + answers@) >= 100 ==> outcome is Ok
                && final(self).base().answers@ == old(self).base().answers@ + answers@,
            final(self).well_formed(),
            final(self).usecase_view() == old(self).usecase_view(),
    {
        self.base.add_answers(answers)
    }

    /// A question without answers is refused when its name and description
    /// have been written, and an answer that gives more than 100 when the
    /// answers in front of it have been written.
    fn to_xml(&self, writer: &mut XmlWriter) -> (outcome: Result<(), QuizError>)
        ensures
            outcome is Ok <==> self.base().failure() is None,
            outcome is Err ==> self.base().failure() == Some(outcome->Err_0@),
    {
        let ghost before = writer.events();
        let ghost parts = self.parts();
        proof {
            self.lemma_plan();
            lemma_sequence_start(parts, before);
        }
        // Start question tag
        let start = XmlEvent::start_element("question").attr("type", "shortanswer");
        assert(start@->attributes =~= question_start("shortanswer"@)->attributes);
        let outcome = writer.write(start);
        proof {
            lemma_sequence_step(parts, 0, before, writer.events(), outcome);
        }
        outcome?;
        // Write the common part of the question
        let outcome = self.base.to_xml(writer);
        proof {
            lemma_sequence_step(parts, 1, before, writer.events(), outcome);
        }
        outcome?;
        let outcome = write_value_scope(writer, "usecase", flag_digit_str(self.usecase));
        proof {
            lemma_sequence_step(parts, 2, before, writer.events(), outcome);
        }
        outcome?;
        // End question tag
        let outcome = writer.write(XmlEvent::EndElement);
        proof {
            lemma_sequence_step(parts, 3, before, writer.events(), outcome);
        }
        outcome?;
        proof {
            lemma_sequence_end(parts, before, writer.events());
        }
        Ok(())
    }
}

/// Essay question type: it has no answers, and is written without any.
#[derive(Debug, Clone)]
pub struct EssayQuestion {
    base: QuestionBase,
}

impl EssayQuestion {
    pub fn new(name: String, description: String) -> (question: Self)
        ensures
            question.base().name == name,
            question.base().description == description,
            question.base().question_text_format == TextFormat::HTML,
            question.well_formed(),
    {
        Self { base: QuestionBase::new(name, description) }
    }

    /// The parts of an essay question: the opening with the type `essay`,
    /// the name and the description, and the closing.
    pub open spec fn parts(&self) -> Seq<Plan> {
        seq![
            Plan::event(question_start("essay"@)),
            self.base().header_plan(),
            Plan::event(Event::End),
        ]
    }

    /// An essay question never fails. A question that
    /// has been written is one `question` scope, and the scopes in it are
    /// closed.
    pub proof fn lemma_plan(&self)
        ensures
            self.plan().failure is None,
            self.plan().scoped("question"@),
            self.plan().balanced(),
    {
        let parts = self.parts();
        self.base().lemma_header_plan();
        lemma_sequence_failure(parts);
        let middle = seq![self.base().header_plan()];
        assert(parts =~= seq![Plan::event(question_start("essay"@))] + middle + seq![
            Plan::event(Event::End),
        ]);
        lemma_scope_balanced(question_start("essay"@), middle);
    }
}

impl Question for EssayQuestion {
    closed spec fn base(&self) -> QuestionBase {
        self.base
    }

    /// An essay question has no answers.
    open spec fn well_formed(&self) -> bool {
        self.base().answers@ == Seq::<Answer>::empty()
    }

    /// Any answers are refused.
    open spec fn refusal(&self, answers: Seq<Answer>) -> Option<Failure> {
        if answers.len() > 0 {
            Some(Failure::essay_count())
        } else {
            None
        }
    }

    open spec fn plan(&self) -> Plan {
        Plan::sequence(self.parts())
    }

    fn get_name(&self) -> (name: &str) {
        self.base.get_name()
    }

    fn get_description(&self) -> (description: &str) {
        self.base.get_description()
    }

    fn set_text_format(&mut self, format: TextFormat) {
        self.base.question_text_format = format;
    }

    /// No answers are taken where none are given, and any are refused. The
    /// question is as before either way.
    fn add_answers(&mut self, answers: Vec<Answer>) -> (outcome: Result<(), QuizError>)
        ensures
            outcome is Ok <==> answers@.len() == 0,
            outcome is Err ==> outcome->Err_0@ == Failure::essay_count(),
            *final(self) == *old(self),
    {
        if !answers.is_empty() {
            return Err(
                QuizError::AnswerCountError(
                    "Essay questions must not have any answers".to_string(),
                ),
            );
        }
        proof {
            assert(self.base.answers@ + answers@ =~= self.base.answers@);
        }
        Ok(())
    }

    fn to_xml(&self, writer: &mut XmlWriter) -> (outcome: Result<(), QuizError>)
        ensures
            outcome is Ok,
    {
        let ghost before = writer.events();
        let ghost parts = self.parts();
        proof {
            self.lemma_plan();
            lemma_sequence_start(parts, before);
        }
        // Start question tag
        let start = XmlEvent::start_element("question").attr("type", "essay");
        assert(start@->attributes =~= question_start("essay"@)->attributes);
        let outcome = writer.write(start);
        proof {
            lemma_sequence_step(parts, 0, before, writer.events(), outcome);
        }
        outcome?;
        // Write the name and the description of the question
        let outcome = self.base.header_to_xml(writer);
        proof {
            lemma_sequence_step(parts, 1, before, writer.events(), outcome);
        }
        outcome?;
        // End question tag
        let outcome = writer.write(XmlEvent::EndElement);
        proof {
            lemma_sequence_step(parts, 2, before, writer.events(), outcome);
        }
        outcome?;
        proof {
            lemma_sequence_end(parts, before, writer.events());
        }
        Ok(())
    }
}

/// Represents the different types of questions that can be included in a quiz.
///
/// - `Multichoice`: A multiple-choice question with several answer options.
/// - `TrueFalse`: A true/false question.
/// - `ShortAnswer`: A short-answer question.
/// - `Essay`: An essay question.
pub enum QuestionType {
    Multichoice(MultiChoiceQuestion),
    TrueFalse(TrueFalseQuestion),
    ShortAnswer(ShortAnswerQuestion),
    Essay(EssayQuestion),
}

impl QuestionType {
    /// What the writing of the question attempts: the plan of the question
    /// that it holds.
    pub open spec fn plan(&self) -> Plan {
        match self {
            QuestionType::Multichoice(q) => q.plan(),
            QuestionType::TrueFalse(q) => q.plan(),
            QuestionType::ShortAnswer(q) => q.plan(),
            QuestionType::Essay(q) => q.plan(),
        }
    }

    /// The fields that all question types share.
    pub open spec fn base(&self) -> QuestionBase {
        match self {
            QuestionType::Multichoice(q) => q.base(),
            QuestionType::TrueFalse(q) => q.base(),
            QuestionType::ShortAnswer(q) => q.base(),
            QuestionType::Essay(q) => q.base(),
        }
    }

    /// The failure with which the question is refused when it is written,
    /// if it is: none for an essay, and that of its answers for any other
    /// question.
    pub open spec fn failure(&self) -> Option<Failure> {
        match self {
            QuestionType::Essay(_) => None,
            _ => self.base().failure(),
        }
    }

    /// A question fails to be written exactly where
    /// [`QuestionType::failure`] says so. A question that has been written
    /// is one `question` scope, and the scopes in it are closed.
    pub proof fn lemma_plan(&self)
        ensures
            self.plan().failure == self.failure(),
            self.plan().scoped("question"@),
            self.plan().balanced(),
    {
        match self {
            QuestionType::Multichoice(q) => q.lemma_plan(),
            QuestionType::TrueFalse(q) => q.lemma_plan(),
            QuestionType::ShortAnswer(q) => q.lemma_plan(),
            QuestionType::Essay(q) => q.lemma_plan(),
        }
    }

    /// Writes the question that it holds.
    pub fn to_xml(&self, writer: &mut XmlWriter) -> (outcome: Result<(), QuizError>)
        ensures
            self.plan().carried_out(*old(writer), *final(writer), outcome),
            outcome is Ok <==> self.failure() is None,
            outcome is Err ==> self.failure() == Some(outcome->Err_0@),
    {
        proof {
            self.lemma_plan();
        }
        match self {
            QuestionType::Multichoice(q) => q.to_xml(writer),
            QuestionType::TrueFalse(q) => q.to_xml(writer),
            QuestionType::ShortAnswer(q) => q.to_xml(writer),
            QuestionType::Essay(q) => q.to_xml(writer),
        }
    }
}

} // verus!
