//! The quiz, its categories, and the errors of the library.

use vstd::prelude::*;
use vstd::std_specs::convert::FromSpecImpl;
use crate::event::{is_scope, lemma_well_nested_empty, well_nested, Event, XmlEvent};
use crate::plan::{
    lemma_scope_balanced,
    lemma_sequence_balanced,
    lemma_sequence_end,
    lemma_sequence_failure,
    lemma_sequence_first_failure,
    lemma_sequence_start,
    lemma_sequence_step,
    Plan,
};
use crate::question::{question_start, QuestionType};
use crate::writer::XmlWriter;
use crate::xml_util::{
    lemma_named_formatted_scope_plan,
    lemma_text_tag_plan,
    named_formatted_scope_plan,
    plain_start,
    text_tag_plan,
    write_named_formatted_scope,
    write_text_tag,
};

verus! {

/// What a [`QuizError`] says: its variant and its message, without the
/// writer's own error value.
pub enum Failure {
    /// The XML writer refused an event.
    Writer,
    Empty(Seq<char>),
    Value(Seq<char>),
    AnswerFraction(Seq<char>),
    AnswerCount(Seq<char>),
}

impl Failure {
    /// A quiz without questions cannot be written.
    pub open spec fn no_questions() -> Failure {
        Failure::Empty("Quiz questions or answer is empty"@)
    }

    /// A question without answers cannot be written.
    pub open spec fn no_answers() -> Failure {
        Failure::Empty("Quiz questions or answer is empty"@)
    }

    /// An answer gives more than 100 percent.
    pub open spec fn invalid_fraction() -> Failure {
        Failure::AnswerFraction("Answer fraction is larger than 100"@)
    }

    /// The answers of a question give less than 100 percent together.
    pub open spec fn insufficient_fraction() -> Failure {
        Failure::AnswerFraction("The total fraction of answers must be at least 100"@)
    }

    /// A true/false question was given other than two answers.
    pub open spec fn true_false_count() -> Failure {
        Failure::AnswerCount("True/False questions must have exactly 2 answers"@)
    }

    /// The two answers of a true/false question are not one of 100 and one of 0.
    pub open spec fn true_false_fractions() -> Failure {
        Failure::AnswerFraction("Only fractions 100 and 0 are allowed in True/False questions"@)
    }

    /// An essay question was given answers.
    pub open spec fn essay_count() -> Failure {
        Failure::AnswerCount("Essay questions must not have any answers"@)
    }
}

/// Error type for Quiz, Question and Answer.
///
/// - `XMLWriterError`: the XML writer failed; its error is handed on unchanged.
/// - `EmptyError`: a quiz has no questions, or a question has no answers.
/// - `ValueError`: a value is outside of its limits.
/// - `AnswerFractionError`: an answer gives more than 100 percent, the
///   answers of a question give less than 100 percent together, or the two
///   answers of a true/false question are not one of 100 and one of 0.
/// - `AnswerCountError`: the number of answers is not the one the kind of
///   question asks for.
#[derive(Debug)]
pub enum QuizError {
    XMLWriterError(xml::writer::Error),
    EmptyError(String),
    ValueError(String),
    AnswerFractionError(String),
    AnswerCountError(String),
}

impl View for QuizError {
    type V = Failure;

    open spec fn view(&self) -> Failure {
        match self {
            QuizError::XMLWriterError(_) => Failure::Writer,
            QuizError::EmptyError(message) => Failure::Empty(message@),
            QuizError::ValueError(message) => Failure::Value(message@),
            QuizError::AnswerFractionError(message) => Failure::AnswerFraction(message@),
            QuizError::AnswerCountError(message) => Failure::AnswerCount(message@),
        }
    }
}

impl FromSpecImpl<xml::writer::Error> for QuizError {
    open spec fn obeys_from_spec() -> bool {
        true
    }

    open spec fn from_spec(e: xml::writer::Error) -> QuizError {
        QuizError::XMLWriterError(e)
    }
}

impl From<xml::writer::Error> for QuizError {
    fn from(e: xml::writer::Error) -> (error: QuizError) {
        QuizError::XMLWriterError(e)
    }
}

/// A quiz has no questions, or a question has no answers.
#[derive(Debug)]
pub struct EmptyError;

impl EmptyError {
    /// The message of the error.
    pub fn to_string(&self) -> (message: String)
        ensures
            message@ == "Quiz questions or answer is empty"@,
    {
        "Quiz questions or answer is empty".to_string()
    }
}

/// What the conversion gives is said by the contract of `from`.
impl FromSpecImpl<EmptyError> for QuizError {
    open spec fn obeys_from_spec() -> bool {
        false
    }

    open spec fn from_spec(e: EmptyError) -> QuizError {
        arbitrary()
    }
}

impl From<EmptyError> for QuizError {
    fn from(e: EmptyError) -> (error: QuizError)
        ensures
            error@ == Failure::Empty("Quiz questions or answer is empty"@),
    {
        QuizError::EmptyError(e.to_string())
    }
}

/// A value is outside of its limits.
#[derive(Debug)]
pub struct ValueError;

impl ValueError {
    /// The message of the error.
    pub fn to_string(&self) -> (message: String)
        ensures
            message@ == "Answer type has value outside of limits"@,
    {
        "Answer type has value outside of limits".to_string()
    }
}

/// What the conversion gives is said by the contract of `from`.
impl FromSpecImpl<ValueError> for QuizError {
    open spec fn obeys_from_spec() -> bool {
        false
    }

    open spec fn from_spec(e: ValueError) -> QuizError {
        arbitrary()
    }
}

impl From<ValueError> for QuizError {
    fn from(e: ValueError) -> (error: QuizError)
        ensures
            error@ == Failure::Value("Answer type has value outside of limits"@),
    {
        QuizError::ValueError(e.to_string())
    }
}

/// A category for the quiz, can be used to categorize questions.
/// A string type is used to represent the category.
///
/// Any string is taken as the label of a category, and an empty label is
/// written like any other.
#[derive(Debug, Clone)]
pub struct Category(String);

impl View for Category {
    type V = Seq<char>;

    /// The label of the category.
    closed spec fn view(&self) -> Seq<char> {
        self.0@
    }
}

impl core::ops::Deref for Category {
    type Target = String;

    fn deref(&self) -> (label: &String)
        ensures
            label@ == self@,
    {
        &self.0
    }
}

/// What the conversion gives is said by the contract of `from`.
impl FromSpecImpl<String> for Category {
    open spec fn obeys_from_spec() -> bool {
        false
    }

    open spec fn from_spec(s: String) -> Category {
        arbitrary()
    }
}

impl From<String> for Category {
    fn from(s: String) -> (category: Category)
        ensures
            category@ == s@,
    {
        Category(s)
    }
}

/// What the conversion gives is said by the contract of `from`.
impl<'a> FromSpecImpl<&'a str> for Category {
    open spec fn obeys_from_spec() -> bool {
        false
    }

    open spec fn from_spec(s: &'a str) -> Category {
        arbitrary()
    }
}

impl<'a> From<&'a str> for Category {
    fn from(s: &'a str) -> (category: Category)
        ensures
            category@ == s@,
    {
        Category(s.to_string())
    }
}

/// What the conversion gives is said by the contract of `from`.
impl FromSpecImpl<Category> for Vec<Category> {
    open spec fn obeys_from_spec() -> bool {
        false
    }

    open spec fn from_spec(category: Category) -> Vec<Category> {
        arbitrary()
    }
}

impl From<Category> for Vec<Category> {
    /// The category alone.
    fn from(category: Category) -> (categories: Vec<Category>)
        ensures
            categories@ == seq![category],
    {
        vec![category]
    }
}

/// The text by which a category is named in a document: the label behind
/// `$course$/` and in front of a slash.
pub open spec fn category_path(label: Seq<char>) -> Seq<char> {
    "$course$/"@ + label + "/"@
}

/// The parts of the question that stands for a category: a `question` scope
/// of the type `category` around a `category` scope around a `text` scope
/// with the path of the category.
pub open spec fn category_parts(label: Seq<char>) -> Seq<Plan> {
    seq![
        Plan::event(question_start("category"@)),
        named_formatted_scope_plan("category"@, None, text_tag_plan(category_path(label), false)),
        Plan::event(Event::End),
    ]
}

/// What is written for a category.
pub open spec fn category_plan(label: Seq<char>) -> Plan {
    Plan::sequence(category_parts(label))
}

/// What is written for the categories of a quiz: each category in order.
pub open spec fn category_plans(categories: Seq<Category>) -> Seq<Plan> {
    Seq::new(categories.len(), |i: int| category_plan(categories[i]@))
}

/// What is written for the categories of a quiz, if it has any.
pub open spec fn categories_plan(categories: Option<Seq<Category>>) -> Plan {
    match categories {
        Some(categories) => Plan::sequence(category_plans(categories)),
        None => Plan::nothing(),
    }
}

/// The plans of some questions, one for each.
pub open spec fn question_plans(questions: Seq<QuestionType>) -> Seq<Plan> {
    Seq::new(questions.len(), |i: int| questions[i].plan())
}

/// The failure of the first of the questions that is refused when it is
/// written, if one is.
pub open spec fn first_failure(questions: Seq<QuestionType>) -> Option<Failure>
    decreases questions.len(),
{
    if questions.len() == 0 {
        None
    } else {
        match first_failure(questions.drop_last()) {
            Some(failure) => Some(failure),
            None => questions.last().failure(),
        }
    }
}

/// The questions of a quiz fail to be written exactly
/// where one of them is refused, and with the failure of the first that is.
/// Their scopes are closed when they have been written.
pub proof fn lemma_questions_plan(questions: Seq<QuestionType>)
    ensures
        Plan::sequence(question_plans(questions)).failure == first_failure(questions),
        first_failure(questions) is None <==> forall|i: int|
            0 <= i < questions.len() ==> (#[trigger] questions[i]).failure() is None,
        Plan::sequence(question_plans(questions)).balanced(),
    decreases questions.len(),
{
    let plans = question_plans(questions);
    assert forall|i: int| 0 <= i < plans.len() implies (#[trigger] plans[i]).balanced()
        && plans[i].failure == questions[i].failure() by {
        questions[i].lemma_plan();
    }
    lemma_sequence_balanced(plans);
    if questions.len() > 0 {
        let front = questions.drop_last();
        lemma_questions_plan(front);
        assert(plans.drop_last() =~= question_plans(front));
        if first_failure(questions) is None {
            assert forall|i: int| 0 <= i < questions.len() implies (
            #[trigger] questions[i]).failure() is None by {
                if i < front.len() {
                    assert(front[i] == questions[i]);
                }
            }
        } else if first_failure(front) is Some {
            let i = choose|i: int| 0 <= i < front.len() && (#[trigger] front[i]).failure() is Some;
            assert(questions[i] == front[i]);
        } else {
            assert(questions[questions.len() - 1].failure() is Some);
        }
    }
}

/// A category never fails. A category that has been
/// written is one `question` scope, and the scopes in it are closed.
pub proof fn lemma_category_plan(label: Seq<char>)
    ensures
        category_plan(label).failure is None,
        category_plan(label).scoped("question"@),
        category_plan(label).balanced(),
{
    let parts = category_parts(label);
    let text = text_tag_plan(category_path(label), false);
    lemma_text_tag_plan(category_path(label), false);
    lemma_named_formatted_scope_plan("category"@, None, text);
    lemma_sequence_failure(parts);
    let middle = seq![named_formatted_scope_plan("category"@, None, text)];
    assert(parts =~= seq![Plan::event(question_start("category"@))] + middle + seq![
        Plan::event(Event::End),
    ]);
    lemma_scope_balanced(question_start("category"@), middle);
}

/// Writes the question that stands for a category.
fn category_to_xml(category: &Category, writer: &mut XmlWriter) -> (outcome: Result<
    (),
    QuizError,
>)
    ensures
        category_plan(category@).carried_out(*old(writer), *final(writer), outcome),
        outcome is Ok,
{
    let ghost before = writer.events();
    let ghost parts = category_parts(category@);
    proof {
        lemma_category_plan(category@);
        lemma_sequence_start(parts, before);
    }
    let start = XmlEvent::start_element("question").attr("type", "category");
    assert(start@->attributes =~= question_start("category"@)->attributes);
    let outcome = writer.write(start);
    proof {
        lemma_sequence_step(parts, 0, before, writer.events(), outcome);
    }
    outcome?;
    let mut string = String::from_str("$course$/");
    string.append(category.as_str());
    string.append("/");
    let text = |w: &mut XmlWriter| -> (inner: Result<(), QuizError>)
        ensures
            text_tag_plan(string@, false).carried_out(*old(w), *final(w), inner)
        {
            write_text_tag(w, string.as_str(), false)
        };
    let outcome = write_named_formatted_scope(writer, "category", None, text);
    proof {
        lemma_sequence_step(parts, 1, before, writer.events(), outcome);
    }
    outcome?;
    let outcome = writer.write(XmlEvent::EndElement);
    proof {
        lemma_sequence_step(parts, 2, before, writer.events(), outcome);
    }
    outcome?;
    proof {
        lemma_sequence_end(parts, before, writer.events());
    }
    Ok(())
}

/// A quiz: its questions in order, and the categories that they are filed
/// under, if any.
pub struct Quiz {
    /// A vector of questions, can be any type of a question
    questions: Vec<QuestionType>,
    categories: Option<Vec<Category>>,
}

impl Quiz {
    /// The questions of the quiz, in order.
    pub closed spec fn questions_view(&self) -> Seq<QuestionType> {
        self.questions@
    }

    /// The categories of the quiz, in order, if any were set.
    pub closed spec fn categories_view(&self) -> Option<Seq<Category>> {
        match self.categories {
            Some(categories) => Some(categories@),
            None => None,
        }
    }

    /// Creates a new quiz instance with the specified questions and without categories.
    /// Categories are not mandatory.
    /// See [Moodle XML format](https://docs.moodle.org/404/en/Moodle_XML_format) for more information.
    /// Category entry is appended after `$course$/` mark.
    pub fn new(questions: Vec<QuestionType>) -> (quiz: Self)
        ensures
            quiz.questions_view() == questions@,
            quiz.categories_view() is None,
    {
        Self { questions, categories: None }
    }

    /// Adds categories to the quiz.
    pub fn set_categories(&mut self, categories: Vec<Category>)
        ensures
            final(self).questions_view() == old(self).questions_view(),
            final(self).categories_view() == Some(categories@),
    {
        self.categories = Some(categories);
    }

    /// The questions of the quiz.
    pub fn questions(&self) -> (questions: &Vec<QuestionType>)
        ensures
            questions@ == self.questions_view(),
    {
        &self.questions
    }

    /// The parts of a quiz that has a question: the opening of the `quiz`
    /// scope, the categories, the questions and the closing.
    pub open spec fn parts(&self) -> Seq<Plan> {
        seq![
            Plan::event(plain_start("quiz"@)),
            categories_plan(self.categories_view()),
            Plan::sequence(question_plans(self.questions_view())),
            Plan::event(Event::End),
        ]
    }

    /// What [`Quiz::to_xml`] attempts: nothing but a failure where the quiz
    /// has no question, and the parts of the quiz in order where it has
    /// one.
    pub open spec fn plan(&self) -> Plan {
        if self.questions_view().len() == 0 {
            Plan::fails(Failure::no_questions())
        } else {
            Plan::sequence(self.parts())
        }
    }

    /// The failure with which the quiz is refused when it is written, if it
    /// is: a quiz must have a question, and none of its questions may be
    /// refused.
    pub open spec fn failure(&self) -> Option<Failure> {
        if self.questions_view().len() == 0 {
            Some(Failure::no_questions())
        } else {
            first_failure(self.questions_view())
        }
    }

    /// A quiz fails to be written exactly where
    /// [`Quiz::failure`] says so. The document of a quiz that was written
    /// is one `quiz` scope: every scope that is opened in it is closed
    /// again, and the nesting depth is zero at the end.
    pub proof fn lemma_plan(&self)
        ensures
            self.plan().failure == self.failure(),
            self.plan().scoped("quiz"@),
            self.plan().balanced(),
    {
        let parts = self.parts();
        lemma_questions_plan(self.questions_view());
        match self.categories_view() {
            Some(categories) => {
                let plans = category_plans(categories);
                assert forall|i: int| 0 <= i < plans.len() implies (#[trigger] plans[i]).balanced()
                    && plans[i].failure is None by {
                    lemma_category_plan(categories[i]@);
                }
                lemma_sequence_balanced(plans);
                lemma_sequence_failure(plans);
            },
            None => {
                lemma_well_nested_empty();
            },
        }
        lemma_sequence_failure(parts);
        if parts[2].failure is Some {
            lemma_sequence_first_failure(parts, 2);
        }
        let middle = parts.subrange(1, 3);
        assert(parts =~= seq![Plan::event(plain_start("quiz"@))] + middle + seq![
            Plan::event(Event::End),
        ]);
        lemma_scope_balanced(plain_start("quiz"@), middle);
    }

    /// Writes the categories of the quiz, each as a question of its own.
    fn categories_to_xml(&self, writer: &mut XmlWriter) -> (outcome: Result<(), QuizError>)
        ensures
            categories_plan(self.categories_view()).carried_out(*old(writer), *final(writer), outcome),
    {
        let ghost before = writer.events();
        if let Some(categories) = self.categories.as_ref() {
            let ghost plans = category_plans(categories@);
            proof {
                lemma_sequence_start(plans, before);
            }
            let mut i: usize = 0;
            while i < categories.len()
                invariant
                    i <= categories.len(),
                    before == old(writer).events(),
                writer.open() == old(writer).open(),
                old(writer).bytes().is_prefix_of(writer.bytes()),
                    self.categories_view() == Some(categories@),
                    plans == category_plans(categories@),
                    Plan::sequence(plans.take(i as int)).failure is None,
                    writer.events() == before + Plan::sequence(plans.take(i as int)).events,
                decreases categories.len() - i,
            {
                let outcome = category_to_xml(&categories[i], writer);
                proof {
                    lemma_sequence_step(plans, i as int, before, writer.events(), outcome);
                }
                outcome?;
                i += 1;
            }
            proof {
                lemma_sequence_end(plans, before, writer.events());
            }
        } else {
            proof {
                assert(before + Seq::<Event>::empty() =~= before);
            }
        }
        Ok(())
    }

    /// Writes the questions of the quiz in order.
    fn questions_to_xml(&self, writer: &mut XmlWriter) -> (outcome: Result<(), QuizError>)
        ensures
            Plan::sequence(question_plans(self.questions_view())).carried_out(*old(writer), *final(writer), outcome),
    {
        let ghost before = writer.events();
        let ghost plans = question_plans(self.questions@);
        proof {
            lemma_sequence_start(plans, before);
        }
        let mut i: usize = 0;
        while i < self.questions.len()
            invariant
                i <= self.questions.len(),
                before == old(writer).events(),
                writer.open() == old(writer).open(),
                old(writer).bytes().is_prefix_of(writer.bytes()),
                plans == question_plans(self.questions@),
                Plan::sequence(plans.take(i as int)).failure is None,
                writer.events() == before + Plan::sequence(plans.take(i as int)).events,
            decreases self.questions.len() - i,
        {
            let outcome = self.questions[i].to_xml(writer);
            proof {
                lemma_sequence_step(plans, i as int, before, writer.events(), outcome);
            }
            outcome?;
            i += 1;
        }
        proof {
            lemma_sequence_end(plans, before, writer.events());
        }
        Ok(())
    }

    /// Writes the quiz as an XML document, with its question and answer objects.
    ///
    /// # Arguments
    ///
    /// - `writer`: The writer that takes the document.
    ///
    /// # Errors
    ///
    /// Returns an QuizError if the problem occurs during writing the document or requirements are not met.
    /// The first error ends the writing: what was written before it stays
    /// with the writer, and nothing is written after it. A quiz without
    /// questions is refused before anything is written.
    pub fn to_xml(&mut self, writer: &mut XmlWriter) -> (outcome: Result<(), QuizError>)
        ensures
            *final(self) == *old(self),
            old(self).plan().carried_out(*old(writer), *final(writer), outcome),
            old(self).questions_view().len() == 0 ==> outcome is Err && outcome->Err_0@
                == Failure::no_questions() && final(writer).events() == old(writer).events(),
            outcome is Ok <==> old(self).failure() is None,
            outcome is Err ==> old(self).failure() == Some(outcome->Err_0@),
            outcome is Ok ==> is_scope(old(self).plan().events, "quiz"@) && well_nested(
                old(self).plan().events,
            ),
    {
        let ghost before = writer.events();
        let ghost parts = self.parts();
        if self.questions.is_empty() {
            proof {
                assert(before + Seq::<Event>::empty() =~= before);
            }
            return Err(QuizError::EmptyError(EmptyError.to_string()));
        }
        proof {
            self.lemma_plan();
            lemma_sequence_start(parts, before);
        }
        let outcome = writer.write(XmlEvent::start_element("quiz"));
        proof {
            lemma_sequence_step(parts, 0, before, writer.events(), outcome);
        }
        outcome?;
        let outcome = self.categories_to_xml(writer);
        proof {
            lemma_sequence_step(parts, 1, before, writer.events(), outcome);
        }
        outcome?;
        let outcome = self.questions_to_xml(writer);
        proof {
            lemma_sequence_step(parts, 2, before, writer.events(), outcome);
        }
        outcome?;
        let outcome = writer.write(XmlEvent::EndElement);
        proof {
            lemma_sequence_step(parts, 3, before, writer.events(), outcome);
        }
        outcome?;
        proof {
            lemma_sequence_end(parts, before, writer.events());
        }
        Ok(())
    }
}

} // verus!
