//! Conversions from a single question, to make it easier to hand one
//! question where a question of any type or a vector of questions is asked
//! for, with `.into()`.

use vstd::prelude::*;
use vstd::std_specs::convert::{FromSpecImpl, IntoSpec};
use crate::question::{
    EssayQuestion,
    MultiChoiceQuestion,
    Question,
    QuestionType,
    ShortAnswerQuestion,
    TrueFalseQuestion,
};

verus! {

/// What the conversion gives is said by the contract of `from`.
impl<Q> FromSpecImpl<MultiChoiceQuestion> for Vec<Q> where
    Q: Question,
    MultiChoiceQuestion: Into<Q>,
{
    open spec fn obeys_from_spec() -> bool {
        false
    }

    open spec fn from_spec(question: MultiChoiceQuestion) -> Vec<Q> {
        arbitrary()
    }
}

impl<Q> From<MultiChoiceQuestion> for Vec<Q> where
    Q: Question,
    MultiChoiceQuestion: Into<Q>,
{
    /// The question alone, as the type of question that is asked for.
    fn from(question: MultiChoiceQuestion) -> (questions: Vec<Q>)
        ensures
            questions@.len() == 1,
            <MultiChoiceQuestion as IntoSpec<Q>>::obeys_into_spec() ==> questions@[0]
                == <MultiChoiceQuestion as IntoSpec<Q>>::into_spec(question),
    {
        vec![question.into()]
    }
}

/// What the conversion gives is said by the contract of `from`.
impl FromSpecImpl<MultiChoiceQuestion> for Vec<Box<dyn Question>> {
    open spec fn obeys_from_spec() -> bool {
        false
    }

    open spec fn from_spec(question: MultiChoiceQuestion) -> Vec<Box<dyn Question>> {
        arbitrary()
    }
}

impl From<MultiChoiceQuestion> for Vec<Box<dyn Question>> {
    /// The question alone, in a box.
    fn from(question: MultiChoiceQuestion) -> (questions: Vec<Box<dyn Question>>)
        ensures
            questions@.len() == 1,
            questions@[0].base() == question.base(),
            questions@[0].plan() == question.plan(),
    {
        vec![Box::new(question)]
    }
}

impl FromSpecImpl<MultiChoiceQuestion> for QuestionType {
    open spec fn obeys_from_spec() -> bool {
        true
    }

    open spec fn from_spec(question: MultiChoiceQuestion) -> QuestionType {
        QuestionType::Multichoice(question)
    }
}

impl From<MultiChoiceQuestion> for QuestionType {
    fn from(question: MultiChoiceQuestion) -> (wrapped: QuestionType) {
        QuestionType::Multichoice(question)
    }
}

/// What the conversion gives is said by the contract of `from`.
impl FromSpecImpl<MultiChoiceQuestion> for Vec<QuestionType> {
    open spec fn obeys_from_spec() -> bool {
        false
    }

    open spec fn from_spec(question: MultiChoiceQuestion) -> Vec<QuestionType> {
        arbitrary()
    }
}

impl From<MultiChoiceQuestion> for Vec<QuestionType> {
    /// The question alone.
    fn from(question: MultiChoiceQuestion) -> (questions: Vec<QuestionType>)
        ensures
            questions@ == seq![QuestionType::Multichoice(question)],
    {
        vec![QuestionType::Multichoice(question)]
    }
}

/// What the conversion gives is said by the contract of `from`.
impl<Q> FromSpecImpl<TrueFalseQuestion> for Vec<Q> where
    Q: Question,
    TrueFalseQuestion: Into<Q>,
{
    open spec fn obeys_from_spec() -> bool {
        false
    }

    open spec fn from_spec(question: TrueFalseQuestion) -> Vec<Q> {
        arbitrary()
    }
}

impl<Q> From<TrueFalseQuestion> for Vec<Q> where
    Q: Question,
    TrueFalseQuestion: Into<Q>,
{
    /// The question alone, as the type of question that is asked for.
    fn from(question: TrueFalseQuestion) -> (questions: Vec<Q>)
        ensures
            questions@.len() == 1,
            <TrueFalseQuestion as IntoSpec<Q>>::obeys_into_spec() ==> questions@[0]
                == <TrueFalseQuestion as IntoSpec<Q>>::into_spec(question),
    {
        vec![question.into()]
    }
}

/// What the conversion gives is said by the contract of `from`.
impl FromSpecImpl<TrueFalseQuestion> for Vec<Box<dyn Question>> {
    open spec fn obeys_from_spec() -> bool {
        false
    }

    open spec fn from_spec(question: TrueFalseQuestion) -> Vec<Box<dyn Question>> {
        arbitrary()
    }
}

impl From<TrueFalseQuestion> for Vec<Box<dyn Question>> {
    /// The question alone, in a box.
    fn from(question: TrueFalseQuestion) -> (questions: Vec<Box<dyn Question>>)
        ensures
            questions@.len() == 1,
            questions@[0].base() == question.base(),
            questions@[0].plan() == question.plan(),
    {
        vec![Box::new(question)]
    }
}

impl FromSpecImpl<TrueFalseQuestion> for QuestionType {
    open spec fn obeys_from_spec() -> bool {
        true
    }

    open spec fn from_spec(question: TrueFalseQuestion) -> QuestionType {
        QuestionType::TrueFalse(question)
    }
}

impl From<TrueFalseQuestion> for QuestionType {
    fn from(question: TrueFalseQuestion) -> (wrapped: QuestionType) {
        QuestionType::TrueFalse(question)
    }
}

/// What the conversion gives is said by the contract of `from`.
impl FromSpecImpl<TrueFalseQuestion> for Vec<QuestionType> {
    open spec fn obeys_from_spec() -> bool {
        false
    }

    open spec fn from_spec(question: TrueFalseQuestion) -> Vec<QuestionType> {
        arbitrary()
    }
}

impl From<TrueFalseQuestion> for Vec<QuestionType> {
    /// The question alone.
    fn from(question: TrueFalseQuestion) -> (questions: Vec<QuestionType>)
        ensures
            questions@ == seq![QuestionType::TrueFalse(question)],
    {
        vec![QuestionType::TrueFalse(question)]
    }
}

/// What the conversion gives is said by the contract of `from`.
impl<Q> FromSpecImpl<ShortAnswerQuestion> for Vec<Q> where
    Q: Question,
    ShortAnswerQuestion: Into<Q>,
{
    open spec fn obeys_from_spec() -> bool {
        false
    }

    open spec fn from_spec(question: ShortAnswerQuestion) -> Vec<Q> {
        arbitrary()
    }
}

impl<Q> From<ShortAnswerQuestion> for Vec<Q> where
    Q: Question,
    ShortAnswerQuestion: Into<Q>,
{
    /// The question alone, as the type of question that is asked for.
    fn from(question: ShortAnswerQuestion) -> (questions: Vec<Q>)
        ensures
            questions@.len() == 1,
            <ShortAnswerQuestion as IntoSpec<Q>>::obeys_into_spec() ==> questions@[0]
                == <ShortAnswerQuestion as IntoSpec<Q>>::into_spec(question),
    {
        vec![question.into()]
    }
}

/// What the conversion gives is said by the contract of `from`.
impl FromSpecImpl<ShortAnswerQuestion> for Vec<Box<dyn Question>> {
    open spec fn obeys_from_spec() -> bool {
        false
    }

    open spec fn from_spec(question: ShortAnswerQuestion) -> Vec<Box<dyn Question>> {
        arbitrary()
    }
}

impl From<ShortAnswerQuestion> for Vec<Box<dyn Question>> {
    /// The question alone, in a box.
    fn from(question: ShortAnswerQuestion) -> (questions: Vec<Box<dyn Question>>)
        ensures
            questions@.len() == 1,
            questions@[0].base() == question.base(),
            questions@[0].plan() == question.plan(),
    {
        vec![Box::new(question)]
    }
}

impl FromSpecImpl<ShortAnswerQuestion> for QuestionType {
    open spec fn obeys_from_spec() -> bool {
        true
    }

    open spec fn from_spec(question: ShortAnswerQuestion) -> QuestionType {
        QuestionType::ShortAnswer(question)
    }
}

impl From<ShortAnswerQuestion> for QuestionType {
    fn from(question: ShortAnswerQuestion) -> (wrapped: QuestionType) {
        QuestionType::ShortAnswer(question)
    }
}

/// What the conversion gives is said by the contract of `from`.
impl FromSpecImpl<ShortAnswerQuestion> for Vec<QuestionType> {
    open spec fn obeys_from_spec() -> bool {
        false
    }

    open spec fn from_spec(question: ShortAnswerQuestion) -> Vec<QuestionType> {
        arbitrary()
    }
}

impl From<ShortAnswerQuestion> for Vec<QuestionType> {
    /// The question alone.
    fn from(question: ShortAnswerQuestion) -> (questions: Vec<QuestionType>)
        ensures
            questions@ == seq![QuestionType::ShortAnswer(question)],
    {
        vec![QuestionType::ShortAnswer(question)]
    }
}

/// What the conversion gives is said by the contract of `from`.
impl<Q> FromSpecImpl<EssayQuestion> for Vec<Q> where
    Q: Question,
    EssayQuestion: Into<Q>,
{
    open spec fn obeys_from_spec() -> bool {
        false
    }

    open spec fn from_spec(question: EssayQuestion) -> Vec<Q> {
        arbitrary()
    }
}

impl<Q> From<EssayQuestion> for Vec<Q> where
    Q: Question,
    EssayQuestion: Into<Q>,
{
    /// The question alone, as the type of question that is asked for.
    fn from(question: EssayQuestion) -> (questions: Vec<Q>)
        ensures
            questions@.len() == 1,
            <EssayQuestion as IntoSpec<Q>>::obeys_into_spec() ==> questions@[0]
                == <EssayQuestion as IntoSpec<Q>>::into_spec(question),
    {
        vec![question.into()]
    }
}

/// What the conversion gives is said by the contract of `from`.
impl FromSpecImpl<EssayQuestion> for Vec<Box<dyn Question>> {
    open spec fn obeys_from_spec() -> bool {
        false
    }

    open spec fn from_spec(question: EssayQuestion) -> Vec<Box<dyn Question>> {
        arbitrary()
    }
}

impl From<EssayQuestion> for Vec<Box<dyn Question>> {
    /// The question alone, in a box.
    fn from(question: EssayQuestion) -> (questions: Vec<Box<dyn Question>>)
        ensures
            questions@.len() == 1,
            questions@[0].base() == question.base(),
            questions@[0].plan() == question.plan(),
    {
        vec![Box::new(question)]
    }
}

impl FromSpecImpl<EssayQuestion> for QuestionType {
    open spec fn obeys_from_spec() -> bool {
        true
    }

    open spec fn from_spec(question: EssayQuestion) -> QuestionType {
        QuestionType::Essay(question)
    }
}

impl From<EssayQuestion> for QuestionType {
    fn from(question: EssayQuestion) -> (wrapped: QuestionType) {
        QuestionType::Essay(question)
    }
}

/// What the conversion gives is said by the contract of `from`.
impl FromSpecImpl<EssayQuestion> for Vec<QuestionType> {
    open spec fn obeys_from_spec() -> bool {
        false
    }

    open spec fn from_spec(question: EssayQuestion) -> Vec<QuestionType> {
        arbitrary()
    }
}

impl From<EssayQuestion> for Vec<QuestionType> {
    /// The question alone.
    fn from(question: EssayQuestion) -> (questions: Vec<QuestionType>)
        ensures
            questions@ == seq![QuestionType::Essay(question)],
    {
        vec![QuestionType::Essay(question)]
    }
}

} // verus!
