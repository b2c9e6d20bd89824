//! A prelude containing the esstential types

pub use crate::answer::Answer;
pub use crate::question::{
    EssayQuestion, MultiChoiceQuestion, Question, QuestionType, ShortAnswerQuestion, TextFormat,
    TrueFalseQuestion,
};
pub use crate::quiz::{Category, Quiz, QuizError};
pub use crate::writer::XmlWriter;
