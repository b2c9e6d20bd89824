//! Quizzes for Moodle: a typed model of questions and answers, the rules that
//! a question's answers must meet, and the writing of a quiz as a Moodle XML
//! document.
//!
//! The contracts speak of a document as the sequence of [`event::Event`]s that
//! is handed to the XML writer, and of a [`plan::Plan`] for what the writing
//! of each value attempts.

pub mod answer;
pub mod conversion;
pub mod event;
pub mod plan;
pub mod prelude;
pub mod question;
pub mod quiz;
pub mod writer;
pub mod xml_util;
