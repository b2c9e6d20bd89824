use moodle_xml::answer::Answer;
use moodle_xml::event::XmlEvent;
use moodle_xml::question::{
    EssayQuestion, MultiChoiceQuestion, Question, QuestionBase, QuestionType,
    ShortAnswerQuestion, TextFormat, TrueFalseQuestion,
};
use moodle_xml::quiz::{Category, EmptyError, Quiz, QuizError, ValueError};
use moodle_xml::writer::XmlWriter;
use moodle_xml::xml_util::{
    decimal_string, flag_digit_str, flag_word_str, write_named_formatted_scope, write_text_tag,
};

fn answer(fraction: u8) -> Answer {
    Answer::new(fraction, "text".to_string(), None)
}

fn written(writer: XmlWriter) -> String {
    String::from_utf8(writer.into_inner()).unwrap()
}

#[test]
fn answer_within_limit_is_written() {
    for fraction in [0u8, 1, 50, 99, 100] {
        let mut writer = XmlWriter::new();
        assert!(answer(fraction).to_xml(&mut writer).is_ok());
        let expected = format!(
            "<?xml version=\"1.0\" encoding=\"utf-8\"?>\n<answer fraction=\"{}\" format=\"html\">\n  <text>text</text>\n</answer>",
            fraction
        );
        assert_eq!(expected, written(writer));
    }
}

#[test]
fn answer_over_limit_is_refused_before_writing() {
    for fraction in [101u8, 150, 200, 255] {
        let mut writer = XmlWriter::new();
        let outcome = answer(fraction).to_xml(&mut writer);
        assert!(matches!(
            outcome,
            Err(QuizError::AnswerFractionError(ref message))
                if message == "Answer fraction is larger than 100"
        ));
        assert_eq!("", written(writer));
    }
}

#[test]
fn answer_without_feedback_has_no_feedback_scope() {
    let mut writer = XmlWriter::new();
    let mut answer = Answer::new(7, "Seven".to_string(), None);
    answer.set_text_format(TextFormat::Markdown);
    answer.to_xml(&mut writer).unwrap();
    let expected = r#"<?xml version="1.0" encoding="utf-8"?>
<answer fraction="7" format="markdown">
  <text>Seven</text>
</answer>"#;
    assert_eq!(expected, written(writer));
}

#[test]
fn answer_text_is_escaped() {
    let mut writer = XmlWriter::new();
    let answer = Answer::new(100, "1 < 2 & 3 > 2".to_string(), Some("<b>".to_string()));
    answer.to_xml(&mut writer).unwrap();
    let expected = r#"<?xml version="1.0" encoding="utf-8"?>
<answer fraction="100" format="html">
  <text>1 &lt; 2 &amp; 3 &gt; 2</text>
  <feedback format="html">
    <text>&lt;b&gt;</text>
  </feedback>
</answer>"#;
    assert_eq!(expected, written(writer));
}

#[test]
fn new_answer_is_html() {
    let answer = Answer::new(3, "a".to_string(), Some("b".to_string()));
    assert_eq!(3, answer.fraction);
    assert_eq!("a", answer.text);
    assert_eq!(Some("b".to_string()), answer.feedback);
    assert!(matches!(answer.text_format, TextFormat::HTML));
}

#[test]
fn single_answer_into_vector() {
    let answers: Vec<Answer> = answer(42).into();
    assert_eq!(1, answers.len());
    assert_eq!(42, answers[0].fraction);
}

#[test]
fn decimal_strings() {
    assert_eq!("0", decimal_string(0));
    assert_eq!("7", decimal_string(7));
    assert_eq!("10", decimal_string(10));
    assert_eq!("99", decimal_string(99));
    assert_eq!("100", decimal_string(100));
    assert_eq!("101", decimal_string(101));
    assert_eq!("255", decimal_string(255));
    for n in 0..=255u8 {
        assert_eq!(n.to_string(), decimal_string(n));
    }
}

#[test]
fn flag_strings() {
    assert_eq!("true", flag_word_str(true));
    assert_eq!("false", flag_word_str(false));
    assert_eq!("1", flag_digit_str(true));
    assert_eq!("0", flag_digit_str(false));
}

#[test]
fn text_format_names() {
    assert_eq!("html", TextFormat::HTML.name());
    assert_eq!("moodle_auto_format", TextFormat::Moodle.name());
    assert_eq!("markdown", TextFormat::Markdown.name());
    assert_eq!("plain_text", TextFormat::PlainText.name());
    assert!(matches!(TextFormat::default(), TextFormat::HTML));
}

#[test]
fn error_messages() {
    assert_eq!("Quiz questions or answer is empty", EmptyError.to_string());
    assert_eq!("Answer type has value outside of limits", ValueError.to_string());
    assert!(matches!(
        QuizError::from(EmptyError),
        QuizError::EmptyError(ref message) if message == "Quiz questions or answer is empty"
    ));
    assert!(matches!(
        QuizError::from(ValueError),
        QuizError::ValueError(ref message) if message == "Answer type has value outside of limits"
    ));
    let error: QuizError = xml::writer::Error::LastElementNameNotAvailable.into();
    assert!(matches!(
        error,
        QuizError::XMLWriterError(xml::writer::Error::LastElementNameNotAvailable)
    ));
}

#[test]
fn writer_outcomes() {
    assert!(XmlWriter::outcome(Ok(())).is_ok());
    assert!(matches!(
        XmlWriter::outcome(Err(xml::writer::Error::DocumentStartAlreadyEmitted)),
        Err(QuizError::XMLWriterError(xml::writer::Error::DocumentStartAlreadyEmitted))
    ));
}

#[test]
fn writer_error_is_handed_on() {
    let mut writer = XmlWriter::new();
    let outcome = writer.write(XmlEvent::EndElement);
    assert!(matches!(
        outcome,
        Err(QuizError::XMLWriterError(xml::writer::Error::LastElementNameNotAvailable))
    ));
    assert_eq!("", written(writer));
}

#[test]
fn events_with_attributes() {
    let mut writer = XmlWriter::new();
    let start = XmlEvent::start_element("a").attr("x", "1").attr("y", "\"2\"");
    writer.write(start).unwrap();
    writer.write(XmlEvent::Characters("t").attr("z", "3")).unwrap();
    writer.write(XmlEvent::EndElement.attr("z", "3")).unwrap();
    let expected = "<?xml version=\"1.0\" encoding=\"utf-8\"?>\n<a x=\"1\" y=\"&quot;2&quot;\">t</a>";
    assert_eq!(expected, written(writer));
}

#[test]
fn text_tag_plain_and_cdata() {
    let mut writer = XmlWriter::new();
    write_text_tag(&mut writer, "<i>a</i>", false).unwrap();
    assert_eq!(
        "<?xml version=\"1.0\" encoding=\"utf-8\"?>\n<text>&lt;i&gt;a&lt;/i&gt;</text>",
        written(writer)
    );
    let mut writer = XmlWriter::new();
    write_text_tag(&mut writer, "<i>a</i>", true).unwrap();
    assert_eq!(
        "<?xml version=\"1.0\" encoding=\"utf-8\"?>\n<text><![CDATA[<i>a</i>]]></text>",
        written(writer)
    );
}

#[test]
fn named_formatted_scope() {
    let mut writer = XmlWriter::new();
    write_named_formatted_scope(&mut writer, "correctfeedback", Some(TextFormat::HTML), |w| {
        write_text_tag(w, "The Answer is good!", false)
    })
    .unwrap();
    let expected = r#"<?xml version="1.0" encoding="utf-8"?>
<correctfeedback format="html">
  <text>The Answer is good!</text>
</correctfeedback>"#;
    assert_eq!(expected, written(writer));

    let mut writer = XmlWriter::new();
    write_named_formatted_scope(&mut writer, "single", None, |w| {
        w.write(XmlEvent::Characters("true"))
    })
    .unwrap();
    assert_eq!(
        "<?xml version=\"1.0\" encoding=\"utf-8\"?>\n<single>true</single>",
        written(writer)
    );
}

#[test]
fn scope_is_left_open_when_its_body_fails() {
    let mut writer = XmlWriter::new();
    let outcome = write_named_formatted_scope(&mut writer, "outer", None, |w| {
        write_text_tag(w, "inside", false)?;
        Err(QuizError::from(EmptyError))
    });
    assert!(matches!(outcome, Err(QuizError::EmptyError(_))));
    assert_eq!(
        "<?xml version=\"1.0\" encoding=\"utf-8\"?>\n<outer>\n  <text>inside</text>",
        written(writer)
    );
}

#[test]
fn insufficient_fraction_is_refused() {
    let mut multichoice = MultiChoiceQuestion::new(
        "n".to_string(),
        "d".to_string(),
        None,
        None,
        None,
        None,
        None,
        None,
    );
    let outcome = multichoice.add_answers(vec![answer(50), answer(49)]);
    assert!(matches!(
        outcome,
        Err(QuizError::AnswerFractionError(ref message))
            if message == "The total fraction of answers must be at least 100"
    ));
    let mut writer = XmlWriter::new();
    assert!(matches!(multichoice.to_xml(&mut writer), Err(QuizError::EmptyError(_))));

    let mut short = ShortAnswerQuestion::new("n".to_string(), "d".to_string(), None);
    assert!(matches!(
        short.add_answers(vec![answer(99)]),
        Err(QuizError::AnswerFractionError(ref message))
            if message == "The total fraction of answers must be at least 100"
    ));
    assert!(matches!(
        short.add_answers(vec![]),
        Err(QuizError::AnswerFractionError(_))
    ));
    let mut writer = XmlWriter::new();
    assert!(matches!(short.to_xml(&mut writer), Err(QuizError::EmptyError(_))));
}

#[test]
fn sufficient_fraction_is_taken() {
    let mut short = ShortAnswerQuestion::new("n".to_string(), "d".to_string(), None);
    assert!(short.add_answers(vec![answer(50), answer(50)]).is_ok());
    assert!(short.add_answers(vec![answer(0)]).is_ok());
    let mut writer = XmlWriter::new();
    short.to_xml(&mut writer).unwrap();
    let text = written(writer);
    assert_eq!(3, text.matches("<answer ").count());
    assert_eq!(2, text.matches("fraction=\"50\"").count());
    assert_eq!(1, text.matches("fraction=\"0\"").count());
}

#[test]
fn refused_answers_take_the_held_answers_along() {
    let mut base = QuestionBase::new("n".to_string(), "d".to_string());
    base.answers.push(answer(60));
    let outcome = base.add_answers(vec![answer(10), answer(20)]);
    assert!(matches!(outcome, Err(QuizError::AnswerFractionError(_))));
    assert!(base.answers.is_empty());

    let mut base = QuestionBase::new("n".to_string(), "d".to_string());
    base.answers.push(answer(60));
    assert!(base.add_answers(vec![answer(10), answer(30)]).is_ok());
    assert_eq!(3, base.answers.len());
    assert_eq!(60, base.answers[0].fraction);
    assert_eq!(10, base.answers[1].fraction);
    assert_eq!(30, base.answers[2].fraction);
}

#[test]
fn check_answer_fraction_at_the_threshold() {
    let mut base = QuestionBase::new("n".to_string(), "d".to_string());
    assert!(base.check_answer_fraction().is_err());
    base.answers.push(answer(99));
    assert!(base.check_answer_fraction().is_err());
    assert!(base.answers.is_empty());
    base.answers.push(answer(100));
    assert!(base.check_answer_fraction().is_ok());
    assert_eq!(1, base.answers.len());
    let mut base = QuestionBase::new("n".to_string(), "d".to_string());
    for _ in 0..3 {
        base.answers.push(answer(255));
    }
    assert!(base.check_answer_fraction().is_ok());
    assert_eq!(3, base.answers.len());
}

#[test]
fn true_false_takes_exactly_one_right_and_one_wrong() {
    let fresh = || TrueFalseQuestion::new("n".to_string(), "d".to_string());
    assert!(fresh().add_answers(vec![answer(100), answer(0)]).is_ok());
    assert!(fresh().add_answers(vec![answer(0), answer(100)]).is_ok());
    for (first, second) in [(100u8, 100u8), (0, 0), (50, 50), (100, 1), (99, 0), (1, 100), (0, 99), (200, 0)] {
        assert!(matches!(
            fresh().add_answers(vec![answer(first), answer(second)]),
            Err(QuizError::AnswerFractionError(ref message))
                if message == "Only fractions 100 and 0 are allowed in True/False questions"
        ));
    }
    for count in [0usize, 1, 3, 4] {
        let answers: Vec<Answer> = (0..count).map(|_| answer(100)).collect();
        assert!(matches!(
            fresh().add_answers(answers),
            Err(QuizError::AnswerCountError(ref message))
                if message == "True/False questions must have exactly 2 answers"
        ));
    }
}

#[test]
fn true_false_keeps_its_answers_when_others_are_refused() {
    let mut question = TrueFalseQuestion::new("n".to_string(), "d".to_string());
    question.add_answers(vec![answer(100), answer(0)]).unwrap();
    assert!(question.add_answers(vec![answer(50), answer(0)]).is_err());
    assert!(question.add_answers(vec![answer(100)]).is_err());
    let mut writer = XmlWriter::new();
    question.to_xml(&mut writer).unwrap();
    let expected = r#"<?xml version="1.0" encoding="utf-8"?>
<question type="truefalse">
  <name>
    <text>n</text>
  </name>
  <questiontext format="html">
    <text><![CDATA[d]]></text>
  </questiontext>
  <answer fraction="100" format="html">
    <text>text</text>
  </answer>
  <answer fraction="0" format="html">
    <text>text</text>
  </answer>
</question>"#;
    assert_eq!(expected, written(writer));
}

#[test]
fn essay_takes_no_answers() {
    let mut essay = EssayQuestion::new("n".to_string(), "d".to_string());
    assert!(essay.add_answers(vec![]).is_ok());
    assert!(matches!(
        essay.add_answers(vec![answer(100)]),
        Err(QuizError::AnswerCountError(ref message))
            if message == "Essay questions must not have any answers"
    ));
    assert!(essay.add_answers(vec![answer(0), answer(100)]).is_err());
    assert!(essay.add_answers(vec![]).is_ok());
}

#[test]
fn essay_is_written_without_answers() {
    let mut essay = EssayQuestion::new("An essay".to_string(), "Write <b>much</b>".to_string());
    essay.set_text_format(TextFormat::PlainText);
    let mut writer = XmlWriter::new();
    essay.to_xml(&mut writer).unwrap();
    let expected = r#"<?xml version="1.0" encoding="utf-8"?>
<question type="essay">
  <name>
    <text>An essay</text>
  </name>
  <questiontext format="plain_text">
    <text><![CDATA[Write <b>much</b>]]></text>
  </questiontext>
</question>"#;
    assert_eq!(expected, written(writer));
}

#[test]
fn short_answer_usecase_is_a_digit() {
    for (usecase, digit) in [(None, "0"), (Some(false), "0"), (Some(true), "1")] {
        let mut question = ShortAnswerQuestion::new("n".to_string(), "d".to_string(), usecase);
        question.add_answers(vec![answer(100)]).unwrap();
        let mut writer = XmlWriter::new();
        question.to_xml(&mut writer).unwrap();
        let expected = format!(
            r#"<?xml version="1.0" encoding="utf-8"?>
<question type="shortanswer">
  <name>
    <text>n</text>
  </name>
  <questiontext format="html">
    <text><![CDATA[d]]></text>
  </questiontext>
  <answer fraction="100" format="html">
    <text>text</text>
  </answer>
  <usecase>{}</usecase>
</question>"#,
            digit
        );
        assert_eq!(expected, written(writer));
    }
}

#[test]
fn multichoice_defaults() {
    let mut question = MultiChoiceQuestion::new(
        "n".to_string(),
        "d".to_string(),
        None,
        None,
        None,
        None,
        None,
        None,
    );
    assert!(question.single);
    assert!(question.shuffleanswers);
    assert_eq!("", question.correctfeedback);
    assert_eq!("", question.partiallycorrectfeedback);
    assert_eq!("", question.incorrectfeedback);
    assert_eq!("", question.answernumbering);
    question.add_answers(vec![answer(100)]).unwrap();
    let mut writer = XmlWriter::new();
    question.to_xml(&mut writer).unwrap();
    let expected = r#"<?xml version="1.0" encoding="utf-8"?>
<question type="multichoice">
  <name>
    <text>n</text>
  </name>
  <questiontext format="html">
    <text><![CDATA[d]]></text>
  </questiontext>
  <answer fraction="100" format="html">
    <text>text</text>
  </answer>
  <single>true</single>
  <shuffleanswers>1</shuffleanswers>
  <correctfeedback format="html">
    <text></text>
  </correctfeedback>
  <partiallycorrectfeedback format="html">
    <text></text>
  </partiallycorrectfeedback>
  <incorrectfeedback format="html">
    <text></text>
  </incorrectfeedback>
  <answernumbering></answernumbering>
</question>"#;
    assert_eq!(expected, written(writer));
}

#[test]
fn multichoice_flags_keep_their_forms() {
    let mut question = MultiChoiceQuestion::new(
        "n".to_string(),
        "d".to_string(),
        Some(false),
        Some(false),
        None,
        None,
        None,
        Some("123".to_string()),
    );
    question.add_answers(vec![answer(100)]).unwrap();
    let mut writer = XmlWriter::new();
    question.to_xml(&mut writer).unwrap();
    let text = written(writer);
    assert!(text.contains("<single>false</single>"));
    assert!(text.contains("<shuffleanswers>0</shuffleanswers>"));
    assert!(text.contains("<answernumbering>123</answernumbering>"));
}

#[test]
fn names_and_descriptions() {
    let multichoice = MultiChoiceQuestion::new(
        "a".to_string(),
        "b".to_string(),
        None,
        None,
        None,
        None,
        None,
        None,
    );
    assert_eq!("a", multichoice.get_name());
    assert_eq!("b", multichoice.get_description());
    let true_false = TrueFalseQuestion::new("c".to_string(), "d".to_string());
    assert_eq!("c", true_false.get_name());
    assert_eq!("d", true_false.get_description());
    let short = ShortAnswerQuestion::new("e".to_string(), "f".to_string(), Some(true));
    assert_eq!("e", short.get_name());
    assert_eq!("f", short.get_description());
    assert!(short.usecase);
    let essay = EssayQuestion::new("g".to_string(), "h".to_string());
    assert_eq!("g", essay.get_name());
    assert_eq!("h", essay.get_description());
    let base = QuestionBase::new("i".to_string(), "j".to_string());
    assert_eq!("i", base.get_name());
    assert_eq!("j", base.get_description());
    assert!(base.answers.is_empty());
    assert!(matches!(base.question_text_format, TextFormat::HTML));
}

#[test]
fn question_text_format_is_written() {
    let mut question = ShortAnswerQuestion::new("n".to_string(), "d".to_string(), None);
    question.set_text_format(TextFormat::Moodle);
    question.add_answers(vec![answer(100)]).unwrap();
    let mut writer = XmlWriter::new();
    question.to_xml(&mut writer).unwrap();
    assert!(written(writer).contains("<questiontext format=\"moodle_auto_format\">"));
}

#[test]
fn question_without_answers_is_refused_behind_its_header() {
    let questions: Vec<QuestionType> = vec![
        MultiChoiceQuestion::new(
            "n".to_string(),
            "d".to_string(),
            None,
            None,
            None,
            None,
            None,
            None,
        )
        .into(),
        TrueFalseQuestion::new("n".to_string(), "d".to_string()).into(),
        ShortAnswerQuestion::new("n".to_string(), "d".to_string(), None).into(),
    ];
    for (question, kind) in questions.iter().zip(["multichoice", "truefalse", "shortanswer"]) {
        let mut writer = XmlWriter::new();
        assert!(matches!(
            question.to_xml(&mut writer),
            Err(QuizError::EmptyError(ref message))
                if message == "Quiz questions or answer is empty"
        ));
        let expected = format!(
            r#"<?xml version="1.0" encoding="utf-8"?>
<question type="{}">
  <name>
    <text>n</text>
  </name>
  <questiontext format="html">
    <text><![CDATA[d]]></text>
  </questiontext>"#,
            kind
        );
        assert_eq!(expected, written(writer));
    }
    let base = QuestionBase::new("n".to_string(), "d".to_string());
    let mut writer = XmlWriter::new();
    assert!(matches!(base.to_xml(&mut writer), Err(QuizError::EmptyError(_))));
}

#[test]
fn answer_over_limit_stops_the_question() {
    let mut question = ShortAnswerQuestion::new("n".to_string(), "d".to_string(), None);
    question.add_answers(vec![answer(100), answer(101), answer(0)]).unwrap();
    let mut writer = XmlWriter::new();
    assert!(matches!(
        question.to_xml(&mut writer),
        Err(QuizError::AnswerFractionError(ref message))
            if message == "Answer fraction is larger than 100"
    ));
    let text = written(writer);
    assert_eq!(1, text.matches("<answer ").count());
    assert!(text.ends_with("</answer>"));
    assert!(!text.contains("usecase"));
}

#[test]
fn quiz_without_questions_is_refused_before_writing() {
    let mut quiz = Quiz::new(vec![]);
    quiz.set_categories(vec!["math".into()]);
    assert!(quiz.questions().is_empty());
    let mut writer = XmlWriter::new();
    assert!(matches!(
        quiz.to_xml(&mut writer),
        Err(QuizError::EmptyError(ref message)) if message == "Quiz questions or answer is empty"
    ));
    assert_eq!("", written(writer));
}

#[test]
fn quiz_stops_at_the_first_question_that_is_refused() {
    let mut first = ShortAnswerQuestion::new("first".to_string(), "d".to_string(), None);
    first.add_answers(vec![answer(100)]).unwrap();
    let second = ShortAnswerQuestion::new("second".to_string(), "d".to_string(), None);
    let mut third = ShortAnswerQuestion::new("third".to_string(), "d".to_string(), None);
    third.add_answers(vec![answer(200)]).unwrap();
    let mut quiz = Quiz::new(vec![first.into(), second.into(), third.into()]);
    assert_eq!(3, quiz.questions().len());
    let mut writer = XmlWriter::new();
    assert!(matches!(quiz.to_xml(&mut writer), Err(QuizError::EmptyError(_))));
    let text = written(writer);
    assert!(text.contains("<text>first</text>"));
    assert!(text.contains("<usecase>0</usecase>"));
    assert!(text.contains("<text>second</text>"));
    assert!(!text.contains("third"));
    assert!(!text.contains("</quiz>"));
}

#[test]
fn quiz_without_categories() {
    let mut quiz = Quiz::new(EssayQuestion::new("n".to_string(), "d".to_string()).into());
    let mut writer = XmlWriter::new();
    quiz.to_xml(&mut writer).unwrap();
    let expected = r#"<?xml version="1.0" encoding="utf-8"?>
<quiz>
  <question type="essay">
    <name>
      <text>n</text>
    </name>
    <questiontext format="html">
      <text><![CDATA[d]]></text>
    </questiontext>
  </question>
</quiz>"#;
    assert_eq!(expected, written(writer));
}

#[test]
fn quiz_can_be_written_again() {
    let mut question = TrueFalseQuestion::new("n".to_string(), "d".to_string());
    question.add_answers(vec![answer(0), answer(100)]).unwrap();
    let mut quiz = Quiz::new(question.into());
    quiz.set_categories(Vec::new());
    let mut writer = XmlWriter::new();
    quiz.to_xml(&mut writer).unwrap();
    let first = written(writer);
    let mut writer = XmlWriter::new();
    quiz.to_xml(&mut writer).unwrap();
    assert_eq!(first, written(writer));
    assert!(!first.contains("category"));
}

#[test]
fn categories_from_strings() {
    let from_str: Category = "math".into();
    let from_string: Category = "algebra".to_string().into();
    assert_eq!("math", from_str.as_str());
    assert_eq!("algebra", from_string.as_str());
    assert_eq!(7, from_string.len());
    let alone: Vec<Category> = from_str.clone().into();
    assert_eq!(1, alone.len());
    assert_eq!("math", alone[0].as_str());
}

#[test]
fn single_question_into_vectors() {
    let essay = || EssayQuestion::new("n".to_string(), "d".to_string());
    let any: QuestionType = essay().into();
    assert!(matches!(any, QuestionType::Essay(_)));
    let many: Vec<QuestionType> = essay().into();
    assert_eq!(1, many.len());
    assert!(matches!(many[0], QuestionType::Essay(_)));
    let same: Vec<EssayQuestion> = essay().into();
    assert_eq!(1, same.len());
    assert_eq!("n", same[0].get_name());
    let boxed: Vec<Box<dyn Question>> = essay().into();
    assert_eq!(1, boxed.len());
    assert_eq!("d", boxed[0].get_description());

    let true_false = || TrueFalseQuestion::new("t".to_string(), "d".to_string());
    assert!(matches!(QuestionType::from(true_false()), QuestionType::TrueFalse(_)));
    let many: Vec<QuestionType> = true_false().into();
    assert!(matches!(many[0], QuestionType::TrueFalse(_)));
    let boxed: Vec<Box<dyn Question>> = true_false().into();
    assert_eq!("t", boxed[0].get_name());

    let short = || ShortAnswerQuestion::new("s".to_string(), "d".to_string(), None);
    assert!(matches!(QuestionType::from(short()), QuestionType::ShortAnswer(_)));
    let many: Vec<QuestionType> = short().into();
    assert!(matches!(many[0], QuestionType::ShortAnswer(_)));
    let same: Vec<ShortAnswerQuestion> = short().into();
    assert_eq!("s", same[0].get_name());

    let multichoice = || {
        MultiChoiceQuestion::new(
            "m".to_string(),
            "d".to_string(),
            None,
            None,
            None,
            None,
            None,
            None,
        )
    };
    assert!(matches!(QuestionType::from(multichoice()), QuestionType::Multichoice(_)));
    let many: Vec<QuestionType> = multichoice().into();
    assert!(matches!(many[0], QuestionType::Multichoice(_)));
    let boxed: Vec<Box<dyn Question>> = multichoice().into();
    assert_eq!("m", boxed[0].get_name());
}

#[test]
fn fresh_writer_holds_no_bytes() {
    assert!(XmlWriter::new().into_inner().is_empty());
}

#[test]
fn written_bytes_stay() {
    let mut shorter = XmlWriter::new();
    shorter.write(XmlEvent::start_element("a").attr("x", "1")).unwrap();
    shorter.write(XmlEvent::start_element("b")).unwrap();
    let mut longer = XmlWriter::new();
    longer.write(XmlEvent::start_element("a").attr("x", "1")).unwrap();
    longer.write(XmlEvent::start_element("b")).unwrap();
    longer.write(XmlEvent::Characters("t")).unwrap();
    longer.write(XmlEvent::EndElement).unwrap();
    assert!(longer.write(XmlEvent::CData("c")).is_ok());
    longer.write(XmlEvent::EndElement).unwrap();
    assert!(longer.write(XmlEvent::EndElement).is_err());
    let shorter = shorter.into_inner();
    let longer = longer.into_inner();
    assert_eq!(
        "<?xml version=\"1.0\" encoding=\"utf-8\"?>\n<a x=\"1\">\n  <b",
        String::from_utf8(shorter.clone()).unwrap()
    );
    assert!(longer.starts_with(&shorter));
    assert_eq!(
        "<?xml version=\"1.0\" encoding=\"utf-8\"?>\n<a x=\"1\">\n  <b>t</b><![CDATA[c]]></a>",
        String::from_utf8(longer).unwrap()
    );
}

#[test]
fn refused_closing_changes_nothing() {
    let mut plain = XmlWriter::new();
    plain.write(XmlEvent::start_element("a")).unwrap();
    plain.write(XmlEvent::EndElement).unwrap();
    plain.write(XmlEvent::start_element("b")).unwrap();
    plain.write(XmlEvent::EndElement).unwrap();
    let mut refused = XmlWriter::new();
    assert!(refused.write(XmlEvent::EndElement).is_err());
    refused.write(XmlEvent::start_element("a")).unwrap();
    refused.write(XmlEvent::EndElement).unwrap();
    assert!(refused.write(XmlEvent::EndElement).is_err());
    assert!(refused.write(XmlEvent::EndElement).is_err());
    refused.write(XmlEvent::start_element("b")).unwrap();
    refused.write(XmlEvent::EndElement).unwrap();
    assert!(refused.write(XmlEvent::EndElement).is_err());
    assert_eq!(plain.into_inner(), refused.into_inner());
}

#[test]
fn text_is_taken_wherever_it_stands() {
    let mut writer = XmlWriter::new();
    assert!(writer.write(XmlEvent::CData("first")).is_ok());
    assert!(writer.write(XmlEvent::Characters("second")).is_ok());
    assert!(writer.write(XmlEvent::start_element("p:a").attr("b:c", "<>")).is_ok());
    assert!(writer.write(XmlEvent::start_element("")).is_ok());
    assert!(writer.write(XmlEvent::Characters("")).is_ok());
    assert!(writer.write(XmlEvent::CData("]]>")).is_ok());
    assert!(writer.write(XmlEvent::EndElement).is_ok());
    assert!(writer.write(XmlEvent::EndElement).is_ok());
    assert!(writer.write(XmlEvent::EndElement).is_err());
    assert!(writer.write(XmlEvent::Characters("last")).is_ok());
}
