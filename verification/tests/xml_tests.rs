use moodle_xml::answer::Answer;
use moodle_xml::question::{
    MultiChoiceQuestion, Question, QuestionType, ShortAnswerQuestion, TextFormat,
};
use moodle_xml::quiz::{Category, Quiz};
use moodle_xml::writer::XmlWriter;
use xml::reader::EventReader;

#[test]
fn test_single_answer() {
    let mut writer = XmlWriter::new();

    let mut answer = Answer::new(
        100,
        "Answer text".to_string(),
        "Particularly well answered!".to_string().into(),
    );
    answer.set_text_format(TextFormat::Moodle);
    answer.to_xml(&mut writer).unwrap();
    let buf = String::from_utf8(writer.into_inner()).unwrap();
    let expected = r#"<?xml version="1.0" encoding="utf-8"?>
<answer fraction="100" format="moodle_auto_format">
  <text>Answer text</text>
  <feedback format="moodle_auto_format">
    <text>Particularly well answered!</text>
  </feedback>
</answer>"#;
    assert_eq!(expected, buf);
}

#[test]
fn test_multichoice_question_xml() {
    let mut writer = XmlWriter::new();
    let mut multichoice_question = MultiChoiceQuestion::new(
        "Name of question".to_string(),
        "What is the answer to this question?".to_string(),
        Some(true),
        Some(true),
        Some("Correct!".to_string()),
        Some("Partially correct!".to_string()),
        Some("Incorrect!".to_string()),
        Some("abc".to_string()),
    );
    multichoice_question
        .add_answers(vec![
            Answer {
                fraction: 100,
                text: "The correct answer".to_string(),
                feedback: "Correct!".to_string().into(),
                text_format: TextFormat::HTML,
            },
            Answer {
                fraction: 0,
                text: "A distractor".to_string(),
                feedback: "Ooops!".to_string().into(),
                text_format: TextFormat::HTML,
            },
            Answer {
                fraction: 0,
                text: "Another distractor".to_string(),
                feedback: "Ooops!".to_string().into(),
                text_format: TextFormat::HTML,
            },
        ])
        .unwrap();
    multichoice_question.to_xml(&mut writer).unwrap();

    let buf = String::from_utf8(writer.into_inner()).unwrap();
    let expected = r#"<?xml version="1.0" encoding="utf-8"?>
<question type="multichoice">
  <name>
    <text>Name of question</text>
  </name>
  <questiontext format="html">
    <text><![CDATA[What is the answer to this question?]]></text>
  </questiontext>
  <answer fraction="100" format="html">
    <text>The correct answer</text>
    <feedback format="html">
      <text>Correct!</text>
    </feedback>
  </answer>
  <answer fraction="0" format="html">
    <text>A distractor</text>
    <feedback format="html">
      <text>Ooops!</text>
    </feedback>
  </answer>
  <answer fraction="0" format="html">
    <text>Another distractor</text>
    <feedback format="html">
      <text>Ooops!</text>
    </feedback>
  </answer>
  <single>true</single>
  <shuffleanswers>1</shuffleanswers>
  <correctfeedback format="html">
    <text>Correct!</text>
  </correctfeedback>
  <partiallycorrectfeedback format="html">
    <text>Partially correct!</text>
  </partiallycorrectfeedback>
  <incorrectfeedback format="html">
    <text>Incorrect!</text>
  </incorrectfeedback>
  <answernumbering>abc</answernumbering>
</question>"#;
    assert_eq!(expected, buf);
}

#[test]
fn test_file_creation() {
    let mut question =
        ShortAnswerQuestion::new("Easy question".into(), "Kenella on S rinnassa".into(), None);

    let answer = Answer::new(100, "Superman".into(), Some("Oikein".into()));
    question.add_answers(answer.into()).unwrap();

    let mut quiz = Quiz::new(question.into());
    let categories = vec!["testi_categoria".into()];
    quiz.set_categories(categories);

    let mut writer = XmlWriter::new();
    assert!(quiz.to_xml(&mut writer).is_ok());

    let bytes = writer.into_inner();
    let parser = EventReader::new(bytes.as_slice());

    for e in parser {
        assert!(e.is_ok())
    }
}

#[test]
fn pointlimit_test() {
    let mut question =
        ShortAnswerQuestion::new("Easy question".into(), "Kenella on S rinnassa".into(), None);
    let answer = Answer::new(200, "Superman".into(), Some("Oikein".into()));
    question.add_answers(answer.into()).unwrap();

    let mut quiz = Quiz::new(question.into());
    let category = vec!["testi_categoria".into()];
    quiz.set_categories(category);

    let mut writer = XmlWriter::new();
    assert!(quiz.to_xml(&mut writer).is_err());
}

#[test]
fn no_answer_in_question() {
    let question =
        ShortAnswerQuestion::new("Easy question".into(), "Kenella on S rinnassa".into(), None);

    let category = vec!["testi_categoria".into()];
    let mut quiz = Quiz::new(question.into());
    quiz.set_categories(category);

    let mut writer = XmlWriter::new();
    assert!(quiz.to_xml(&mut writer).is_err());
}

#[test]
fn character_test() {
    let mut question = ShortAnswerQuestion::new(
        "TRUE".into(),
        "(),./;'\"[]-=<>?:{}|\\_+!@#$%^&*()`~".into(),
        None,
    );

    let answer = Answer::new(100, "NaN".into(), Some("1E02".into()));
    question.add_answers(vec![answer]).unwrap();
    let mut quiz = Quiz::new(question.into());

    let mut writer = XmlWriter::new();
    assert!(quiz.to_xml(&mut writer).is_ok());
}

#[test]
fn answer_test() {
    let mut question =
        ShortAnswerQuestion::new("Easy question".into(), "Kenella on S rinnassa".into(), None);

    let answer = Answer::new(100, "Superman".into(), Some("Oikein".into()));
    let answer2 = Answer::new(0, "Batman".into(), Some("Väärin".into()));
    let answer3 = Answer::new(0, "Robin".into(), None);
    let answer4 = Answer::new(0, "Spiderman".into(), Some("Oikein".into()));

    question
        .add_answers(vec![answer, answer2, answer3, answer4])
        .unwrap();
    let category: Category = "testi_categoria".into();
    let mut quiz = Quiz::new(question.into());
    quiz.set_categories(category.into());

    let mut writer = XmlWriter::new();
    assert!(quiz.to_xml(&mut writer).is_ok());
}

#[test]
fn add_quiz_vec_xml() {
    let answer1 = Answer::new(100, "Superman".into(), Some("Oikein".into()));
    let answer2 = Answer::new(100, "Spiderman".into(), Some("Oikein".into()));
    let answer3 = Answer::new(100, "Superman".into(), Some("Oikein".into()));

    let answers = vec![answer1, answer2, answer3.clone()];

    let mut question1 =
        ShortAnswerQuestion::new("Easy question".into(), "Kenella on S rinnassa".into(), None);
    let mut question2 = ShortAnswerQuestion::new(
        "Easier question".into(),
        "Kenella on S rinnassa".into(),
        None,
    );

    let _ = question1.add_answers(answers);
    let _ = question2.add_answers(answer3.into());

    let questions: Vec<QuestionType> = vec![question1.into(), question2.into()];

    let category: Category = "testi_categoria".into();
    let mut quiz = Quiz::new(questions);
    quiz.set_categories(category.into());

    let mut writer = XmlWriter::new();
    assert!(quiz.to_xml(&mut writer).is_ok());
}
