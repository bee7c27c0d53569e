//! Question validation and the scripted elicitation exchange.

use termmux::elicit::count_words;
use termmux::elicit::elicit_answers_with_io;
use termmux::elicit::validate_questions;
use termmux::elicit::Answer;
use termmux::elicit::ElicitationError;
use termmux::elicit::Question;
use termmux::elicit::QuestionOption;

fn make_option(label: &str, desc: &str) -> QuestionOption {
    QuestionOption {
        label: label.to_string(),
        description: desc.to_string(),
    }
}

fn make_question(question: &str, header: &str, multi: bool, options: Vec<QuestionOption>) -> Question {
    Question {
        question: question.to_string(),
        header: header.to_string(),
        multi_select: multi,
        options,
    }
}

fn make_test_questions() -> Vec<Question> {
    vec![make_question(
        "Which auth method?",
        "Auth",
        false,
        vec![
            make_option("JWT", "Token-based"),
            make_option("OAuth", "Third-party"),
        ],
    )]
}

fn make_multi_select_question() -> Vec<Question> {
    vec![make_question(
        "Which features?",
        "Features",
        true,
        vec![
            make_option("Logging", "Track operations"),
            make_option("Metrics", "Performance data"),
            make_option("Caching", "Speed optimization"),
        ],
    )]
}

#[test]
fn test_validate_no_questions() {
    let result = validate_questions(&vec![]);
    assert!(matches!(result, Err(ElicitationError::NoQuestions)));
}

#[test]
fn test_validate_too_many_questions() {
    let options = vec![
        make_option("A", "Option A"),
        make_option("B", "Option B"),
    ];
    let questions: Vec<Question> = (0..5)
        .map(|i| make_question(&format!("Q{}", i), "Head", false, options.clone()))
        .collect();

    let result = validate_questions(&questions);
    assert!(matches!(result, Err(ElicitationError::TooManyQuestions(5))));
}

#[test]
fn test_validate_empty_question() {
    let options = vec![
        make_option("A", "Option A"),
        make_option("B", "Option B"),
    ];
    let questions = vec![make_question("   ", "Head", false, options)];

    let result = validate_questions(&questions);
    assert!(matches!(result, Err(ElicitationError::EmptyQuestion(0))));
}

#[test]
fn test_validate_empty_header() {
    let options = vec![
        make_option("A", "Option A"),
        make_option("B", "Option B"),
    ];
    let questions = vec![make_question("Question?", "", false, options)];

    let result = validate_questions(&questions);
    assert!(matches!(result, Err(ElicitationError::EmptyHeader(0))));
}

#[test]
fn test_validate_header_too_long() {
    let options = vec![
        make_option("A", "Option A"),
        make_option("B", "Option B"),
    ];
    let questions = vec![make_question("Question?", "ThisHeaderIsTooLong", false, options)];

    let result = validate_questions(&questions);
    assert!(matches!(result, Err(ElicitationError::HeaderTooLong(0))));
}

#[test]
fn test_validate_too_few_options() {
    let options = vec![make_option("A", "Option A")];
    let questions = vec![make_question("Question?", "Head", false, options)];

    let result = validate_questions(&questions);
    assert!(matches!(result, Err(ElicitationError::TooFewOptions(0))));
}

#[test]
fn test_validate_too_many_options() {
    let options = vec![
        make_option("A", "Option A"),
        make_option("B", "Option B"),
        make_option("C", "Option C"),
        make_option("D", "Option D"),
        make_option("E", "Option E"),
    ];
    let questions = vec![make_question("Question?", "Head", false, options)];

    let result = validate_questions(&questions);
    assert!(matches!(result, Err(ElicitationError::TooManyOptions(0))));
}

#[test]
fn test_validate_empty_label() {
    let options = vec![
        make_option("", "Option A"),
        make_option("B", "Option B"),
    ];
    let questions = vec![make_question("Question?", "Head", false, options)];

    let result = validate_questions(&questions);
    assert!(matches!(result, Err(ElicitationError::EmptyLabel(0, 0))));
}

#[test]
fn test_validate_label_too_long() {
    let options = vec![
        make_option("This label has way too many words in it", "Desc"),
        make_option("B", "Option B"),
    ];
    let questions = vec![make_question("Question?", "Head", false, options)];

    let result = validate_questions(&questions);
    assert!(matches!(result, Err(ElicitationError::LabelTooLong(0, 0))));
}

#[test]
fn test_validate_empty_description() {
    let options = vec![
        make_option("A", ""),
        make_option("B", "Option B"),
    ];
    let questions = vec![make_question("Question?", "Head", false, options)];

    let result = validate_questions(&questions);
    assert!(matches!(result, Err(ElicitationError::EmptyDescription(0, 0))));
}

#[test]
fn test_validate_valid_questions() {
    let options = vec![
        make_option("JWT", "Token-based auth"),
        make_option("OAuth", "Third-party auth"),
        make_option("Session", "Server-side sessions"),
    ];
    let questions = vec![
        make_question("Which auth method?", "Auth", false, options.clone()),
        make_question("Which to enable?", "Features", true, options),
    ];

    let result = validate_questions(&questions);
    assert!(result.is_ok());
}

#[test]
fn test_count_words() {
    assert_eq!(count_words("hello"), 1);
    assert_eq!(count_words("hello world"), 2);
    assert_eq!(count_words("  hello   world  "), 2);
    assert_eq!(count_words("one two three four five"), 5);
    assert_eq!(count_words(""), 0);
}

#[test]
fn test_error_codes() {
    assert_eq!(ElicitationError::NoQuestions.code(), "NO_QUESTIONS");
    assert_eq!(ElicitationError::TooManyQuestions(5).code(), "TOO_MANY_QUESTIONS");
    assert_eq!(ElicitationError::EmptyQuestion(0).code(), "EMPTY_QUESTION");
    assert_eq!(ElicitationError::EmptyHeader(0).code(), "EMPTY_HEADER");
    assert_eq!(ElicitationError::HeaderTooLong(0).code(), "HEADER_TOO_LONG");
    assert_eq!(ElicitationError::TooFewOptions(0).code(), "TOO_FEW_OPTIONS");
    assert_eq!(ElicitationError::TooManyOptions(0).code(), "TOO_MANY_OPTIONS");
    assert_eq!(ElicitationError::EmptyLabel(0, 0).code(), "EMPTY_LABEL");
    assert_eq!(ElicitationError::LabelTooLong(0, 0).code(), "LABEL_TOO_LONG");
    assert_eq!(ElicitationError::EmptyDescription(0, 0).code(), "EMPTY_DESCRIPTION");
    assert_eq!(ElicitationError::InvalidSelection(0, 5).code(), "INVALID_SELECTION");
    assert_eq!(ElicitationError::MultipleSelectionsNotAllowed(0).code(), "MULTIPLE_SELECTIONS_NOT_ALLOWED");
    assert_eq!(ElicitationError::Io("test".to_string()).code(), "IO_ERROR");
    assert_eq!(ElicitationError::Cancelled.code(), "CANCELLED");
}

#[test]
fn test_elicit_single_select_first_option() {
    let questions = make_test_questions();

    let (result, _output) = elicit_answers_with_io(&questions, "1\n").unwrap();

    assert!(!result.cancelled);
    assert_eq!(result.answers.len(), 1);
    assert!(matches!(result.get_answer(0), Some(Answer::Single(s)) if s == "JWT"));
}

#[test]
fn test_elicit_single_select_second_option() {
    let questions = make_test_questions();

    let (result, _output) = elicit_answers_with_io(&questions, "2\n").unwrap();

    assert!(!result.cancelled);
    assert!(matches!(result.get_answer(0), Some(Answer::Single(s)) if s == "OAuth"));
}

#[test]
fn test_elicit_cancel() {
    let questions = make_test_questions();

    let (result, _output) = elicit_answers_with_io(&questions, "0\n").unwrap();

    assert!(result.cancelled);
    assert!(result.answers.is_empty());
}

#[test]
fn test_elicit_other_option() {
    let questions = make_test_questions();
    // Option 3 is "Other" (2 options + 1)
    let (result, _output) = elicit_answers_with_io(&questions, "3\nCustom Auth Method\n").unwrap();

    assert!(!result.cancelled);
    assert!(matches!(result.get_answer(0), Some(Answer::Single(s)) if s == "Custom Auth Method"));
}

#[test]
fn test_elicit_multi_select_single() {
    let questions = make_multi_select_question();

    let (result, _output) = elicit_answers_with_io(&questions, "1\n").unwrap();

    assert!(!result.cancelled);
    match result.get_answer(0) {
        Some(Answer::Multiple(v)) => {
            assert_eq!(v.len(), 1);
            assert_eq!(v[0], "Logging");
        }
        _ => panic!("Expected Multiple answer"),
    }
}

#[test]
fn test_elicit_multi_select_multiple() {
    let questions = make_multi_select_question();

    let (result, _output) = elicit_answers_with_io(&questions, "1,3\n").unwrap();

    assert!(!result.cancelled);
    match result.get_answer(0) {
        Some(Answer::Multiple(v)) => {
            assert_eq!(v.len(), 2);
            assert!(v.contains(&"Logging".to_string()));
            assert!(v.contains(&"Caching".to_string()));
        }
        _ => panic!("Expected Multiple answer"),
    }
}

#[test]
fn test_elicit_multi_select_all() {
    let questions = make_multi_select_question();

    let (result, _output) = elicit_answers_with_io(&questions, "1,2,3\n").unwrap();

    assert!(!result.cancelled);
    match result.get_answer(0) {
        Some(Answer::Multiple(v)) => {
            assert_eq!(v.len(), 3);
        }
        _ => panic!("Expected Multiple answer"),
    }
}

#[test]
fn test_elicit_multi_select_with_other() {
    let questions = make_multi_select_question();
    // Option 4 is "Other" (3 options + 1)
    let (result, _output) = elicit_answers_with_io(&questions, "1,4\nCustom Feature\n").unwrap();

    assert!(!result.cancelled);
    match result.get_answer(0) {
        Some(Answer::Multiple(v)) => {
            assert_eq!(v.len(), 2);
            assert!(v.contains(&"Logging".to_string()));
            assert!(v.contains(&"Custom Feature".to_string()));
        }
        _ => panic!("Expected Multiple answer"),
    }
}

#[test]
fn test_elicit_invalid_selection() {
    let questions = make_test_questions();
    // Option 5 doesn't exist (only 1, 2, 3=Other, 0=Cancel)
    let result = elicit_answers_with_io(&questions, "5\n");

    assert!(matches!(result, Err(ElicitationError::InvalidSelection(0, 5))));
}

#[test]
fn test_elicit_multiple_not_allowed() {
    let questions = make_test_questions(); // single-select
    let result = elicit_answers_with_io(&questions, "1,2\n");

    assert!(matches!(result, Err(ElicitationError::MultipleSelectionsNotAllowed(0))));
}

#[test]
fn test_elicit_multiple_questions() {
    let questions = vec![
        make_question(
            "Which auth?",
            "Auth",
            false,
            vec![
                make_option("JWT", "Token-based"),
                make_option("OAuth", "Third-party"),
            ],
        ),
        make_question(
            "Which DB?",
            "Database",
            false,
            vec![
                make_option("Postgres", "Relational"),
                make_option("MongoDB", "Document"),
            ],
        ),
    ];
    // Answer 1 for first question, 2 for second
    let (result, _output) = elicit_answers_with_io(&questions, "1\n2\n").unwrap();

    assert!(!result.cancelled);
    assert_eq!(result.answers.len(), 2);
    assert!(matches!(result.get_answer(0), Some(Answer::Single(s)) if s == "JWT"));
    assert!(matches!(result.get_answer(1), Some(Answer::Single(s)) if s == "MongoDB"));
}

#[test]
fn test_elicit_cancel_midway() {
    let questions = vec![
        make_question(
            "Q1?",
            "First",
            false,
            vec![make_option("A", "Opt A"), make_option("B", "Opt B")],
        ),
        make_question(
            "Q2?",
            "Second",
            false,
            vec![make_option("C", "Opt C"), make_option("D", "Opt D")],
        ),
    ];
    // Answer first question, cancel on second
    let (result, _output) = elicit_answers_with_io(&questions, "1\n0\n").unwrap();

    // Should be cancelled with empty answers (cancel clears everything)
    assert!(result.cancelled);
    assert!(result.answers.is_empty());
}

#[test]
fn test_elicit_output_format() {
    let questions = make_test_questions();

    let (_result, output) = elicit_answers_with_io(&questions, "1\n").unwrap();

    assert!(output.contains("[Auth] Which auth method?"));
    assert!(output.contains("1) JWT - Token-based"));
    assert!(output.contains("2) OAuth - Third-party"));
    assert!(output.contains("3) Other - Provide custom input"));
    assert!(output.contains("0) Cancel"));
    assert!(output.contains("Select option:"));
}

#[test]
fn test_elicit_multi_select_prompt() {
    let questions = make_multi_select_question();

    let (_result, output) = elicit_answers_with_io(&questions, "1\n").unwrap();

    assert!(output.contains("Select options (comma-separated, e.g., 1,3):"));
}

#[test]
fn test_elicit_whitespace_input() {
    let questions = make_test_questions();

    let (result, _output) = elicit_answers_with_io(&questions, "  1  \n").unwrap();

    assert!(!result.cancelled);
    assert!(matches!(result.get_answer(0), Some(Answer::Single(s)) if s == "JWT"));
}

#[test]
fn test_elicit_multi_select_whitespace() {
    let questions = make_multi_select_question();

    let (result, _output) = elicit_answers_with_io(&questions, " 1 , 2 , 3 \n").unwrap();

    match result.get_answer(0) {
        Some(Answer::Multiple(v)) => assert_eq!(v.len(), 3),
        _ => panic!("Expected Multiple answer"),
    }
}
