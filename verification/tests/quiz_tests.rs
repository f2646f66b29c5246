use listing_core::quiz::{
    choices_for_question, choices_from_texts, count_correct, first_choice_id_for_question,
    group_questions, latest_created_on, MAnswer, MAnswerRequest, MMultipleChoice,
    MMultipleChoiceRequest, MQuestion, MQuestionRequest, MUser, MUserMultipleChoice,
    MUserMultipleChoiceRequest, MUserRequest,
};

fn choice(id: i64, text: &str, qid: i64) -> MMultipleChoice {
    MMultipleChoice {
        id: Some(id),
        multiple_choice: Some(text.to_string()),
        m_question_id: Some(qid),
    }
}

#[test]
fn choice_from_create_request_moves_fields() {
    let c = MMultipleChoice::from_create_request(MMultipleChoiceRequest {
        multiple_choice: Some("red".to_string()),
        m_question_id: Some(3),
    });
    assert_eq!(c.id, None);
    assert_eq!(c.multiple_choice, Some("red".to_string()));
    assert_eq!(c.m_question_id, Some(3));
}

#[test]
fn question_constructors() {
    let q = MQuestion::new("Why?".to_string());
    assert_eq!(q, MQuestion { id: None, question: Some("Why?".to_string()) });
    let q2 = MQuestion::from_create_request(MQuestionRequest { question: Some("How?".to_string()) });
    assert_eq!(q2.question, Some("How?".to_string()));
    assert_eq!(q2.id, None);
    let q3 = MQuestion::from_update_request(MQuestionRequest { question: Some("Who?".to_string()) }, q);
    assert_eq!(q3, MQuestion { id: None, question: Some("Who?".to_string()) });
}

#[test]
fn question_validation() {
    assert!(MQuestionRequest { question: Some("Why is it?".to_string()) }.validate().is_ok());
    assert!(MQuestionRequest { question: None }.validate().is_ok());
    let findings = MQuestionRequest { question: Some("ab".to_string()) }.validate().unwrap_err();
    assert_eq!(
        findings,
        vec![("question".to_string(), "must be greater than 3 chars".to_string())]
    );
}

#[test]
fn user_constructors() {
    let u = MUser::new("ann".to_string());
    assert_eq!(u, MUser { id: None, username: Some("ann".to_string()) });
    let u2 = MUser::from_create_request(MUserRequest { username: Some("bob".to_string()) });
    assert_eq!(u2.username, Some("bob".to_string()));
    let u3 = MUser::from_create_request(MUserRequest { username: None });
    assert_eq!(u3.username, Some(String::new()));
}

#[test]
fn user_validation() {
    assert!(MUserRequest { username: Some("ann".to_string()) }.validate().is_ok());
    assert!(MUserRequest { username: None }.validate().is_ok());
    let findings = MUserRequest { username: Some("ab".to_string()) }.validate().unwrap_err();
    assert_eq!(
        findings,
        vec![("username".to_string(), "username must be at least 3 chars".to_string())]
    );
}

#[test]
fn answer_constructors() {
    let a = MAnswer::new("red".to_string(), 2, 3);
    assert_eq!(
        a,
        MAnswer {
            id: None,
            answer: Some("red".to_string()),
            multiple_choice_id: Some(2),
            m_question_id: Some(3),
        }
    );
    let r = MAnswerRequest {
        answer: Some("blue".to_string()),
        multiple_choice_id: Some(4),
        m_question_id: Some(5),
    };
    let a2 = MAnswer::from_create_request(r);
    assert_eq!(a2.answer, Some("blue".to_string()));
    assert_eq!(a2.id, None);
    let r2 = MAnswerRequest {
        answer: Some("green".to_string()),
        multiple_choice_id: Some(6),
        m_question_id: Some(7),
    };
    let a3 = MAnswer::from_update_request(r2, a2);
    assert_eq!(a3.answer, Some("green".to_string()));
    assert_eq!(a3.multiple_choice_id, Some(6));
}

#[test]
fn answer_validation() {
    let ok = MAnswerRequest {
        answer: Some("x".to_string()),
        multiple_choice_id: None,
        m_question_id: None,
    };
    assert!(ok.validate().is_ok());
    let empty = MAnswerRequest {
        answer: Some(String::new()),
        multiple_choice_id: None,
        m_question_id: None,
    };
    let findings = empty.validate().unwrap_err();
    assert_eq!(findings, vec![("answer".to_string(), "cannot be empty".to_string())]);
}

#[test]
fn pick_from_create_request_is_stamped() {
    let r = MUserMultipleChoiceRequest {
        m_user_id: Some(1),
        m_question_id: Some(2),
        m_multiple_choice_id: Some(3),
    };
    let p = MUserMultipleChoice::from_create_request_at(r, 1700000000);
    assert_eq!(p.id, None);
    assert_eq!(p.m_user_id, Some(1));
    assert_eq!(p.m_question_id, Some(2));
    assert_eq!(p.m_multiple_choice_id, Some(3));
    assert_eq!(p.created_on, Some(1700000000));

    let r2 = MUserMultipleChoiceRequest {
        m_user_id: Some(4),
        m_question_id: Some(5),
        m_multiple_choice_id: Some(6),
    };
    let p2 = MUserMultipleChoice::from_create_request(r2);
    assert_eq!(p2.m_user_id, Some(4));
    assert!(p2.created_on.is_some());
}

#[test]
fn grouping_questions_with_their_choices() {
    let questions = vec![
        MQuestion { id: Some(1), question: Some("Color?".to_string()) },
        MQuestion { id: Some(2), question: Some("Shape?".to_string()) },
    ];
    let choices = vec![
        choice(10, "red", 1),
        choice(11, "round", 2),
        choice(12, "blue", 1),
    ];
    let grouped = group_questions(&questions, &choices);
    assert_eq!(grouped.len(), 2);
    assert_eq!(grouped[0].id, Some(1));
    assert_eq!(grouped[0].question, Some("Color?".to_string()));
    assert_eq!(grouped[0].multiple_choice, vec![choice(10, "red", 1), choice(12, "blue", 1)]);
    assert_eq!(grouped[1].id, Some(2));
    assert_eq!(grouped[1].multiple_choice, vec![choice(11, "round", 2)]);
}

#[test]
fn choices_of_an_unknown_question_are_empty() {
    let choices = vec![choice(10, "red", 1)];
    assert_eq!(choices_for_question(&choices, 9), Vec::new());
}

#[test]
fn first_choice_of_a_question() {
    let choices = vec![
        choice(10, "red", 1),
        choice(11, "round", 2),
        choice(12, "blue", 1),
    ];
    assert_eq!(first_choice_id_for_question(&choices, 1), 10);
    assert_eq!(first_choice_id_for_question(&choices, 2), 11);
    assert_eq!(first_choice_id_for_question(&choices, 9), 0);
}

#[test]
fn choice_texts_become_choices_under_the_question() {
    let texts = vec!["red".to_string(), "blue".to_string()];
    let out = choices_from_texts(&texts, Some(7));
    assert_eq!(out.len(), 2);
    assert_eq!(out[0], choice_without_id("red", 7));
    assert_eq!(out[1], choice_without_id("blue", 7));
}

fn choice_without_id(text: &str, qid: i64) -> MMultipleChoice {
    MMultipleChoice {
        id: None,
        multiple_choice: Some(text.to_string()),
        m_question_id: Some(qid),
    }
}

#[test]
fn scoring_counts_the_correct_picks() {
    assert_eq!(count_correct(&vec![true, false, true, true]), 3);
    assert_eq!(count_correct(&vec![false, false]), 0);
    assert_eq!(count_correct(&Vec::new()), 0);
}

#[test]
fn latest_pick_stamp_with_zero_floor() {
    let pick = |t: i64| MUserMultipleChoice {
        id: None,
        m_user_id: Some(1),
        m_question_id: Some(1),
        m_multiple_choice_id: Some(1),
        created_on: Some(t),
    };
    assert_eq!(latest_created_on(&vec![pick(5), pick(9), pick(2)]), 9);
    assert_eq!(latest_created_on(&Vec::new()), 0);
    assert_eq!(latest_created_on(&vec![pick(-3)]), 0);
}
