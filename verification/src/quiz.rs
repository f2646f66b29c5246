//! The quiz entities and the pure parts of their handlers: request
//! validation, grouping questions with their choices, picking the stored
//! answer of a question, and scoring a user's picks.

use vstd::prelude::*;
use vstd::string::*;

use crate::clock::current_timestamp;

verus! {

/// One choice offered under a question.
#[derive(Clone, Debug, PartialEq)]
pub struct MMultipleChoice {
    pub id: Option<i64>,
    pub multiple_choice: Option<String>,
    pub m_question_id: Option<i64>,
}

/// The create request for a choice.
#[derive(Clone, Debug, PartialEq)]
pub struct MMultipleChoiceRequest {
    pub multiple_choice: Option<String>,
    pub m_question_id: Option<i64>,
}

impl MMultipleChoice {
    /// The stored choice a create request becomes: no id yet, fields moved
    /// over.
    pub fn from_create_request(request: MMultipleChoiceRequest) -> (r: MMultipleChoice)
        ensures
            r == (MMultipleChoice {
                id: None,
                multiple_choice: request.multiple_choice,
                m_question_id: request.m_question_id,
            }),
    {
        MMultipleChoice {
            id: None,
            multiple_choice: request.multiple_choice,
            m_question_id: request.m_question_id,
        }
    }
}

/// One quiz question.
#[derive(Clone, Debug, PartialEq)]
pub struct MQuestion {
    pub id: Option<i64>,
    pub question: Option<String>,
}

/// The create/update request for a question: when a text is given it must
/// hold at least 3 characters.
#[derive(Clone, Debug, PartialEq)]
pub struct MQuestionRequest {
    pub question: Option<String>,
}

/// A question together with the choices offered under it.
#[derive(Clone, Debug, PartialEq)]
pub struct MQuestionResponse {
    pub id: Option<i64>,
    pub question: Option<String>,
    pub multiple_choice: Vec<MMultipleChoice>,
}

impl MQuestion {
    /// A fresh question with the given text and no id yet.
    pub fn new(question: String) -> (r: MQuestion)
        ensures
            r == (MQuestion { id: None, question: Some(question) }),
    {
        MQuestion { id: None, question: Some(question) }
    }

    /// The stored question a create request becomes.
    pub fn from_create_request(request: MQuestionRequest) -> (r: MQuestion)
        ensures
            r == (MQuestion { id: None, question: request.question }),
    {
        MQuestion { id: None, question: request.question }
    }

    /// The stored question an update request becomes; the existing record
    /// contributes nothing.
    pub fn from_update_request(request: MQuestionRequest, _existing: MQuestion) -> (r: MQuestion)
        ensures
            r == (MQuestion { id: None, question: request.question }),
    {
        MQuestion { id: None, question: request.question }
    }
}

impl MQuestionRequest {
    /// Checks the request: a given text must hold at least 3 characters.
    pub fn validate(&self) -> (res: Result<(), Vec<(String, String)>>)
        ensures
            match res {
                Ok(_) => !(self.question matches Some(q) && q@.len() < 3),
                Err(v) => {
                    &&& self.question matches Some(q) && q@.len() < 3
                    &&& v.deep_view() =~= seq![
                        ("question"@, "must be greater than 3 chars"@),
                    ]
                },
            },
    {
        match &self.question {
            Some(q) => {
                if q.as_str().unicode_len() < 3 {
                    let mut v: Vec<(String, String)> = Vec::new();
                    v.push(
                        (
                            String::from_str("question"),
                            String::from_str("must be greater than 3 chars"),
                        ),
                    );
                    return Err(v);
                }
                Ok(())
            },
            None => Ok(()),
        }
    }
}

/// One quiz user.
#[derive(Clone, Debug, PartialEq)]
pub struct MUser {
    pub id: Option<i64>,
    pub username: Option<String>,
}

/// The create request for a user: a given name must hold at least 3
/// characters.
#[derive(Clone, Debug, PartialEq)]
pub struct MUserRequest {
    pub username: Option<String>,
}

impl MUser {
    /// A fresh user with the given name and no id yet.
    pub fn new(username: String) -> (r: MUser)
        ensures
            r == (MUser { id: None, username: Some(username) }),
    {
        MUser { id: None, username: Some(username) }
    }

    /// The stored user a create request becomes: a missing name becomes
    /// the empty name.
    pub fn from_create_request(request: MUserRequest) -> (r: MUser)
        ensures
            r.id is None,
            r.username matches Some(u) && u@ == (match request.username {
                Some(name) => name@,
                None => Seq::<char>::empty(),
            }),
    {
        let mut username = String::new();
        if request.username.is_some() {
            username = request.username.unwrap();
        }
        MUser { id: None, username: Some(username) }
    }
}

impl MUserRequest {
    /// Checks the request: a given name must hold at least 3 characters.
    pub fn validate(&self) -> (res: Result<(), Vec<(String, String)>>)
        ensures
            match res {
                Ok(_) => !(self.username matches Some(u) && u@.len() < 3),
                Err(v) => {
                    &&& self.username matches Some(u) && u@.len() < 3
                    &&& v.deep_view() =~= seq![
                        ("username"@, "username must be at least 3 chars"@),
                    ]
                },
            },
    {
        match &self.username {
            Some(u) => {
                if u.as_str().unicode_len() < 3 {
                    let mut v: Vec<(String, String)> = Vec::new();
                    v.push(
                        (
                            String::from_str("username"),
                            String::from_str("username must be at least 3 chars"),
                        ),
                    );
                    return Err(v);
                }
                Ok(())
            },
            None => Ok(()),
        }
    }
}

/// The stored answer of a question: which choice is correct.
#[derive(Clone, Debug, PartialEq)]
pub struct MAnswer {
    pub id: Option<i64>,
    pub answer: Option<String>,
    pub multiple_choice_id: Option<i64>,
    pub m_question_id: Option<i64>,
}

/// The create/update request for an answer: a given text must not be
/// empty.
#[derive(Clone, Debug, PartialEq)]
pub struct MAnswerRequest {
    pub answer: Option<String>,
    pub multiple_choice_id: Option<i64>,
    pub m_question_id: Option<i64>,
}

impl MAnswer {
    /// A fresh answer tying a question to its correct choice.
    pub fn new(answer: String, mc_id: i64, q_id: i64) -> (r: MAnswer)
        ensures
            r == (MAnswer {
                id: None,
                answer: Some(answer),
                multiple_choice_id: Some(mc_id),
                m_question_id: Some(q_id),
            }),
    {
        MAnswer {
            id: None,
            answer: Some(answer),
            multiple_choice_id: Some(mc_id),
            m_question_id: Some(q_id),
        }
    }

    /// The stored answer a create request becomes.
    pub fn from_create_request(request: MAnswerRequest) -> (r: MAnswer)
        ensures
            r == (MAnswer {
                id: None,
                answer: request.answer,
                multiple_choice_id: request.multiple_choice_id,
                m_question_id: request.m_question_id,
            }),
    {
        MAnswer {
            id: None,
            answer: request.answer,
            multiple_choice_id: request.multiple_choice_id,
            m_question_id: request.m_question_id,
        }
    }

    /// The stored answer an update request becomes; the existing record
    /// contributes nothing.
    pub fn from_update_request(request: MAnswerRequest, _existing: MAnswer) -> (r: MAnswer)
        ensures
            r == (MAnswer {
                id: None,
                answer: request.answer,
                multiple_choice_id: request.multiple_choice_id,
                m_question_id: request.m_question_id,
            }),
    {
        MAnswer {
            id: None,
            answer: request.answer,
            multiple_choice_id: request.multiple_choice_id,
            m_question_id: request.m_question_id,
        }
    }
}

impl MAnswerRequest {
    /// Checks the request: a given text must not be empty.
    pub fn validate(&self) -> (res: Result<(), Vec<(String, String)>>)
        ensures
            match res {
                Ok(_) => !(self.answer matches Some(a) && a@.len() < 1),
                Err(v) => {
                    &&& self.answer matches Some(a) && a@.len() < 1
                    &&& v.deep_view() =~= seq![("answer"@, "cannot be empty"@)]
                },
            },
    {
        match &self.answer {
            Some(a) => {
                if a.as_str().unicode_len() < 1 {
                    let mut v: Vec<(String, String)> = Vec::new();
                    v.push((String::from_str("answer"), String::from_str("cannot be empty")));
                    return Err(v);
                }
                Ok(())
            },
            None => Ok(()),
        }
    }
}

/// One pick a user made for a question, stamped when it was made.
#[derive(Clone, Debug, PartialEq)]
pub struct MUserMultipleChoice {
    pub id: Option<i64>,
    pub m_user_id: Option<i64>,
    pub m_question_id: Option<i64>,
    pub m_multiple_choice_id: Option<i64>,
    pub created_on: Option<i64>,
}

/// The create request for a pick.
#[derive(Clone, Debug, PartialEq)]
pub struct MUserMultipleChoiceRequest {
    pub m_user_id: Option<i64>,
    pub m_question_id: Option<i64>,
    pub m_multiple_choice_id: Option<i64>,
}

impl MUserMultipleChoice {
    /// The stored pick a create request becomes, stamped with the given
    /// time.
    pub fn from_create_request_at(request: MUserMultipleChoiceRequest, now: i64) -> (r:
        MUserMultipleChoice)
        ensures
            r == (MUserMultipleChoice {
                id: None,
                m_user_id: request.m_user_id,
                m_question_id: request.m_question_id,
                m_multiple_choice_id: request.m_multiple_choice_id,
                created_on: Some(now),
            }),
    {
        MUserMultipleChoice {
            id: None,
            m_user_id: request.m_user_id,
            m_question_id: request.m_question_id,
            m_multiple_choice_id: request.m_multiple_choice_id,
            created_on: Some(now),
        }
    }

    /// Like [`MUserMultipleChoice::from_create_request_at`], stamped with
    /// the current wall-clock time.
    pub fn from_create_request(request: MUserMultipleChoiceRequest) -> (r: MUserMultipleChoice)
        ensures
            r.id is None,
            r.m_user_id == request.m_user_id,
            r.m_question_id == request.m_question_id,
            r.m_multiple_choice_id == request.m_multiple_choice_id,
            r.created_on is Some,
    {
        let now = current_timestamp();
        MUserMultipleChoice::from_create_request_at(request, now)
    }
}

/// The create request that stores one question with its answer and its
/// choices in one round trip.
#[derive(Clone, Debug, PartialEq)]
pub struct MQuestionAnswerRequest {
    pub question: Option<String>,
    pub multiple_choice: Vec<String>,
    pub correct_answer: Option<String>,
}

/// Copies one choice.
fn clone_choice(c: &MMultipleChoice) -> (r: MMultipleChoice)
    ensures
        r == *c,
{
    MMultipleChoice {
        id: c.id,
        multiple_choice: match &c.multiple_choice {
            Some(s) => Some(s.clone()),
            None => None,
        },
        m_question_id: c.m_question_id,
    }
}

/// The choices that sit under the question with the given id, in order.
pub open spec fn spec_choices_for(cs: Seq<MMultipleChoice>, qid: i64) -> Seq<MMultipleChoice>
    decreases cs.len(),
{
    if cs.len() == 0 {
        Seq::empty()
    } else {
        let rest = spec_choices_for(cs.drop_last(), qid);
        if cs.last().m_question_id == Some(qid) {
            rest.push(cs.last())
        } else {
            rest
        }
    }
}

/// Picks the choices of one question out of the full choice list.
pub fn choices_for_question(choices: &Vec<MMultipleChoice>, qid: i64) -> (r: Vec<
    MMultipleChoice,
>)
    requires
        forall|i: int| 0 <= i < choices@.len() ==> (#[trigger] choices@[i].m_question_id) is Some,
    ensures
        r@ == spec_choices_for(choices@, qid),
{
    let mut out: Vec<MMultipleChoice> = Vec::new();
    let mut k: usize = 0;
    proof {
        assert(choices@.subrange(0, 0) =~= Seq::<MMultipleChoice>::empty());
    }
    while k < choices.len()
        invariant
            k <= choices@.len(),
            out@ == spec_choices_for(choices@.subrange(0, k as int), qid),
            forall|i: int| 0 <= i < choices@.len() ==> (
            #[trigger] choices@[i].m_question_id) is Some,
        decreases choices@.len() - k,
    {
        proof {
            assert(choices@.subrange(0, k as int + 1).drop_last() =~= choices@.subrange(
                0,
                k as int,
            ));
        }
        let c = &choices[k];
        if c.m_question_id.unwrap() == qid {
            out.push(clone_choice(c));
        }
        k = k + 1;
    }
    proof {
        assert(choices@.subrange(0, choices@.len() as int) =~= choices@);
    }
    out
}

/// Groups every question with the choices that sit under it, in question
/// order.
pub fn group_questions(questions: &Vec<MQuestion>, choices: &Vec<MMultipleChoice>) -> (r: Vec<
    MQuestionResponse,
>)
    requires
        forall|i: int| 0 <= i < questions@.len() ==> (#[trigger] questions@[i].id) is Some,
        forall|i: int| 0 <= i < choices@.len() ==> (#[trigger] choices@[i].m_question_id) is Some,
    ensures
        r@.len() == questions@.len(),
        forall|i: int| 0 <= i < r@.len() ==> {
            &&& (#[trigger] r@[i]).id == questions@[i].id
            &&& r@[i].question == questions@[i].question
            &&& r@[i].multiple_choice@ == spec_choices_for(choices@, questions@[i].id.unwrap())
        },
{
    let mut out: Vec<MQuestionResponse> = Vec::new();
    let mut k: usize = 0;
    while k < questions.len()
        invariant
            k <= questions@.len(),
            out@.len() == k,
            forall|i: int| 0 <= i < questions@.len() ==> (#[trigger] questions@[i].id) is Some,
            forall|i: int| 0 <= i < choices@.len() ==> (
            #[trigger] choices@[i].m_question_id) is Some,
            forall|i: int| 0 <= i < k ==> {
                &&& (#[trigger] out@[i]).id == questions@[i].id
                &&& out@[i].question == questions@[i].question
                &&& out@[i].multiple_choice@ == spec_choices_for(
                    choices@,
                    questions@[i].id.unwrap(),
                )
            },
        decreases questions@.len() - k,
    {
        let q = &questions[k];
        let qid = q.id.unwrap();
        let picked = choices_for_question(choices, qid);
        let entry = MQuestionResponse {
            id: Some(qid),
            question: match &q.question {
                Some(text) => Some(text.clone()),
                None => None,
            },
            multiple_choice: picked,
        };
        out.push(entry);
        k = k + 1;
    }
    out
}

/// The id of the first choice that sits under the given question, or zero
/// when none does.
pub open spec fn spec_first_choice_id(cs: Seq<MMultipleChoice>, qid: i64) -> i64
    decreases cs.len(),
{
    if cs.len() == 0 {
        0
    } else if cs[0].m_question_id == Some(qid) {
        cs[0].id.unwrap()
    } else {
        spec_first_choice_id(cs.drop_first(), qid)
    }
}

/// Finds the first choice of a question; zero stands for none found.
pub fn first_choice_id_for_question(choices: &Vec<MMultipleChoice>, qid: i64) -> (r: i64)
    requires
        forall|i: int| 0 <= i < choices@.len() ==> (#[trigger] choices@[i].m_question_id) is Some,
        forall|i: int|
            0 <= i < choices@.len() && (#[trigger] choices@[i].m_question_id) == Some(qid)
                ==> choices@[i].id is Some,
    ensures
        r == spec_first_choice_id(choices@, qid),
{
    let mut k: usize = 0;
    proof {
        assert(choices@.skip(0) =~= choices@);
    }
    while k < choices.len()
        invariant
            k <= choices@.len(),
            spec_first_choice_id(choices@, qid) == spec_first_choice_id(
                choices@.skip(k as int),
                qid,
            ),
            forall|i: int| 0 <= i < choices@.len() ==> (
            #[trigger] choices@[i].m_question_id) is Some,
            forall|i: int|
                0 <= i < choices@.len() && (#[trigger] choices@[i].m_question_id) == Some(qid)
                    ==> choices@[i].id is Some,
        decreases choices@.len() - k,
    {
        let c = &choices[k];
        proof {
            assert(choices@.skip(k as int)[0] == choices@[k as int]);
            assert(choices@.skip(k as int).drop_first() =~= choices@.skip(k as int + 1));
        }
        if c.m_question_id.unwrap() == qid {
            return c.id.unwrap();
        }
        k = k + 1;
    }
    proof {
        assert(choices@.skip(choices@.len() as int) =~= Seq::<MMultipleChoice>::empty());
    }
    0
}

/// Turns the raw choice texts of a combined request into stored choices
/// under one question.
pub fn choices_from_texts(texts: &Vec<String>, question_id: Option<i64>) -> (r: Vec<
    MMultipleChoice,
>)
    ensures
        r@.len() == texts@.len(),
        forall|i: int|
            0 <= i < r@.len() ==> #[trigger] r@[i] == (MMultipleChoice {
                id: None,
                multiple_choice: Some(texts@[i]),
                m_question_id: question_id,
            }),
{
    let mut out: Vec<MMultipleChoice> = Vec::new();
    let mut k: usize = 0;
    while k < texts.len()
        invariant
            k <= texts@.len(),
            out@.len() == k,
            forall|i: int|
                0 <= i < k ==> #[trigger] out@[i] == (MMultipleChoice {
                    id: None,
                    multiple_choice: Some(texts@[i]),
                    m_question_id: question_id,
                }),
        decreases texts@.len() - k,
    {
        out.push(
            MMultipleChoice {
                id: None,
                multiple_choice: Some(texts[k].clone()),
                m_question_id: question_id,
            },
        );
        k = k + 1;
    }
    out
}

/// How many of a user's picks were found correct.
pub open spec fn spec_count_true(bs: Seq<bool>) -> int
    decreases bs.len(),
{
    if bs.len() == 0 {
        0
    } else {
        spec_count_true(bs.drop_last()) + if bs.last() {
            1int
        } else {
            0int
        }
    }
}

/// Counting never exceeds the number of picks.
pub proof fn lemma_count_true_bounds(bs: Seq<bool>)
    ensures
        0 <= spec_count_true(bs) <= bs.len(),
    decreases bs.len(),
{
    if bs.len() > 0 {
        lemma_count_true_bounds(bs.drop_last());
    }
}

/// Counts the picks that were found correct: one flag per pick, in pick
/// order, true where the stored answer matched.
pub fn count_correct(found: &Vec<bool>) -> (n: usize)
    ensures
        n == spec_count_true(found@),
        n <= found@.len(),
{
    proof {
        lemma_count_true_bounds(found@);
    }
    let mut n: usize = 0;
    let mut k: usize = 0;
    while k < found.len()
        invariant
            k <= found@.len(),
            n == spec_count_true(found@.subrange(0, k as int)),
            n <= k,
        decreases found@.len() - k,
    {
        proof {
            assert(found@.subrange(0, k as int + 1).drop_last() =~= found@.subrange(0, k as int));
            lemma_count_true_bounds(found@.subrange(0, k as int));
        }
        if found[k] {
            n = n + 1;
        }
        k = k + 1;
    }
    proof {
        assert(found@.subrange(0, found@.len() as int) =~= found@);
    }
    n
}

/// The latest stamp among a user's picks, with zero as the floor.
pub open spec fn spec_latest_created_on(items: Seq<MUserMultipleChoice>) -> int
    decreases items.len(),
{
    if items.len() == 0 {
        0
    } else {
        let rest = spec_latest_created_on(items.drop_last());
        if items.last().created_on.unwrap() > rest {
            items.last().created_on.unwrap() as int
        } else {
            rest
        }
    }
}

/// Finds when a user last picked: the latest stamp among the picks, or
/// zero for none.
pub fn latest_created_on(items: &Vec<MUserMultipleChoice>) -> (r: i64)
    requires
        forall|i: int| 0 <= i < items@.len() ==> (#[trigger] items@[i].created_on) is Some,
    ensures
        r == spec_latest_created_on(items@),
{
    let mut r: i64 = 0;
    let mut k: usize = 0;
    while k < items.len()
        invariant
            k <= items@.len(),
            r == spec_latest_created_on(items@.subrange(0, k as int)),
            forall|i: int| 0 <= i < items@.len() ==> (#[trigger] items@[i].created_on) is Some,
        decreases items@.len() - k,
    {
        proof {
            assert(items@.subrange(0, k as int + 1).drop_last() =~= items@.subrange(0, k as int));
        }
        let stamp = items[k].created_on.unwrap();
        if stamp > r {
            r = stamp;
        }
        k = k + 1;
    }
    proof {
        assert(items@.subrange(0, items@.len() as int) =~= items@);
    }
    r
}

} // verus!
