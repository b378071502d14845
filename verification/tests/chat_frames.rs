use acfunlive_neotool::error::{AggregationError, ApiError, Error, ProtocolViolation};
use acfunlive_neotool::session::{Delivery, Event, SessionState};
use acfunlive_neotool::spark::batch::{aggregate, check_frame};
use acfunlive_neotool::spark::session::{Action, ChatSession};
use acfunlive_neotool::spark::{
    Response, ResponseChoices, ResponseHeader, ResponsePayload, ResponseStatus, ResponseText,
    ResponseTokenStatistics, ResponseUsage, Role, SparkResponse, TokenStatistics,
};

fn usage(prompt: u32, completion: u32) -> ResponseUsage {
    ResponseUsage {
        text: ResponseTokenStatistics {
            question_tokens: 3,
            prompt_tokens: prompt,
            completion_tokens: completion,
            total_tokens: prompt + completion,
        },
    }
}

fn frame(
    outer: ResponseStatus,
    inner: ResponseStatus,
    seq: u32,
    texts: &[&str],
    usage: Option<ResponseUsage>,
) -> Response {
    Response {
        header: ResponseHeader {
            code: 0,
            message: String::from("Success"),
            sid: String::from("cht000"),
            status: outer,
        },
        payload: Some(ResponsePayload {
            choices: ResponseChoices {
                status: inner,
                seq,
                text: texts
                    .iter()
                    .enumerate()
                    .map(|(index, content)| ResponseText {
                        content: String::from(*content),
                        role: Role::Assistant,
                        index: index as i32,
                    })
                    .collect(),
            },
            usage,
        }),
    }
}

fn first(seq: u32, text: &str) -> Response {
    frame(ResponseStatus::Start, ResponseStatus::Start, seq, &[text], None)
}

fn middle(seq: u32, text: &str) -> Response {
    frame(ResponseStatus::Middle, ResponseStatus::Middle, seq, &[text], None)
}

fn last(seq: u32, text: &str) -> Response {
    frame(ResponseStatus::End, ResponseStatus::End, seq, &[text], Some(usage(10, 20)))
}

fn failure(code: i32, message: &str) -> Response {
    Response {
        header: ResponseHeader {
            code,
            message: String::from(message),
            sid: String::from("cht000"),
            status: ResponseStatus::End,
        },
        payload: None,
    }
}

fn tokens() -> TokenStatistics {
    TokenStatistics {
        prompt_tokens: 10,
        completion_tokens: 20,
        total_tokens: 30,
    }
}

fn open(delivery: Delivery) -> ChatSession {
    let mut session = ChatSession::new(delivery);
    assert_eq!(session.state(), SessionState::Connecting);
    assert_eq!(session.delivery(), delivery);
    assert_eq!(session.step(Event::Sent), Action::Receive);
    assert_eq!(session.state(), SessionState::Sent);
    session
}

#[test]
fn frame_ends_only_where_header_and_choices_end() {
    assert!(last(2, "x").is_end());
    assert!(!middle(1, "x").is_end());
    assert!(!frame(ResponseStatus::End, ResponseStatus::Middle, 1, &["x"], None).is_end());
    assert!(!frame(ResponseStatus::Middle, ResponseStatus::End, 1, &["x"], None).is_end());
    assert!(!failure(0, "").is_end());
}

#[test]
fn content_joins_the_texts_of_the_choices() {
    let several = frame(ResponseStatus::Middle, ResponseStatus::Middle, 1, &["你", "好", "!"], None);
    assert_eq!(several.content(), Some(String::from("你好!")));
    let none = frame(ResponseStatus::Middle, ResponseStatus::Middle, 1, &[], None);
    assert_eq!(none.content(), Some(String::new()));
    assert_eq!(failure(0, "").content(), None);
}

#[test]
fn token_statistics_come_from_the_usage() {
    assert_eq!(last(2, "x").token_statistics(), Some(tokens()));
    assert_eq!(middle(1, "x").token_statistics(), None);
    assert_eq!(failure(0, "").token_statistics(), None);
}

#[test]
fn defects_of_single_frames() {
    assert_eq!(check_frame(&middle(1, "x")), None);
    assert_eq!(check_frame(&last(1, "x")), None);
    assert_eq!(
        check_frame(&failure(10013, "blocked")),
        Some(Error::Api(ApiError {
            code: 10013,
            message: String::from("blocked"),
        }))
    );
    assert_eq!(
        check_frame(&failure(0, "Success")),
        Some(Error::Aggregation(AggregationError::MissingPayload))
    );
    assert_eq!(
        check_frame(&frame(ResponseStatus::End, ResponseStatus::Middle, 1, &["x"], None)),
        Some(Error::Protocol(ProtocolViolation::StatusMismatch))
    );
    assert_eq!(
        check_frame(&frame(ResponseStatus::End, ResponseStatus::End, 1, &["x"], None)),
        Some(Error::Aggregation(AggregationError::MissingUsage))
    );
    // The status of the service is judged before anything else.
    let mut both = frame(ResponseStatus::End, ResponseStatus::Middle, 1, &["x"], None);
    both.header.code = -1;
    assert!(matches!(check_frame(&both), Some(Error::Api(_))));
}

#[test]
fn incremental_session_hands_over_each_frame() {
    let mut session = open(Delivery::Incremental);
    assert_eq!(session.step(Event::Text(first(0, "Hel"))), Action::Deliver(String::from("Hel")));
    assert_eq!(session.state(), SessionState::Streaming);
    assert_eq!(session.step(Event::Text(middle(1, "lo, "))), Action::Deliver(String::from("lo, ")));
    assert_eq!(session.step(Event::Other), Action::Receive);
    assert_eq!(
        session.step(Event::Text(last(2, "world"))),
        Action::Finish(SparkResponse {
            content: String::from("world"),
            tokens: tokens(),
        })
    );
    assert_eq!(session.state(), SessionState::Done);
    assert_eq!(session.step(Event::Text(middle(3, "late"))), Action::Ignore);
    assert_eq!(session.step(Event::Closed), Action::Ignore);
    assert_eq!(session.state(), SessionState::Done);
}

#[test]
fn batched_session_hands_over_the_whole_answer_once() {
    let mut session = open(Delivery::Batched);
    assert_eq!(session.step(Event::Text(first(0, "Hel"))), Action::Receive);
    assert_eq!(session.step(Event::Text(middle(1, "lo, "))), Action::Receive);
    assert_eq!(session.state(), SessionState::Streaming);
    assert_eq!(
        session.step(Event::Text(last(2, "world"))),
        Action::Finish(SparkResponse {
            content: String::from("Hello, world"),
            tokens: tokens(),
        })
    );
    assert_eq!(session.state(), SessionState::Done);
}

#[test]
fn batched_session_sorts_frames_that_came_out_of_order() {
    let mut session = open(Delivery::Batched);
    assert_eq!(session.step(Event::Text(middle(1, "lo, "))), Action::Receive);
    assert_eq!(session.step(Event::Text(first(0, "Hel"))), Action::Receive);
    assert_eq!(
        session.step(Event::Text(last(2, "world"))),
        Action::Finish(SparkResponse {
            content: String::from("Hello, world"),
            tokens: tokens(),
        })
    );
}

#[test]
fn batched_session_fails_where_the_last_frame_is_not_last_in_order() {
    let mut session = open(Delivery::Batched);
    assert_eq!(session.step(Event::Text(first(0, "Hel"))), Action::Receive);
    assert_eq!(session.step(Event::Text(middle(5, "late"))), Action::Receive);
    assert_eq!(
        session.step(Event::Text(last(2, "world"))),
        Action::Fail(Error::Protocol(ProtocolViolation::TerminalOutOfOrder))
    );
    assert_eq!(session.state(), SessionState::Failed);
}

#[test]
fn end_in_header_but_not_in_choices_is_a_violation() {
    for delivery in [Delivery::Incremental, Delivery::Batched] {
        let mut session = open(delivery);
        assert_eq!(session.step(Event::Text(first(0, "Hel"))).clone(), match delivery {
            Delivery::Incremental => Action::Deliver(String::from("Hel")),
            Delivery::Batched => Action::Receive,
        });
        let torn = frame(ResponseStatus::End, ResponseStatus::Middle, 1, &["lo"], Some(usage(1, 2)));
        assert_eq!(
            session.step(Event::Text(torn)),
            Action::Fail(Error::Protocol(ProtocolViolation::StatusMismatch))
        );
        assert_eq!(session.state(), SessionState::Failed);
    }
}

#[test]
fn end_in_choices_but_not_in_header_goes_on() {
    let mut session = open(Delivery::Incremental);
    let early = frame(ResponseStatus::Middle, ResponseStatus::End, 1, &["lo"], None);
    assert_eq!(session.step(Event::Text(early)), Action::Deliver(String::from("lo")));
    assert_eq!(session.state(), SessionState::Streaming);
}

#[test]
fn api_error_fails_the_session_at_any_position() {
    for delivery in [Delivery::Incremental, Delivery::Batched] {
        for before in 0..3 {
            let mut session = open(delivery);
            for seq in 0..before {
                session.step(Event::Text(middle(seq, "x")));
            }
            assert_eq!(
                session.step(Event::Text(failure(11200, "no licence"))),
                Action::Fail(Error::Api(ApiError {
                    code: 11200,
                    message: String::from("no licence"),
                }))
            );
            assert_eq!(session.state(), SessionState::Failed);
            assert_eq!(session.step(Event::Text(last(9, "more"))), Action::Ignore);
            assert_eq!(session.step(Event::Text(failure(1, "again"))), Action::Ignore);
            assert_eq!(session.state(), SessionState::Failed);
        }
    }
}

#[test]
fn missing_payload_and_missing_usage_fail_the_session() {
    let mut session = open(Delivery::Incremental);
    assert_eq!(
        session.step(Event::Text(failure(0, "Success"))),
        Action::Fail(Error::Aggregation(AggregationError::MissingPayload))
    );
    let mut session = open(Delivery::Incremental);
    let bare = frame(ResponseStatus::End, ResponseStatus::End, 0, &["x"], None);
    assert_eq!(
        session.step(Event::Text(bare)),
        Action::Fail(Error::Aggregation(AggregationError::MissingUsage))
    );
    assert_eq!(session.state(), SessionState::Failed);
}

#[test]
fn other_events_of_an_open_session() {
    let mut session = open(Delivery::Incremental);
    assert_eq!(
        session.step(Event::Binary),
        Action::Fail(Error::Protocol(ProtocolViolation::BinaryFrame))
    );
    assert_eq!(session.state(), SessionState::Failed);
    let mut session = open(Delivery::Incremental);
    assert_eq!(
        session.step(Event::Closed),
        Action::Fail(Error::Aggregation(AggregationError::MissingCompletion))
    );
    let mut session = open(Delivery::Batched);
    session.step(Event::Text(middle(0, "x")));
    assert_eq!(
        session.step(Event::Closed),
        Action::Fail(Error::Aggregation(AggregationError::MissingCompletion))
    );
    let mut session = open(Delivery::Incremental);
    assert_eq!(session.step(Event::SerializationFailed), Action::Fail(Error::Serialization));
    let mut session = open(Delivery::Incremental);
    assert_eq!(session.step(Event::TransportFailed), Action::Fail(Error::Transport));
    let mut session = open(Delivery::Incremental);
    assert_eq!(session.step(Event::Sent), Action::Ignore);
    assert_eq!(session.state(), SessionState::Sent);
    assert_eq!(session.step(Event::Other), Action::Receive);
    assert_eq!(session.state(), SessionState::Streaming);
}

#[test]
fn events_before_the_request_is_sent() {
    let mut session = ChatSession::new(Delivery::Incremental);
    assert_eq!(session.step(Event::Text(middle(0, "x"))), Action::Ignore);
    assert_eq!(session.step(Event::Binary), Action::Ignore);
    assert_eq!(session.step(Event::Closed), Action::Ignore);
    assert_eq!(session.step(Event::Other), Action::Ignore);
    assert_eq!(session.state(), SessionState::Connecting);
    assert_eq!(session.step(Event::TransportFailed), Action::Fail(Error::Transport));
    assert_eq!(session.state(), SessionState::Failed);
    let mut session = ChatSession::new(Delivery::Batched);
    assert_eq!(session.step(Event::SerializationFailed), Action::Fail(Error::Serialization));
    assert_eq!(session.state(), SessionState::Failed);
    assert_eq!(session.step(Event::Sent), Action::Ignore);
}

#[test]
fn states_that_are_over_and_states_that_are_open() {
    assert!(SessionState::Done.is_terminal());
    assert!(SessionState::Failed.is_terminal());
    assert!(!SessionState::Connecting.is_terminal());
    assert!(!SessionState::Sent.is_terminal());
    assert!(!SessionState::Streaming.is_terminal());
    assert!(SessionState::Sent.is_open());
    assert!(SessionState::Streaming.is_open());
    assert!(!SessionState::Connecting.is_open());
    assert!(!SessionState::Done.is_open());
    assert!(!SessionState::Failed.is_open());
}

#[test]
fn aggregate_sorts_by_sequence_number() {
    let batch = vec![last(3, "d"), middle(1, "b"), first(0, "a"), middle(2, "c")];
    assert_eq!(
        aggregate(&batch),
        Ok(SparkResponse {
            content: String::from("abcd"),
            tokens: tokens(),
        })
    );
}

#[test]
fn aggregate_of_an_out_of_order_batch_equals_delivery_in_order() {
    let in_order = vec![first(0, "The "), middle(1, "quick "), middle(2, "brown "), last(3, "fox")];
    let batch = vec![
        in_order[2].clone(),
        in_order[3].clone(),
        in_order[0].clone(),
        in_order[1].clone(),
    ];
    let mut session = open(Delivery::Incremental);
    let mut delivered = String::new();
    let mut counted = None;
    for frame in in_order {
        match session.step(Event::Text(frame)) {
            Action::Deliver(text) => delivered.push_str(&text),
            Action::Finish(answer) => {
                delivered.push_str(&answer.content);
                counted = Some(answer.tokens);
            }
            other => panic!("{other:?}"),
        }
    }
    let answer = aggregate(&batch).unwrap();
    assert_eq!(answer.content, delivered);
    assert_eq!(answer.content, "The quick brown fox");
    assert_eq!(Some(answer.tokens), counted);
    assert_eq!(answer.tokens, tokens());
}

#[test]
fn aggregate_keeps_frames_of_one_number_in_the_order_they_came() {
    let batch = vec![middle(1, "x"), middle(0, "a"), middle(1, "y"), last(1, "z")];
    assert_eq!(aggregate(&batch).unwrap().content, "axyz");
}

#[test]
fn aggregate_failures() {
    assert_eq!(
        aggregate(&Vec::new()),
        Err(Error::Aggregation(AggregationError::EmptyResponses))
    );
    assert_eq!(
        aggregate(&vec![first(0, "a"), middle(1, "b")]),
        Err(Error::Aggregation(AggregationError::MissingCompletion))
    );
    assert_eq!(
        aggregate(&vec![first(0, "a"), last(1, "b"), middle(2, "c")]),
        Err(Error::Protocol(ProtocolViolation::TerminalOutOfOrder))
    );
    assert_eq!(
        aggregate(&vec![last(1, "b"), last(2, "c")]),
        Err(Error::Protocol(ProtocolViolation::TerminalOutOfOrder))
    );
    assert_eq!(
        aggregate(&vec![first(0, "a"), failure(0, "Success"), last(2, "c")]),
        Err(Error::Aggregation(AggregationError::MissingPayload))
    );
    assert_eq!(
        aggregate(&vec![
            first(0, "a"),
            failure(7, "first"),
            failure(8, "second"),
            last(2, "c")
        ]),
        Err(Error::Api(ApiError {
            code: 7,
            message: String::from("first"),
        }))
    );
    assert_eq!(
        aggregate(&vec![
            frame(ResponseStatus::End, ResponseStatus::Start, 0, &["a"], None),
            last(2, "c")
        ]),
        Err(Error::Protocol(ProtocolViolation::StatusMismatch))
    );
    assert_eq!(
        aggregate(&vec![frame(ResponseStatus::End, ResponseStatus::End, 0, &["a"], None)]),
        Err(Error::Aggregation(AggregationError::MissingUsage))
    );
}

#[test]
fn aggregate_of_a_single_last_frame() {
    assert_eq!(
        aggregate(&vec![last(0, "all")]),
        Ok(SparkResponse {
            content: String::from("all"),
            tokens: tokens(),
        })
    );
}
