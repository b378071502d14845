//! What holds of chat sessions and of the combining of frames, whatever the
//! frames are.

use crate::error::{ApiError, Error, ProtocolViolation, ValidationError};
use crate::session::{text_events, Delivery, Event, SessionState};
use crate::spark::batch::{
    aggregated, batch_text, ends_early, first_defect, frame_defect, frame_text, insert_by_seq,
    lemma_no_defect, ordered_by_seq, sequence_number, sort_by_seq,
};
use crate::spark::data::{Response, ResponseStatus, SparkRequest};
use crate::spark::session::{chat_next, chat_run, delivered, ActionView, ChatSessionView};
use vstd::prelude::*;

verus! {

/// A request that breaks a rule is rejected, and the rule that the rejection
/// names is one that the request breaks: the first, in the order in which
/// the rules are checked.
pub proof fn lemma_rejection_names_a_broken_rule(request: SparkRequest)
    ensures
        request.violation() is Some <==> (request.credentials_empty() || request.uid_too_long()
            || request.temperature_out_of_range() || request.max_tokens_out_of_range()
            || request.top_k_out_of_range() || request.content_too_long()),
        request.violation() == Some(ValidationError::EmptyCredentials)
            ==> request.credentials_empty(),
        request.violation() == Some(ValidationError::UidTooLong) ==> request.uid_too_long(),
        request.violation() == Some(ValidationError::TemperatureOutOfRange)
            ==> request.temperature_out_of_range(),
        request.violation() == Some(ValidationError::MaxTokensOutOfRange)
            ==> request.max_tokens_out_of_range(),
        request.violation() == Some(ValidationError::TopKOutOfRange)
            ==> request.top_k_out_of_range(),
        request.violation() == Some(ValidationError::ContentTooLong) ==> request.content_too_long(),
{
}

/// Inserting a frame adds that frame and no other, and keeps an order.
proof fn lemma_insert(sorted: Seq<Response>, frame: Response)
    ensures
        insert_by_seq(sorted, frame).len() == sorted.len() + 1,
        insert_by_seq(sorted, frame).to_multiset() == sorted.to_multiset().insert(frame),
        forall|i: int|
            0 <= i < sorted.len() + 1 ==> {
                let found = #[trigger] insert_by_seq(sorted, frame)[i];
                found == frame || sorted.contains(found)
            },
        ordered_by_seq(sorted) ==> ordered_by_seq(insert_by_seq(sorted, frame)),
    decreases sorted.len(),
{
    broadcast use vstd::seq_lib::to_multiset_build;
    broadcast use vstd::multiset::group_multiset_axioms;

    let inserted = insert_by_seq(sorted, frame);
    if sorted.len() == 0 {
        assert(inserted =~= sorted.push(frame));
    } else if sequence_number(sorted.last()) <= sequence_number(frame) {
        assert forall|i: int| 0 <= i < sorted.len() + 1 implies {
            let found = #[trigger] inserted[i];
            found == frame || sorted.contains(found)
        } by {
            if i < sorted.len() {
                assert(sorted[i] == inserted[i]);
            }
        }
    } else {
        let front = sorted.drop_last();
        let before = insert_by_seq(front, frame);
        lemma_insert(front, frame);
        assert(sorted =~= front.push(sorted.last()));
        assert(sorted.to_multiset() =~= front.to_multiset().insert(sorted.last()));
        assert(inserted.to_multiset() =~= sorted.to_multiset().insert(frame));
        assert forall|i: int| 0 <= i < sorted.len() + 1 implies {
            let found = #[trigger] inserted[i];
            found == frame || sorted.contains(found)
        } by {
            if i < sorted.len() {
                let found = before[i];
                if found != frame {
                    let k = choose|k: int| 0 <= k < front.len() && front[k] == found;
                    assert(sorted[k] == found);
                }
            } else {
                assert(sorted[sorted.len() - 1] == inserted[i]);
            }
        }
        if ordered_by_seq(sorted) {
            assert forall|i: int, j: int| 0 <= i <= j < front.len() implies sequence_number(
                #[trigger] front[i],
            ) <= sequence_number(#[trigger] front[j]) by {
                assert(front[i] == sorted[i] && front[j] == sorted[j]);
            }
            assert forall|i: int, j: int| 0 <= i <= j < inserted.len() implies sequence_number(
                #[trigger] inserted[i],
            ) <= sequence_number(#[trigger] inserted[j]) by {
                if j < before.len() {
                    assert(inserted[i] == before[i] && inserted[j] == before[j]);
                } else if i < before.len() {
                    let found = before[i];
                    assert(inserted[i] == found);
                    if found != frame {
                        let k = choose|k: int| 0 <= k < front.len() && front[k] == found;
                        assert(sorted[k] == found);
                        assert(sequence_number(sorted[k]) <= sequence_number(
                            sorted[sorted.len() - 1],
                        ));
                    }
                }
            }
        }
    }
}

/// Sorting keeps every frame, as often as it came, and adds none; and the
/// sequence numbers of the sorted frames never fall.
pub proof fn lemma_sort_by_seq(frames: Seq<Response>)
    ensures
        sort_by_seq(frames).len() == frames.len(),
        sort_by_seq(frames).to_multiset() == frames.to_multiset(),
        forall|i: int| 0 <= i < frames.len() ==> frames.contains(#[trigger] sort_by_seq(frames)[i]),
        ordered_by_seq(sort_by_seq(frames)),
    decreases frames.len(),
{
    broadcast use vstd::seq_lib::to_multiset_build;

    if frames.len() == 0 {
        assert(frames =~= Seq::empty());
    } else {
        let front = frames.drop_last();
        lemma_sort_by_seq(front);
        lemma_insert(sort_by_seq(front), frames.last());
        assert(frames =~= front.push(frames.last()));
        assert(front.push(frames.last()).to_multiset() =~= front.to_multiset().insert(
            frames.last(),
        ));
        assert forall|i: int| 0 <= i < frames.len() implies frames.contains(
            #[trigger] sort_by_seq(frames)[i],
        ) by {
            let found = sort_by_seq(frames)[i];
            if found == frames.last() {
                assert(frames[frames.len() - 1] == found);
            } else {
                let k = choose|k: int| 0 <= k < front.len() && sort_by_seq(front)[k] == found;
                let j = choose|j: int| 0 <= j < front.len() && front[j] == found;
                assert(frames[j] == found);
            }
        }
    }
}

/// Frames whose sequence numbers never fall are sorted already.
pub proof fn lemma_sorted_frames_stay(frames: Seq<Response>)
    requires
        ordered_by_seq(frames),
    ensures
        sort_by_seq(frames) == frames,
    decreases frames.len(),
{
    if frames.len() == 0 {
        assert(frames =~= Seq::empty());
    } else {
        let front = frames.drop_last();
        assert forall|i: int, j: int| 0 <= i <= j < front.len() implies sequence_number(
            #[trigger] front[i],
        ) <= sequence_number(#[trigger] front[j]) by {
            assert(front[i] == frames[i] && front[j] == frames[j]);
        }
        lemma_sorted_frames_stay(front);
        if front.len() > 0 {
            assert(front.last() == frames[frames.len() - 2]);
            assert(sequence_number(frames[frames.len() - 2]) <= sequence_number(
                frames[frames.len() - 1],
            ));
        }
        assert(insert_by_seq(front, frames.last()) =~= front.push(frames.last()));
        assert(frames =~= front.push(frames.last()));
    }
}

/// Whether no two of the frames carry the same sequence number.
pub open spec fn distinct_numbers(frames: Seq<Response>) -> bool {
    forall|i: int, j: int|
        0 <= i < j < frames.len() ==> sequence_number(#[trigger] frames[i]) != sequence_number(
            #[trigger] frames[j],
        )
}

/// Two sequences of the same frames, both in the order of their sequence
/// numbers, are the same sequence where no number comes twice.
proof fn lemma_one_order(first: Seq<Response>, second: Seq<Response>)
    requires
        first.to_multiset() == second.to_multiset(),
        ordered_by_seq(first),
        ordered_by_seq(second),
        distinct_numbers(first),
    ensures
        first == second,
    decreases first.len(),
{
    broadcast use vstd::seq_lib::group_to_multiset_ensures;
    broadcast use vstd::multiset::group_multiset_axioms;

    assert(first.to_multiset().len() == first.len());
    assert(second.to_multiset().len() == second.len());
    if first.len() == 0 {
        assert(first =~= second);
    } else {
        let n = first.len() - 1;
        assert(first.to_multiset().contains(first[n]));
        assert(second.to_multiset().contains(second[n]));
        let j = choose|j: int| 0 <= j < second.len() && second[j] == first[n];
        let i = choose|i: int| 0 <= i < first.len() && first[i] == second[n];
        assert(sequence_number(second[j]) <= sequence_number(second[n]));
        assert(sequence_number(first[i]) <= sequence_number(first[n]));
        assert(i == n);
        let first_front = first.drop_last();
        let second_front = second.drop_last();
        assert(first.remove(n) =~= first_front);
        assert(second.remove(n) =~= second_front);
        assert(first_front.to_multiset() =~= first.to_multiset().remove(first[n]));
        assert(second_front.to_multiset() =~= second.to_multiset().remove(second[n]));
        assert forall|a: int, b: int| 0 <= a <= b < first_front.len() implies sequence_number(
            #[trigger] first_front[a],
        ) <= sequence_number(#[trigger] first_front[b]) by {
            assert(first_front[a] == first[a] && first_front[b] == first[b]);
        }
        assert forall|a: int, b: int| 0 <= a <= b < second_front.len() implies sequence_number(
            #[trigger] second_front[a],
        ) <= sequence_number(#[trigger] second_front[b]) by {
            assert(second_front[a] == second[a] && second_front[b] == second[b]);
        }
        assert forall|a: int, b: int| 0 <= a < b < first_front.len() implies sequence_number(
            #[trigger] first_front[a],
        ) != sequence_number(#[trigger] first_front[b]) by {
            assert(first_front[a] == first[a] && first_front[b] == first[b]);
        }
        lemma_one_order(first_front, second_front);
        assert(first =~= first_front.push(first[n]));
        assert(second =~= second_front.push(second[n]));
    }
}

/// Frames none of which has a defect have no first defect.
proof fn lemma_no_first_defect(frames: Seq<Response>)
    requires
        forall|i: int| 0 <= i < frames.len() ==> frame_defect(#[trigger] frames[i]) is None,
    ensures
        first_defect(frames) is None,
    decreases frames.len(),
{
    if frames.len() > 0 {
        let front = frames.drop_last();
        assert forall|i: int| 0 <= i < front.len() implies frame_defect(#[trigger] front[i])
            is None by {
            assert(front[i] == frames[i]);
        }
        lemma_no_first_defect(front);
        assert(frame_defect(frames[frames.len() - 1]) is None);
    }
}

/// The order in which frames came does not matter to what they combine to,
/// where no frame has a defect and no sequence number comes twice.
pub proof fn lemma_arrival_order_is_irrelevant(first: Seq<Response>, second: Seq<Response>)
    requires
        first.to_multiset() == second.to_multiset(),
        first_defect(first) is None,
        distinct_numbers(first),
    ensures
        aggregated(first) == aggregated(second),
{
    broadcast use vstd::seq_lib::group_to_multiset_ensures;

    lemma_sort_by_seq(first);
    lemma_sort_by_seq(second);
    assert(first.to_multiset().len() == first.len());
    assert(second.to_multiset().len() == second.len());
    assert forall|i: int| 0 <= i < second.len() implies frame_defect(#[trigger] second[i])
        is None by {
        assert(second.to_multiset().contains(second[i]));
        let k = choose|k: int| 0 <= k < first.len() && first[k] == second[i];
        lemma_no_defect(first, k);
    }
    lemma_no_first_defect(second);
    let sorted = sort_by_seq(first);
    assert forall|i: int, j: int| 0 <= i < j < sorted.len() implies sequence_number(
        #[trigger] sorted[i],
    ) != sequence_number(#[trigger] sorted[j]) by {
        if sequence_number(sorted[i]) == sequence_number(sorted[j]) {
            lemma_same_number_same_frame(first, sorted[i], sorted[j]);
            lemma_counts_twice(sorted, i, j);
            lemma_counts_once(first, sorted[i]);
        }
    }
    lemma_one_order(sorted, sort_by_seq(second));
}

/// Among frames with distinct numbers, two frames with one number are one
/// frame.
proof fn lemma_same_number_same_frame(frames: Seq<Response>, one: Response, other: Response)
    requires
        distinct_numbers(frames),
        frames.contains(one),
        frames.contains(other),
        sequence_number(one) == sequence_number(other),
    ensures
        one == other,
{
    let i = choose|i: int| 0 <= i < frames.len() && frames[i] == one;
    let j = choose|j: int| 0 <= j < frames.len() && frames[j] == other;
    if i < j {
        assert(sequence_number(frames[i]) != sequence_number(frames[j]));
    } else if j < i {
        assert(sequence_number(frames[j]) != sequence_number(frames[i]));
    }
}

/// A frame that stands at two places of a sequence counts twice in it.
proof fn lemma_counts_twice(frames: Seq<Response>, i: int, j: int)
    requires
        0 <= i < j < frames.len(),
        frames[i] == frames[j],
    ensures
        frames.to_multiset().count(frames[i]) >= 2,
{
    broadcast use vstd::seq_lib::group_to_multiset_ensures;
    broadcast use vstd::multiset::group_multiset_axioms;

    let frame = frames[i];
    let rest = frames.remove(j);
    assert(rest.to_multiset() =~= frames.to_multiset().remove(frame));
    assert(rest[i] == frame);
    assert(rest.to_multiset().contains(frame));
}

/// A frame counts at most once among frames with distinct numbers.
proof fn lemma_counts_once(frames: Seq<Response>, frame: Response)
    requires
        distinct_numbers(frames),
    ensures
        frames.to_multiset().count(frame) <= 1,
    decreases frames.len(),
{
    broadcast use vstd::seq_lib::group_to_multiset_ensures;
    broadcast use vstd::multiset::group_multiset_axioms;

    if frames.len() == 0 {
        assert(frames.to_multiset().len() == 0);
    } else {
        let n = frames.len() - 1;
        let front = frames.drop_last();
        assert(frames.remove(n) =~= front);
        assert(front.to_multiset() =~= frames.to_multiset().remove(frames[n]));
        assert forall|a: int, b: int| 0 <= a < b < front.len() implies sequence_number(
            #[trigger] front[a],
        ) != sequence_number(#[trigger] front[b]) by {
            assert(front[a] == frames[a] && front[b] == frames[b]);
        }
        lemma_counts_once(front, frame);
        if frames[n] == frame {
            if front.to_multiset().count(frame) > 0 {
                assert(front.to_multiset().contains(frame));
                let k = choose|k: int| 0 <= k < front.len() && front[k] == frame;
                assert(frames[k] == frame);
                assert(sequence_number(frames[k]) != sequence_number(frames[n]));
            }
        }
    }
}

/// A session that is over stays as it is, whatever comes in, and ignores it.
pub proof fn lemma_over_is_over(session: ChatSessionView, events: Seq<Event<Response>>)
    requires
        session.state.spec_is_terminal(),
    ensures
        chat_run(session, events).0 == session,
        chat_run(session, events).1 == Seq::new(events.len(), |i: int| ActionView::Ignore),
    decreases events.len(),
{
    if events.len() > 0 {
        lemma_over_is_over(session, events.drop_last());
    }
    assert(chat_run(session, events).1 =~= Seq::new(events.len(), |i: int| ActionView::Ignore));
}

/// A frame with a status other than zero fails an open session at once,
/// with that status and its message, and nothing that comes after it is
/// looked at.
pub proof fn lemma_api_error_ends_session(
    session: ChatSessionView,
    frame: Response,
    rest: Seq<Event<Response>>,
)
    requires
        session.state.spec_is_open(),
        frame.header.code != 0,
    ensures
        chat_next(session, Event::Text(frame)) == (
            session.at(SessionState::Failed),
            ActionView::Fail(
                Error::Api(ApiError { code: frame.header.code, message: frame.header.message }),
            ),
        ),
        chat_run(session.at(SessionState::Failed), rest) == (
            session.at(SessionState::Failed),
            Seq::new(rest.len(), |i: int| ActionView::Ignore),
        ),
{
    lemma_over_is_over(session.at(SessionState::Failed), rest);
}

/// A frame whose header ends the answer while its choices do not fails an
/// open session as a violation of the protocol.
pub proof fn lemma_status_mismatch_fails_session(session: ChatSessionView, frame: Response)
    requires
        session.state.spec_is_open(),
        frame.header.code == 0,
        frame.header.status == ResponseStatus::End,
        frame.payload matches Some(payload) && payload.choices.status != ResponseStatus::End,
    ensures
        chat_next(session, Event::Text(frame)) == (
            session.at(SessionState::Failed),
            ActionView::Fail(Error::Protocol(ProtocolViolation::StatusMismatch)),
        ),
{
}

/// Frames without a defect that do not end the answer are handed over one
/// by one by an incremental session, which stays open.
proof fn lemma_streaming_run(session: ChatSessionView, frames: Seq<Response>)
    requires
        session.state.spec_is_open(),
        session.delivery == Delivery::Incremental,
        forall|i: int|
            0 <= i < frames.len() ==> frame_defect(#[trigger] frames[i]) is None
                && !frames[i].spec_is_end(),
    ensures
        chat_run(session, text_events(frames)).0.state.spec_is_open(),
        chat_run(session, text_events(frames)).0.delivery == Delivery::Incremental,
        chat_run(session, text_events(frames)).1.len() == frames.len(),
        delivered(chat_run(session, text_events(frames)).1) == batch_text(frames),
    decreases frames.len(),
{
    if frames.len() > 0 {
        let front = frames.drop_last();
        assert(text_events(frames).drop_last() =~= text_events(front));
        assert forall|i: int| 0 <= i < front.len() implies frame_defect(#[trigger] front[i])
            is None && !front[i].spec_is_end() by {
            assert(front[i] == frames[i]);
        }
        lemma_streaming_run(session, front);
        assert(frame_defect(frames[frames.len() - 1]) is None);
        let actions = chat_run(session, text_events(frames)).1;
        assert(actions.drop_last() =~= chat_run(session, text_events(front)).1);
    }
}

/// Frames without a defect that do not end the answer are kept by a batched
/// session, which stays open and hands nothing over.
proof fn lemma_keeping_run(session: ChatSessionView, frames: Seq<Response>)
    requires
        session.state.spec_is_open(),
        session.delivery == Delivery::Batched,
        forall|i: int|
            0 <= i < frames.len() ==> frame_defect(#[trigger] frames[i]) is None
                && !frames[i].spec_is_end(),
    ensures
        chat_run(session, text_events(frames)).0.state.spec_is_open(),
        chat_run(session, text_events(frames)).0.delivery == Delivery::Batched,
        chat_run(session, text_events(frames)).0.frames == session.frames + frames,
        chat_run(session, text_events(frames)).1 == Seq::new(
            frames.len(),
            |i: int| ActionView::Receive,
        ),
    decreases frames.len(),
{
    if frames.len() == 0 {
        assert(session.frames + frames =~= session.frames);
        assert(chat_run(session, text_events(frames)).1 =~= Seq::new(
            frames.len(),
            |i: int| ActionView::Receive,
        ));
    } else {
        let front = frames.drop_last();
        assert(text_events(frames).drop_last() =~= text_events(front));
        assert forall|i: int| 0 <= i < front.len() implies frame_defect(#[trigger] front[i])
            is None && !front[i].spec_is_end() by {
            assert(front[i] == frames[i]);
        }
        lemma_keeping_run(session, front);
        assert(frame_defect(frames[frames.len() - 1]) is None);
        assert((session.frames + front).push(frames.last()) =~= session.frames + frames);
        assert(chat_run(session, text_events(frames)).1 =~= Seq::new(
            frames.len(),
            |i: int| ActionView::Receive,
        ));
    }
}

/// A batched session hands over once, with the frame that ends the answer,
/// and what it hands over is what the frames combine to. This holds where
/// no frame has a defect and only the last that came ends the answer.
pub proof fn lemma_batched_session_hands_over_once(session: ChatSessionView, frames: Seq<Response>)
    requires
        session.state.spec_is_open(),
        session.delivery == Delivery::Batched,
        session.frames.len() == 0,
        frames.len() > 0,
        forall|i: int| 0 <= i < frames.len() ==> frame_defect(#[trigger] frames[i]) is None,
        forall|i: int| 0 <= i < frames.len() - 1 ==> !(#[trigger] frames[i]).spec_is_end(),
        frames.last().spec_is_end(),
    ensures
        chat_run(session, text_events(frames)).0.state.spec_is_terminal(),
        chat_run(session, text_events(frames)).1 == Seq::new(
            frames.len(),
            |i: int|
                if i < frames.len() - 1 {
                    ActionView::Receive
                } else {
                    match aggregated(frames) {
                        Ok((text, tokens)) => ActionView::Finish(text, tokens),
                        Err(error) => ActionView::Fail(error),
                    }
                },
        ),
{
    let front = frames.drop_last();
    assert(text_events(frames).drop_last() =~= text_events(front));
    assert forall|i: int| 0 <= i < front.len() implies frame_defect(#[trigger] front[i]) is None
        && !front[i].spec_is_end() by {
        assert(front[i] == frames[i]);
    }
    lemma_keeping_run(session, front);
    assert(frame_defect(frames[frames.len() - 1]) is None);
    assert((session.frames + front).push(frames.last()) =~= frames);
    assert(chat_run(session, text_events(frames)).1 =~= Seq::new(
        frames.len(),
        |i: int|
            if i < frames.len() - 1 {
                ActionView::Receive
            } else {
                match aggregated(frames) {
                    Ok((text, tokens)) => ActionView::Finish(text, tokens),
                    Err(error) => ActionView::Fail(error),
                }
            },
    ));
}

/// Frames that came in any order combine to what an incremental session
/// hands over when the same frames come in the order of their sequence
/// numbers: the same text, and the token usage of the frame that ends the
/// answer. This holds where no frame has a defect and the frame that ends
/// the answer is the last in that order.
pub proof fn lemma_batch_matches_delivery_in_order(batch: Seq<Response>, session: ChatSessionView)
    requires
        batch.len() > 0,
        first_defect(batch) is None,
        !ends_early(sort_by_seq(batch)),
        sort_by_seq(batch).last().spec_is_end(),
        session.state.spec_is_open(),
        session.delivery == Delivery::Incremental,
    ensures
        ({
            let sorted = sort_by_seq(batch);
            let (end, actions) = chat_run(session, text_events(sorted));
            let tokens = sorted.last().spec_token_statistics().unwrap();
            &&& aggregated(batch) == Ok::<_, Error>((delivered(actions), tokens))
            &&& end.state == SessionState::Done
            &&& actions.last() == ActionView::Finish(frame_text(sorted.last()), tokens)
        }),
{
    let sorted = sort_by_seq(batch);
    lemma_sort_by_seq(batch);
    assert forall|i: int| 0 <= i < sorted.len() implies frame_defect(#[trigger] sorted[i])
        is None by {
        let k = choose|k: int| 0 <= k < batch.len() && batch[k] == sorted[i];
        lemma_no_defect(batch, k);
    }
    let front = sorted.drop_last();
    assert forall|i: int| 0 <= i < front.len() implies frame_defect(#[trigger] front[i]) is None
        && !front[i].spec_is_end() by {
        assert(front[i] == sorted[i]);
    }
    lemma_streaming_run(session, front);
    assert(text_events(sorted).drop_last() =~= text_events(front));
    let actions = chat_run(session, text_events(sorted)).1;
    assert(actions.drop_last() =~= chat_run(session, text_events(front)).1);
}

} // verus!
