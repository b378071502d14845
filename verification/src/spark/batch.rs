//! Combining the frames of an answer into the answer.
//!
//! Frames may come in out of order. Each carries a sequence number, and the
//! answer is the text of the frames in the order of their numbers. The frame
//! that ends the answer must be the last in that order.

use crate::error::{AggregationError, ApiError, Error, ProtocolViolation};
use crate::spark::data::{Response, ResponseStatus, SparkResponse, TokenStatistics};
use vstd::prelude::*;

verus! {

/// What is wrong with a frame taken by itself, if anything: a status of the
/// service other than zero; no payload; a header that ends the answer over
/// choices that do not; an end of the answer without token usage.
pub open spec fn frame_defect(frame: Response) -> Option<Error> {
    if frame.header.code != 0 {
        Some(Error::Api(ApiError { code: frame.header.code, message: frame.header.message }))
    } else {
        match frame.payload {
            None => Some(Error::Aggregation(AggregationError::MissingPayload)),
            Some(payload) => if frame.header.status == ResponseStatus::End && payload.choices.status
                != ResponseStatus::End {
                Some(Error::Protocol(ProtocolViolation::StatusMismatch))
            } else if frame.spec_is_end() && payload.usage is None {
                Some(Error::Aggregation(AggregationError::MissingUsage))
            } else {
                None
            },
        }
    }
}

/// The defect of the first frame that has one.
pub open spec fn first_defect(frames: Seq<Response>) -> Option<Error>
    decreases frames.len(),
{
    if frames.len() == 0 {
        None
    } else {
        match first_defect(frames.drop_last()) {
            Some(error) => Some(error),
            None => frame_defect(frames.last()),
        }
    }
}

/// The sequence number of a frame; 0 where it has no payload.
pub open spec fn sequence_number(frame: Response) -> int {
    match frame.payload {
        Some(payload) => payload.choices.seq as int,
        None => 0,
    }
}

/// The text of a frame; empty where it has no payload.
pub open spec fn frame_text(frame: Response) -> Seq<char> {
    match frame.spec_content() {
        Some(text) => text,
        None => Seq::empty(),
    }
}

/// `sorted` with `frame` put behind the last frame whose number is not
/// greater.
pub open spec fn insert_by_seq(sorted: Seq<Response>, frame: Response) -> Seq<Response>
    decreases sorted.len(),
{
    if sorted.len() == 0 {
        seq![frame]
    } else if sequence_number(sorted.last()) <= sequence_number(frame) {
        sorted.push(frame)
    } else {
        insert_by_seq(sorted.drop_last(), frame).push(sorted.last())
    }
}

/// The frames in the order of their sequence numbers; frames with the same
/// number stay in the order in which they came.
pub open spec fn sort_by_seq(frames: Seq<Response>) -> Seq<Response>
    decreases frames.len(),
{
    if frames.len() == 0 {
        Seq::empty()
    } else {
        insert_by_seq(sort_by_seq(frames.drop_last()), frames.last())
    }
}

/// Whether the numbers of `frames` never fall.
pub open spec fn ordered_by_seq(frames: Seq<Response>) -> bool {
    forall|i: int, j: int|
        0 <= i <= j < frames.len() ==> sequence_number(#[trigger] frames[i]) <= sequence_number(
            #[trigger] frames[j],
        )
}

/// Whether a frame other than the last ends the answer.
pub open spec fn ends_early(frames: Seq<Response>) -> bool {
    exists|i: int| 0 <= i < frames.len() - 1 && (#[trigger] frames[i]).spec_is_end()
}

/// The texts of `frames`, one after the other.
pub open spec fn batch_text(frames: Seq<Response>) -> Seq<char>
    decreases frames.len(),
{
    if frames.len() == 0 {
        Seq::empty()
    } else {
        batch_text(frames.drop_last()) + frame_text(frames.last())
    }
}

/// The answer that `frames` combine to, in whatever order they came.
pub open spec fn aggregated(frames: Seq<Response>) -> Result<(Seq<char>, TokenStatistics), Error> {
    if frames.len() == 0 {
        Err(Error::Aggregation(AggregationError::EmptyResponses))
    } else {
        match first_defect(frames) {
            Some(error) => Err(error),
            None => {
                let sorted = sort_by_seq(frames);
                if ends_early(sorted) {
                    Err(Error::Protocol(ProtocolViolation::TerminalOutOfOrder))
                } else if !sorted.last().spec_is_end() {
                    Err(Error::Aggregation(AggregationError::MissingCompletion))
                } else {
                    Ok((batch_text(sorted), sorted.last().spec_token_statistics().unwrap()))
                }
            },
        }
    }
}

/// The frames of `frames` that `order` points at, in the order of `order`.
pub open spec fn picked(frames: Seq<Response>, order: Seq<usize>) -> Seq<Response> {
    Seq::new(order.len(), |i: int| frames[order[i] as int])
}

/// Inserting a frame puts it at the place that a scan from the end finds.
proof fn lemma_insert_position(sorted: Seq<Response>, frame: Response, at: int)
    requires
        0 <= at <= sorted.len(),
        forall|j: int| at <= j < sorted.len() ==> sequence_number(sorted[j]) > sequence_number(frame),
        at > 0 ==> sequence_number(sorted[at - 1]) <= sequence_number(frame),
    ensures
        insert_by_seq(sorted, frame) == sorted.take(at).push(frame) + sorted.skip(at),
    decreases sorted.len() - at,
{
    if at == sorted.len() {
        assert(sorted.take(at) =~= sorted);
        assert(sorted.take(at).push(frame) + sorted.skip(at) =~= sorted.push(frame));
        if sorted.len() == 0 {
            assert(sorted.push(frame) =~= seq![frame]);
        }
    } else {
        let front = sorted.drop_last();
        lemma_insert_position(front, frame, at);
        assert(front.take(at) =~= sorted.take(at));
        assert((front.take(at).push(frame) + front.skip(at)).push(sorted.last()) =~= sorted.take(
            at,
        ).push(frame) + sorted.skip(at));
    }
}

/// No frame of a sequence without a first defect has a defect.
pub proof fn lemma_no_defect(frames: Seq<Response>, i: int)
    requires
        first_defect(frames) is None,
        0 <= i < frames.len(),
    ensures
        frame_defect(frames[i]) is None,
    decreases frames.len(),
{
    if i < frames.len() - 1 {
        lemma_no_defect(frames.drop_last(), i);
    }
}

/// The defect of a frame, if it has one.
pub fn check_frame(frame: &Response) -> (defect: Option<Error>)
    ensures
        defect == frame_defect(*frame),
{
    if frame.header.code != 0 {
        return Some(
            Error::Api(ApiError { code: frame.header.code, message: frame.header.message.clone() }),
        );
    }
    match &frame.payload {
        None => Some(Error::Aggregation(AggregationError::MissingPayload)),
        Some(payload) => {
            let ends = payload.choices.status == ResponseStatus::End;
            if frame.header.status == ResponseStatus::End && !ends {
                Some(Error::Protocol(ProtocolViolation::StatusMismatch))
            } else if frame.header.status == ResponseStatus::End && payload.usage.is_none() {
                Some(Error::Aggregation(AggregationError::MissingUsage))
            } else {
                None
            }
        },
    }
}

/// The sequence number of a frame.
fn number_of(frame: &Response) -> (number: u32)
    ensures
        number == sequence_number(*frame),
{
    match &frame.payload {
        Some(payload) => payload.choices.seq,
        None => 0,
    }
}

/// The places of the frames in the order of their sequence numbers.
fn sorted_order(frames: &Vec<Response>) -> (order: Vec<usize>)
    ensures
        order@.len() == frames@.len(),
        forall|i: int| 0 <= i < order@.len() ==> order@[i] < frames@.len(),
        picked(frames@, order@) == sort_by_seq(frames@),
{
    let mut order: Vec<usize> = Vec::new();
    let mut k: usize = 0;
    assert(frames@.take(0) =~= Seq::empty());
    assert(picked(frames@, order@) =~= Seq::empty());
    while k < frames.len()
        invariant
            k <= frames.len(),
            order@.len() == k,
            forall|i: int| 0 <= i < order@.len() ==> order@[i] < k,
            picked(frames@, order@) == sort_by_seq(frames@.take(k as int)),
        decreases frames.len() - k,
    {
        let number = number_of(&frames[k]);
        let ghost before = picked(frames@, order@);
        let mut at: usize = order.len();
        while at > 0 && number_of(&frames[order[at - 1]]) > number
            invariant
                at <= order@.len(),
                order@.len() == k,
                k < frames.len(),
                forall|i: int| 0 <= i < order@.len() ==> order@[i] < k,
                before == picked(frames@, order@),
                number == sequence_number(frames@[k as int]),
                forall|j: int| at <= j < before.len() ==> sequence_number(before[j]) > number,
            decreases at,
        {
            at = at - 1;
        }
        proof {
            lemma_insert_position(before, frames@[k as int], at as int);
            assert(frames@.take(k + 1).drop_last() =~= frames@.take(k as int));
        }
        order.insert(at, k);
        assert(picked(frames@, order@) =~= before.take(at as int).push(frames@[k as int])
            + before.skip(at as int));
        k = k + 1;
    }
    assert(frames@.take(k as int) =~= frames@);
    order
}

/// Combines the frames of an answer, in whatever order they came.
///
/// The frames are put in the order of their sequence numbers, and the answer
/// is their text in that order with the token usage of the frame that ends
/// the answer. The call fails where there is no frame; where a frame has a
/// defect, with the defect of the first such frame; where a frame other than
/// the last in the order ends the answer; and where the last in the order
/// does not end it.
pub fn aggregate(frames: &Vec<Response>) -> (result: Result<SparkResponse, Error>)
    ensures
        match aggregated(frames@) {
            Ok((text, tokens)) => result matches Ok(answer) && answer.content@ == text
                && answer.tokens == tokens,
            Err(error) => result == Err::<SparkResponse, Error>(error),
        },
{
    if frames.len() == 0 {
        return Err(Error::Aggregation(AggregationError::EmptyResponses));
    }
    let mut i: usize = 0;
    assert(frames@.take(0) =~= Seq::empty());
    while i < frames.len()
        invariant
            i <= frames.len(),
            first_defect(frames@.take(i as int)) is None,
        decreases frames.len() - i,
    {
        assert(frames@.take(i + 1).drop_last() =~= frames@.take(i as int));
        if let Some(error) = check_frame(&frames[i]) {
            proof {
                lemma_first_defect_stays(frames@, i + 1);
            }
            return Err(error);
        }
        i = i + 1;
    }
    assert(frames@.take(i as int) =~= frames@);
    let order = sorted_order(frames);
    let ghost sorted = sort_by_seq(frames@);
    let last = frames.len() - 1;
    let mut content = String::new();
    let mut j: usize = 0;
    assert(sorted.take(0) =~= Seq::empty());
    while j < last
        invariant
            j <= last,
            last == frames.len() - 1,
            order@.len() == frames@.len(),
            forall|i: int| 0 <= i < order@.len() ==> order@[i] < frames@.len(),
            sorted == picked(frames@, order@),
            sorted == sort_by_seq(frames@),
            first_defect(frames@) is None,
            forall|i: int| 0 <= i < j ==> !(#[trigger] sorted[i]).spec_is_end(),
            content@ == batch_text(sorted.take(j as int)),
        decreases last - j,
    {
        let frame = &frames[order[j]];
        assert(*frame == sorted[j as int]);
        if frame.is_end() {
            assert(ends_early(sorted));
            return Err(Error::Protocol(ProtocolViolation::TerminalOutOfOrder));
        }
        proof {
            lemma_no_defect(frames@, order@[j as int] as int);
            assert(sorted.take(j + 1).drop_last() =~= sorted.take(j as int));
        }
        match frame.content() {
            Some(text) => content.append(text.as_str()),
            None => {},
        }
        j = j + 1;
    }
    let frame = &frames[order[last]];
    assert(*frame == sorted.last());
    if !frame.is_end() {
        return Err(Error::Aggregation(AggregationError::MissingCompletion));
    }
    proof {
        lemma_no_defect(frames@, order@[last as int] as int);
        assert(sorted.take(last + 1) =~= sorted);
        assert(sorted.drop_last() =~= sorted.take(last as int));
    }
    match frame.content() {
        Some(text) => content.append(text.as_str()),
        None => {},
    }
    match frame.token_statistics() {
        Some(tokens) => Ok(SparkResponse { content, tokens }),
        None => Err(Error::Aggregation(AggregationError::MissingUsage)),
    }
}

/// A defect among the first `n` frames is the first defect of all.
proof fn lemma_first_defect_stays(frames: Seq<Response>, n: int)
    requires
        0 <= n <= frames.len(),
        first_defect(frames.take(n)) is Some,
    ensures
        first_defect(frames) == first_defect(frames.take(n)),
    decreases frames.len(),
{
    if n == frames.len() {
        assert(frames.take(n) =~= frames);
    } else {
        assert(frames.drop_last().take(n) =~= frames.take(n));
        lemma_first_defect_stays(frames.drop_last(), n);
    }
}

} // verus!
