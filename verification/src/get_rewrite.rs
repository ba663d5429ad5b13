//! Replacing the responses to `GET` commands, for the protocols that speak
//! RESP.
//!
//! Requests and responses correspond by position: the response at place `i`
//! answers the request at place `i`. The requests are scanned before they
//! are forwarded, the places of the `GET` commands are kept, and after the
//! round trip the responses at those places are replaced.
use crate::message::{Frame, Message};
use crate::resp::{bulk_string_of, is_bulk_string, is_get_command, is_get_frame};
use vstd::prelude::*;
use vstd::string::StringSliceAdditionalSpecFns;

verus! {

/// The protocols whose frames are RESP frames.
#[derive(Clone, Copy, Debug, PartialEq, Eq, Structural)]
pub enum KeyValueProtocol {
    Redis,
    Valkey,
}

/// The frame belongs to the protocol and is a `GET` command.
pub open spec fn is_get_request(protocol: KeyValueProtocol, frame: Frame) -> bool {
    match (protocol, frame) {
        (KeyValueProtocol::Redis, Frame::Redis(inner)) => is_get_command(inner),
        (KeyValueProtocol::Valkey, Frame::Valkey(inner)) => is_get_command(inner),
        _ => false,
    }
}

/// The frame belongs to the protocol and is a bulk string that holds
/// exactly `bytes`.
pub open spec fn is_literal(protocol: KeyValueProtocol, frame: Frame, bytes: Seq<u8>) -> bool {
    match (protocol, frame) {
        (KeyValueProtocol::Redis, Frame::Redis(inner)) => is_bulk_string(inner, bytes),
        (KeyValueProtocol::Valkey, Frame::Valkey(inner)) => is_bulk_string(inner, bytes),
        _ => false,
    }
}

/// The request could be decoded and is a `GET` command of the protocol.
pub open spec fn matches_get(protocol: KeyValueProtocol, request: Message) -> bool {
    match request.frame {
        Some(frame) => is_get_request(protocol, frame),
        None => false,
    }
}

/// `place` is among `positions`.
pub open spec fn is_marked(positions: Seq<usize>, place: int) -> bool {
    exists|k: int| 0 <= k < positions.len() && (#[trigger] positions[k]) == place
}

/// `positions` lists, in ascending order and each once, exactly the places
/// of the requests that are `GET` commands.
pub open spec fn marks_gets(
    positions: Seq<usize>,
    protocol: KeyValueProtocol,
    requests: Seq<Message>,
) -> bool {
    &&& forall|a: int, b: int|
        0 <= a < b < positions.len() ==> (#[trigger] positions[a]) < (#[trigger] positions[b])
    &&& forall|a: int|
        0 <= a < positions.len() ==> (#[trigger] positions[a]) < requests.len() && matches_get(
            protocol,
            requests[positions[a] as int],
        )
    &&& forall|p: int|
        0 <= p < requests.len() && matches_get(protocol, #[trigger] requests[p]) ==> is_marked(
            positions,
            p,
        )
}

/// `after` is the response `before` as the rewriter leaves it. A response
/// that answers a `GET` command and could be decoded becomes a bulk string
/// that holds `literal`, and its serialized bytes are marked stale. Any other
/// response is not touched.
pub open spec fn answered(
    protocol: KeyValueProtocol,
    before: Message,
    matched: bool,
    after: Message,
    literal: Seq<u8>,
) -> bool {
    if matched && before.frame is Some {
        &&& after.frame matches Some(frame) && is_literal(protocol, frame, literal)
        &&& !after.cache_valid
    } else {
        after == before
    }
}

/// Each response is the response at the same place as the rewriter leaves
/// it, where `positions` holds the places of the `GET` commands.
pub open spec fn all_answered(
    protocol: KeyValueProtocol,
    before: Seq<Message>,
    positions: Seq<usize>,
    after: Seq<Message>,
    literal: Seq<u8>,
) -> bool {
    &&& after.len() == before.len()
    &&& forall|p: int|
        0 <= p < before.len() ==> answered(
            protocol,
            before[p],
            is_marked(positions, p),
            #[trigger] after[p],
            literal,
        )
}

/// The places, within the requests of one invocation, of the requests that
/// are `GET` commands. It is made anew for every invocation and used once.
#[derive(Debug)]
pub struct PendingMatchSet {
    indices: Vec<usize>,
    request_count: usize,
}

/// The next stage returned another number of responses than it was given
/// requests, so that responses cannot be told apart by their place.
#[derive(Clone, Copy, Debug, PartialEq, Eq, Structural)]
pub struct CountMismatch {
    pub requests: usize,
    pub responses: usize,
}

/// Why an invocation of a stage failed.
#[derive(Debug)]
pub enum TransformError<E> {
    /// The next stage failed; its failure is handed on as it is.
    Forward(E),
    /// The next stage broke the correspondence of requests and responses.
    Mismatch(CountMismatch),
}

impl PendingMatchSet {
    /// The places are in ascending order and within the requests.
    #[verifier::type_invariant]
    spec fn ordered_and_in_range(self) -> bool {
        &&& forall|a: int, b: int|
            0 <= a < b < self.indices@.len() ==> (#[trigger] self.indices@[a]) < (
            #[trigger] self.indices@[b])
        &&& forall|a: int|
            0 <= a < self.indices@.len() ==> (#[trigger] self.indices@[a]) < self.request_count
    }

    /// The places of the matching requests, in ascending order.
    pub closed spec fn positions(&self) -> Seq<usize> {
        self.indices@
    }

    /// The number of requests that were scanned.
    pub closed spec fn requests(&self) -> nat {
        self.request_count as nat
    }

    /// The places of the matching requests, in ascending order.
    pub fn indices(&self) -> (out: &Vec<usize>)
        ensures
            out@ == self.positions(),
    {
        &self.indices
    }

    /// The number of requests that were scanned.
    pub fn request_count(&self) -> (out: usize)
        ensures
            out == self.requests(),
    {
        self.request_count
    }
}

/// Whether the frame is a `GET` command of the protocol, whatever the case
/// of the command's name.
pub fn is_get(protocol: KeyValueProtocol, frame: &Frame) -> (out: bool)
    ensures
        out == is_get_request(protocol, *frame),
{
    match protocol {
        KeyValueProtocol::Redis => match frame {
            Frame::Redis(inner) => is_get_frame(inner),
            _ => false,
        },
        KeyValueProtocol::Valkey => match frame {
            Frame::Valkey(inner) => is_get_frame(inner),
            _ => false,
        },
    }
}

/// Puts a bulk string of the protocol that holds the UTF-8 bytes of
/// `result` in the place of the frame.
pub fn rewrite_get(protocol: KeyValueProtocol, frame: &mut Frame, result: &str)
    ensures
        is_literal(protocol, *final(frame), result.spec_bytes()),
{
    match protocol {
        KeyValueProtocol::Redis => {
            *frame = Frame::Redis(bulk_string_of(result));
        },
        KeyValueProtocol::Valkey => {
            *frame = Frame::Valkey(bulk_string_of(result));
        },
    }
}

/// Notes the places of the requests that are `GET` commands. A request that
/// could not be decoded does not match.
pub fn scan_requests(protocol: KeyValueProtocol, requests: &Vec<Message>) -> (out: PendingMatchSet)
    ensures
        out.requests() == requests@.len(),
        marks_gets(out.positions(), protocol, requests@),
{
    let n: usize = requests.len();
    let mut indices: Vec<usize> = Vec::new();
    let mut i: usize = 0;
    while i < n
        invariant
            i <= n,
            n == requests@.len(),
            forall|a: int, b: int|
                0 <= a < b < indices@.len() ==> (#[trigger] indices@[a]) < (#[trigger] indices@[b]),
            forall|a: int|
                0 <= a < indices@.len() ==> (#[trigger] indices@[a]) < i && matches_get(
                    protocol,
                    requests@[indices@[a] as int],
                ),
            forall|p: int|
                0 <= p < i && matches_get(protocol, #[trigger] requests@[p]) ==> is_marked(
                    indices@,
                    p,
                ),
        decreases n - i,
    {
        let matched: bool = match &requests[i].frame {
            Some(frame) => is_get(protocol, frame),
            None => false,
        };
        if matched {
            let ghost before = indices@;
            indices.push(i);
            assert forall|p: int|
                0 <= p < i + 1 && matches_get(protocol, #[trigger] requests@[p]) implies is_marked(
                indices@,
                p,
            ) by {
                if p < i {
                    assert(is_marked(before, p));
                    let k = choose|k: int| 0 <= k < before.len() && (#[trigger] before[k]) == p;
                    assert(indices@[k] == p);
                } else {
                    assert(indices@[before.len() as int] == p);
                }
            }
        }
        i += 1;
    }
    PendingMatchSet { indices, request_count: n }
}

/// Rewrites one response that answers a `GET` command: a response that
/// could be decoded becomes the literal, with its serialized bytes marked
/// stale; one that could not be decoded is not touched.
pub fn rewrite_response(protocol: KeyValueProtocol, response: &mut Message, result: &str)
    ensures
        answered(protocol, *old(response), true, *final(response), result.spec_bytes()),
{
    let mut decoded: bool = false;
    match &mut response.frame {
        Some(frame) => {
            rewrite_get(protocol, frame, result);
            decoded = true;
        },
        None => {},
    }
    if decoded {
        response.invalidate_cache();
    }
}

/// Rewrites, in place, the responses at the places that `pending` holds.
/// Fails, and touches nothing, where the number of responses is not the
/// number of requests that were scanned.
pub fn rewrite_responses(
    protocol: KeyValueProtocol,
    responses: &mut Vec<Message>,
    pending: &PendingMatchSet,
    result: &str,
) -> (out: Result<(), CountMismatch>)
    ensures
        match out {
            Ok(_) => {
                &&& old(responses)@.len() == pending.requests()
                &&& all_answered(
                    protocol,
                    old(responses)@,
                    pending.positions(),
                    final(responses)@,
                    result.spec_bytes(),
                )
            },
            Err(e) => {
                &&& old(responses)@.len() != pending.requests()
                &&& *final(responses) == *old(responses)
                &&& e.requests == pending.requests()
                &&& e.responses == old(responses)@.len()
            },
        },
{
    proof {
        use_type_invariant(pending);
    }
    let n: usize = responses.len();
    if n != pending.request_count {
        return Err(CountMismatch { requests: pending.request_count, responses: n });
    }
    let m: usize = pending.indices.len();
    let ghost literal = result.spec_bytes();
    let ghost positions = pending.indices@;
    let mut j: usize = 0;
    while j < m
        invariant
            j <= m,
            m == positions.len(),
            positions == pending.indices@,
            n == responses@.len(),
            n == old(responses)@.len(),
            literal == result.spec_bytes(),
            forall|a: int, b: int|
                0 <= a < b < positions.len() ==> (#[trigger] positions[a]) < (#[trigger] positions[b]),
            forall|a: int| 0 <= a < positions.len() ==> (#[trigger] positions[a]) < n,
            forall|q: int|
                0 <= q < n && (j == 0 || q > positions[j - 1]) ==> (#[trigger] responses@[q])
                    == old(responses)@[q],
            forall|q: int|
                0 <= q < n && j > 0 && q <= positions[j - 1] ==> answered(
                    protocol,
                    old(responses)@[q],
                    is_marked(positions, q),
                    #[trigger] responses@[q],
                    literal,
                ),
        decreases m - j,
    {
        let p: usize = pending.indices[j];
        let ghost earlier = responses@;
        rewrite_response(protocol, &mut responses[p], result);
        assert forall|q: int| 0 <= q < n && q <= positions[j as int] implies answered(
            protocol,
            old(responses)@[q],
            is_marked(positions, q),
            #[trigger] responses@[q],
            literal,
        ) by {
            if q == p {
                assert(positions[j as int] == q);
            } else if j > 0 && q <= positions[j - 1] {
                assert(responses@[q] == earlier[q]);
            } else {
                assert(responses@[q] == earlier[q]);
                if is_marked(positions, q) {
                    let k = choose|k: int| 0 <= k < positions.len() && (#[trigger] positions[k]) == q;
                    if k < j {
                        assert(j > 0);
                        assert(k == j - 1 || positions[k] < positions[j - 1]);
                    } else if k > j {
                        assert(positions[j as int] < positions[k]);
                    }
                    assert(false);
                }
            }
        }
        j += 1;
    }
    assert forall|q: int| 0 <= q < n implies answered(
        protocol,
        old(responses)@[q],
        is_marked(pending.positions(), q),
        #[trigger] responses@[q],
        literal,
    ) by {
        if !(m > 0 && q <= positions[m - 1]) {
            if is_marked(positions, q) {
                let k = choose|k: int| 0 <= k < positions.len() && (#[trigger] positions[k]) == q;
                assert(k == m - 1 || positions[k] < positions[m - 1]);
                assert(false);
            }
        }
    }
    Ok(())
}

/// What the stage returns for what the next stage returned.
pub open spec fn transform_outcome<E>(
    protocol: KeyValueProtocol,
    pending: PendingMatchSet,
    forwarded: Result<Vec<Message>, E>,
    literal: Seq<u8>,
    out: Result<Vec<Message>, TransformError<E>>,
) -> bool {
    match forwarded {
        Err(failure) => out == Err::<Vec<Message>, TransformError<E>>(
            TransformError::Forward(failure),
        ),
        Ok(responses) => if responses@.len() == pending.requests() {
            out matches Ok(rewritten) && all_answered(
                protocol,
                responses@,
                pending.positions(),
                rewritten@,
                literal,
            )
        } else {
            out matches Err(TransformError::Mismatch(mismatch)) && mismatch.requests
                == pending.requests() && mismatch.responses == responses@.len()
        },
    }
}

/// Takes what the next stage returned for the requests that were scanned
/// into `pending`. A failure of the next stage is handed on as it is. A
/// number of responses other than the number of requests is an error.
/// Otherwise the responses to the `GET` commands are replaced by `result`.
pub fn rewrite_forwarded<E>(
    protocol: KeyValueProtocol,
    pending: &PendingMatchSet,
    forwarded: Result<Vec<Message>, E>,
    result: &str,
) -> (out: Result<Vec<Message>, TransformError<E>>)
    ensures
        transform_outcome(protocol, *pending, forwarded, result.spec_bytes(), out),
{
    match forwarded {
        Ok(responses) => {
            let mut responses = responses;
            match rewrite_responses(protocol, &mut responses, pending, result) {
                Ok(_) => Ok(responses),
                Err(mismatch) => Err(TransformError::Mismatch(mismatch)),
            }
        },
        Err(failure) => Err(TransformError::Forward(failure)),
    }
}

/// Requests and responses correspond by place. Where the places were
/// noted from `requests` and the responses rewritten by them, the response
/// at each place is replaced by the literal exactly if the request at that
/// place is a `GET` command and the response could be decoded; every other
/// response is as the next stage returned it.
pub proof fn lemma_answers_by_position(
    protocol: KeyValueProtocol,
    requests: Seq<Message>,
    positions: Seq<usize>,
    before: Seq<Message>,
    after: Seq<Message>,
    literal: Seq<u8>,
    p: int,
)
    requires
        marks_gets(positions, protocol, requests),
        before.len() == requests.len(),
        all_answered(protocol, before, positions, after, literal),
        0 <= p < requests.len(),
    ensures
        after.len() == requests.len(),
        answered(protocol, before[p], matches_get(protocol, requests[p]), after[p], literal),
        !matches_get(protocol, requests[p]) ==> after[p] == before[p],
{
    if is_marked(positions, p) {
        let k = choose|k: int| 0 <= k < positions.len() && (#[trigger] positions[k]) == p;
        assert(matches_get(protocol, requests[positions[k] as int]));
    }
}

/// The places of the `GET` commands are determined by the requests: two
/// sequences that both list them are the same sequence.
pub proof fn lemma_marks_are_unique(
    protocol: KeyValueProtocol,
    requests: Seq<Message>,
    first: Seq<usize>,
    second: Seq<usize>,
)
    requires
        marks_gets(first, protocol, requests),
        marks_gets(second, protocol, requests),
    ensures
        first == second,
    decreases first.len() + second.len(),
{
    if first.len() == 0 || second.len() == 0 {
        if first.len() > 0 {
            assert(is_marked(second, first[0] as int));
        }
        if second.len() > 0 {
            assert(is_marked(first, second[0] as int));
        }
        assert(first =~= second);
    } else {
        let a = first.last();
        let b = second.last();
        assert(is_marked(second, a as int));
        assert(is_marked(first, b as int));
        let i = choose|i: int| 0 <= i < second.len() && (#[trigger] second[i]) == a;
        let j = choose|j: int| 0 <= j < first.len() && (#[trigger] first[j]) == b;
        assert(a == b) by {
            if i < second.len() - 1 {
                assert(second[i] < second[second.len() - 1]);
            }
            if j < first.len() - 1 {
                assert(first[j] < first[first.len() - 1]);
            }
        }
        let shorter = requests.take(a as int);
        let f = first.drop_last();
        let s = second.drop_last();
        assert(marks_gets(f, protocol, shorter)) by {
            assert forall|k: int| 0 <= k < f.len() implies (#[trigger] f[k]) < shorter.len()
                && matches_get(protocol, shorter[f[k] as int]) by {
                assert(first[k] < first[first.len() - 1]);
                assert(f[k] == first[k]);
            }
            assert forall|q: int|
                0 <= q < shorter.len() && matches_get(protocol, #[trigger] shorter[q]) implies is_marked(
                f,
                q,
            ) by {
                assert(requests[q] == shorter[q]);
                assert(is_marked(first, q));
                let k = choose|k: int| 0 <= k < first.len() && (#[trigger] first[k]) == q;
                assert(f[k] == q);
            }
        }
        assert(marks_gets(s, protocol, shorter)) by {
            assert forall|k: int| 0 <= k < s.len() implies (#[trigger] s[k]) < shorter.len()
                && matches_get(protocol, shorter[s[k] as int]) by {
                assert(second[k] < second[second.len() - 1]);
                assert(s[k] == second[k]);
            }
            assert forall|q: int|
                0 <= q < shorter.len() && matches_get(protocol, #[trigger] shorter[q]) implies is_marked(
                s,
                q,
            ) by {
                assert(requests[q] == shorter[q]);
                assert(is_marked(second, q));
                let k = choose|k: int| 0 <= k < second.len() && (#[trigger] second[k]) == q;
                assert(s[k] == q);
            }
        }
        lemma_marks_are_unique(protocol, shorter, f, s);
        assert(first =~= f.push(a));
        assert(second =~= s.push(b));
    }
}

} // verus!
