//! The request-response bridge behind the element queries: a synchronous
//! call from script code emits a correlated request to the interface layer
//! and then polls a single-use reply channel, sleeping ten milliseconds
//! between attempts, for at most half a second. A timely reply resolves to
//! its value; a timeout or a dropped sender resolves to nothing — a
//! missing interface element is an ordinary outcome, not an error.

use vstd::prelude::*;

use crate::json_out::json_bytes;
use crate::value::{TreeV, TreeValue};

verus! {

/// How long one element query waits in all, in milliseconds.
pub const ELEMENT_GET_TIMEOUT_MS: u64 = 500;

/// The pause between polls, in milliseconds.
pub const POLL_INTERVAL_MS: u64 = 10;

/// What one poll of the reply channel observed.
pub enum PollEvent {
    /// The reply arrived with this value.
    Received(String),
    /// Nothing has arrived yet.
    Empty,
    /// The sending side is gone; no reply can ever arrive.
    Disconnected,
}

/// What the bridge does after one poll.
pub enum PollDecision {
    /// The call resolves with this result; nothing for a timeout or a
    /// dropped sender.
    Resolve(Option<String>),
    /// Sleep one interval and poll again.
    Wait,
}

/// The model of one poll event.
pub enum PollEventV {
    Received(Seq<char>),
    Empty,
    Disconnected,
}

impl DeepView for PollEvent {
    type V = PollEventV;

    open spec fn deep_view(&self) -> PollEventV {
        match self {
            PollEvent::Received(s) => PollEventV::Received(s@),
            PollEvent::Empty => PollEventV::Empty,
            PollEvent::Disconnected => PollEventV::Disconnected,
        }
    }
}

/// The decision after one poll: a reply resolves to its value, a dropped
/// sender to nothing, and silence resolves to nothing once more than the
/// timeout has elapsed, and otherwise waits.
pub open spec fn spec_poll_step(elapsed_ms: u64, ev: PollEventV) -> Option<Option<Seq<char>>> {
    match ev {
        PollEventV::Received(v) => Some(Some(v)),
        PollEventV::Disconnected => Some(None),
        PollEventV::Empty => if elapsed_ms > ELEMENT_GET_TIMEOUT_MS {
            Some(None)
        } else {
            None
        },
    }
}

/// One step of the poll loop; the host sleeps one interval on `Wait` and
/// calls again with the new elapsed time.
pub fn poll_step(elapsed_ms: u64, ev: PollEvent) -> (r: PollDecision)
    ensures
        match r {
            PollDecision::Resolve(out) => spec_poll_step(elapsed_ms, ev.deep_view()) == Some(
                match out {
                    Some(s) => Some(s@),
                    None => None,
                },
            ),
            PollDecision::Wait => spec_poll_step(elapsed_ms, ev.deep_view())
                is None,
        },
{
    match ev {
        PollEvent::Received(v) => PollDecision::Resolve(Some(v)),
        PollEvent::Disconnected => PollDecision::Resolve(None),
        PollEvent::Empty => {
            if elapsed_ms > ELEMENT_GET_TIMEOUT_MS {
                PollDecision::Resolve(None)
            } else {
                PollDecision::Wait
            }
        },
    }
}

/// One correlated element query, ready to emit: the event kind, the
/// selector it addresses, and the payload carrying the fresh request id
/// (and the attribute name, for an attribute query) as JSON, in name
/// order. Each request id is single use; the reply channel is never
/// reused across calls.
pub struct ElementRequest {
    /// The event kind the interface layer answers.
    pub kind: String,
    /// The selector the query addresses.
    pub selector: String,
    /// The JSON payload bytes.
    pub payload: Vec<u8>,
}

/// The payload members of an element query.
pub open spec fn spec_element_payload(attr: Option<Seq<char>>, request_id: i64) -> Seq<
    (Seq<char>, TreeV),
> {
    match attr {
        Some(a) => seq![
            ("attr"@, TreeV::Str(a)),
            ("request_id"@, TreeV::Int(request_id as int)),
        ],
        None => seq![("request_id"@, TreeV::Int(request_id as int))],
    }
}

/// Builds one correlated element query.
pub fn plan_element_request(kind: &str, selector: &str, attr: Option<&str>, request_id: i64) -> (r:
    ElementRequest)
    ensures
        r.kind@ == kind@,
        r.selector@ == selector@,
        r.payload@ == json_bytes(TreeV::Obj(spec_element_payload(
            match attr {
                Some(a) => Some(a@),
                None => None,
            },
            request_id,
        ))),
{
    let mut pairs: Vec<(String, TreeValue)> = Vec::new();
    match attr {
        Some(a) => {
            pairs.push((String::from_str("attr"), TreeValue::Str(a.to_owned())));
        },
        None => {},
    }
    pairs.push((String::from_str("request_id"), TreeValue::Int(request_id)));
    let tree = TreeValue::Obj(pairs);
    proof {
        assert(crate::value::pairs_deep(pairs@) =~~= spec_element_payload(
            match attr {
                Some(a) => Some(a@),
                None => None,
            },
            request_id,
        ));
    }
    let payload = crate::json_out::json_encode(&tree);
    ElementRequest { kind: kind.to_owned(), selector: selector.to_owned(), payload }
}

/// A query that never receives a reply resolves to nothing after at most
/// fifty-one polls: once at least that many intervals have elapsed, the
/// elapsed time exceeds the timeout and silence no longer waits.
pub proof fn lemma_poll_timeout_bound(polls: u64)
    requires
        polls >= 51,
        polls * POLL_INTERVAL_MS <= u64::MAX,
    ensures
        spec_poll_step((polls * POLL_INTERVAL_MS) as u64, PollEventV::Empty) == Some(
            Option::<Seq<char>>::None,
        ),
{
    assert(polls * POLL_INTERVAL_MS >= 51 * 10) by (nonlinear_arith)
        requires
            polls >= 51,
    ;
}

} // verus!
