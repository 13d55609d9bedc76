//! The decisions of a handshake, apart from the input and output they ask
//! for.
//!
//! A handshake against a host is one attempt per endpoint that the host
//! name resolves to. Each attempt is a small state machine: the caller
//! tells it what happened, it answers what to do next. The driver keeps the
//! books over all attempts: which are still in flight, and how each of the
//! others ended. Attempts share nothing, so they may settle in any order.

use crate::endian::le_value;
use crate::errors::ErrorSide;
use crate::message::header::{framing, MessageHeader, COMMAND_VERSION, START_STRING_MAINNET};
use crate::message::network_address::{NETWORK_IPvXX, UNSPECIFIED_IPADDR};
use crate::message::payload::VersionPayload;
use crate::protocol_builder::{assemble, default_fields, PayloadBuilder, VersionFields};
use crate::traits::{EndianWrite, Length};
use crate::{COMMAND_SIZE, CUSTOM_VERSION_SIZE};
use vstd::prelude::*;

verus! {

/// A message as it is transmitted: the header that announces `payload`,
/// then `payload` itself.
pub open spec fn framed(payload: Seq<u8>) -> Seq<u8> {
    framing(START_STRING_MAINNET@, COMMAND_VERSION@, payload) + payload
}

/// The fields of the version payload that opens a handshake with the node
/// at `endpoint`: the defaults, addressed to `endpoint`, with a sender that
/// does not say where it is.
pub open spec fn opening_fields(endpoint: Seq<u8>) -> VersionFields {
    VersionFields {
        recv_ip: endpoint,
        from_ip: UNSPECIFIED_IPADDR@,
        from_port: 0,
        ..default_fields()
    }
}

/// The version message for `payload`, ready to be written in one piece.
pub fn version_message(payload: &VersionPayload) -> (result: Result<Vec<u8>, ErrorSide>)
    ensures
        result matches Ok(message) && message@ == framed(payload.wire()) && message@.len()
            == COMMAND_SIZE + payload.wire().len(),
{
    let size = payload.len();
    let body = payload.to_be_bytes();
    let head = MessageHeader::version(body.as_slice())?.to_be_bytes_with_payload(body.as_slice())?;
    let mut message: Vec<u8> = Vec::with_capacity(COMMAND_SIZE + size);
    message.extend_from_slice(head.as_slice());
    message.extend_from_slice(body.as_slice());
    proof {
        assert(message@ =~= framed(payload.wire()));
    }
    Ok(message)
}

/// The message that opens a handshake with the node at `endpoint`. Anything
/// but the sixteen bytes of an address is refused, with the count in the
/// error.
pub fn opening_message(endpoint: &[u8]) -> (result: Result<Vec<u8>, ErrorSide>)
    ensures
        endpoint@.len() == NETWORK_IPvXX ==> (result matches Ok(message) && message@ == framed(
            assemble(opening_fields(endpoint@)),
        ) && message@.len() == COMMAND_SIZE + CUSTOM_VERSION_SIZE),
        endpoint@.len() != NETWORK_IPvXX ==> (result matches Err(error) && error
            == ErrorSide::SizeMismatch(endpoint.len())),
{
    let builder = PayloadBuilder::init()
        .with_addr_recv(endpoint)?
        .with_addr_from(UNSPECIFIED_IPADDR.as_slice())?
        .with_addr_from_port(0)?;
    assert(builder@ == opening_fields(endpoint@));
    let payload = builder.build()?;
    version_message(&payload)
}

/// Where one attempt stands. An attempt only ever moves down this list.
#[derive(Clone, Copy, Debug, PartialEq, Eq)]
pub enum AttemptState {
    /// The endpoint is not known yet.
    Resolving,
    /// A connection to the endpoint, given by its sixteen address bytes, is
    /// being opened.
    Connecting([u8; NETWORK_IPvXX]),
    /// The version message is being written.
    Sending,
    /// The header of the reply is awaited.
    AwaitingHeader,
    /// The payload of the reply is awaited, of the size that its header
    /// declared.
    AwaitingPayload(u32),
    /// The attempt is over and its result was handed out.
    Completed,
}

/// What the caller reports to an attempt.
#[derive(Debug, PartialEq, Eq)]
pub enum AttemptEvent {
    /// The endpoint is known; its sixteen address bytes.
    Resolved([u8; NETWORK_IPvXX]),
    /// The connection stands.
    Connected,
    /// The message was written in full.
    Sent,
    /// The bytes of a header were read.
    HeaderRead([u8; COMMAND_SIZE]),
    /// The bytes that followed the header were read.
    PayloadRead(Vec<u8>),
    /// Whatever was asked for last failed.
    Failed(ErrorSide),
}

/// What an attempt asks the caller to do next.
#[derive(Debug, PartialEq, Eq)]
pub enum AttemptAction {
    /// Open a connection to the endpoint.
    Connect,
    /// Write these bytes in full.
    Send(Vec<u8>),
    /// Read exactly the bytes of a header.
    ReadHeader,
    /// Read exactly this many bytes.
    ReadPayload(u32),
    /// Hand this result to the driver; the attempt is over.
    Settle(Result<Vec<u8>, ErrorSide>),
}

/// An action, with its bytes as a sequence.
pub enum ActionView {
    Connect,
    Send(Seq<u8>),
    ReadHeader,
    ReadPayload(nat),
    Settle(Result<Seq<u8>, ErrorSide>),
}

impl View for AttemptAction {
    type V = ActionView;

    open spec fn view(&self) -> ActionView {
        match *self {
            AttemptAction::Connect => ActionView::Connect,
            AttemptAction::Send(bytes) => ActionView::Send(bytes@),
            AttemptAction::ReadHeader => ActionView::ReadHeader,
            AttemptAction::ReadPayload(size) => ActionView::ReadPayload(size as nat),
            AttemptAction::Settle(Ok(payload)) => ActionView::Settle(Ok(payload@)),
            AttemptAction::Settle(Err(error)) => ActionView::Settle(Err(error)),
        }
    }
}

/// The payload size that the bytes of a header declare.
pub open spec fn declared_size(header: Seq<u8>) -> nat {
    le_value(header.subrange(16, 20))
}

/// How far an attempt has come.
pub open spec fn rank(state: AttemptState) -> nat {
    match state {
        AttemptState::Resolving => 0,
        AttemptState::Connecting(_) => 1,
        AttemptState::Sending => 2,
        AttemptState::AwaitingHeader => 3,
        AttemptState::AwaitingPayload(_) => 4,
        AttemptState::Completed => 5,
    }
}

/// The state that follows `state` when `event` is reported. The event that
/// a state waits for moves the attempt one state on; a failure, or an
/// event that the state does not wait for, ends it.
pub open spec fn next_state(state: AttemptState, event: AttemptEvent) -> AttemptState {
    match (state, event) {
        (AttemptState::Resolving, AttemptEvent::Resolved(endpoint)) => AttemptState::Connecting(
            endpoint,
        ),
        (AttemptState::Connecting(_), AttemptEvent::Connected) => AttemptState::Sending,
        (AttemptState::Sending, AttemptEvent::Sent) => AttemptState::AwaitingHeader,
        (AttemptState::AwaitingHeader, AttemptEvent::HeaderRead(header)) => {
            AttemptState::AwaitingPayload(declared_size(header@) as u32)
        },
        _ => AttemptState::Completed,
    }
}

/// What an attempt in `state` asks for when `event` is reported.
///
/// The payload of a reply is accepted only in the length that its header
/// declared. A failure that the caller reports becomes the result of the
/// attempt. An event that the state does not wait for, and any event after
/// the end, gives `Unreachable`.
pub open spec fn next_action(state: AttemptState, event: AttemptEvent) -> ActionView {
    match (state, event) {
        (AttemptState::Completed, _) => ActionView::Settle(Err(ErrorSide::Unreachable)),
        (_, AttemptEvent::Failed(error)) => ActionView::Settle(Err(error)),
        (AttemptState::Resolving, AttemptEvent::Resolved(_)) => ActionView::Connect,
        (AttemptState::Connecting(endpoint), AttemptEvent::Connected) => ActionView::Send(
            framed(assemble(opening_fields(endpoint@))),
        ),
        (AttemptState::Sending, AttemptEvent::Sent) => ActionView::ReadHeader,
        (AttemptState::AwaitingHeader, AttemptEvent::HeaderRead(header)) => {
            ActionView::ReadPayload(declared_size(header@))
        },
        (AttemptState::AwaitingPayload(declared), AttemptEvent::PayloadRead(payload)) => {
            if payload@.len() == declared {
                ActionView::Settle(Ok(payload@))
            } else {
                ActionView::Settle(Err(ErrorSide::PayloadSizeMismatch(payload@.len() as usize)))
            }
        },
        _ => ActionView::Settle(Err(ErrorSide::Unreachable)),
    }
}

/// One step of an attempt: from where it stands and what happened to where
/// it stands next and what to do.
pub fn advance(state: AttemptState, event: AttemptEvent) -> (step: (AttemptState, AttemptAction))
    ensures
        step.0 == next_state(state, event),
        step.1@ == next_action(state, event),
{
    match state {
        AttemptState::Completed => (
            AttemptState::Completed,
            AttemptAction::Settle(Err(ErrorSide::Unreachable)),
        ),
        AttemptState::Resolving => match event {
            AttemptEvent::Resolved(endpoint) => (
                AttemptState::Connecting(endpoint),
                AttemptAction::Connect,
            ),
            AttemptEvent::Failed(error) => (
                AttemptState::Completed,
                AttemptAction::Settle(Err(error)),
            ),
            _ => (AttemptState::Completed, AttemptAction::Settle(Err(ErrorSide::Unreachable))),
        },
        AttemptState::Connecting(endpoint) => match event {
            AttemptEvent::Connected => match opening_message(endpoint.as_slice()) {
                Ok(message) => (AttemptState::Sending, AttemptAction::Send(message)),
                Err(error) => (AttemptState::Completed, AttemptAction::Settle(Err(error))),
            },
            AttemptEvent::Failed(error) => (
                AttemptState::Completed,
                AttemptAction::Settle(Err(error)),
            ),
            _ => (AttemptState::Completed, AttemptAction::Settle(Err(ErrorSide::Unreachable))),
        },
        AttemptState::Sending => match event {
            AttemptEvent::Sent => (AttemptState::AwaitingHeader, AttemptAction::ReadHeader),
            AttemptEvent::Failed(error) => (
                AttemptState::Completed,
                AttemptAction::Settle(Err(error)),
            ),
            _ => (AttemptState::Completed, AttemptAction::Settle(Err(ErrorSide::Unreachable))),
        },
        AttemptState::AwaitingHeader => match event {
            AttemptEvent::HeaderRead(bytes) => {
                let header = match MessageHeader::from_bytes(bytes.as_slice()) {
                    Ok(header) => header,
                    Err(error) => {
                        return (AttemptState::Completed, AttemptAction::Settle(Err(error)));
                    },
                };
                let declared = header.payload_len();
                proof {
                    assert(header.payload_size@ =~= header.wire().subrange(16, 20));
                }
                (AttemptState::AwaitingPayload(declared), AttemptAction::ReadPayload(declared))
            },
            AttemptEvent::Failed(error) => (
                AttemptState::Completed,
                AttemptAction::Settle(Err(error)),
            ),
            _ => (AttemptState::Completed, AttemptAction::Settle(Err(ErrorSide::Unreachable))),
        },
        AttemptState::AwaitingPayload(declared) => match event {
            AttemptEvent::PayloadRead(payload) => {
                if payload.len() > u32::MAX as usize || payload.len() as u32 != declared {
                    let size = payload.len();
                    (
                        AttemptState::Completed,
                        AttemptAction::Settle(Err(ErrorSide::PayloadSizeMismatch(size))),
                    )
                } else {
                    (AttemptState::Completed, AttemptAction::Settle(Ok(payload)))
                }
            },
            AttemptEvent::Failed(error) => (
                AttemptState::Completed,
                AttemptAction::Settle(Err(error)),
            ),
            _ => (AttemptState::Completed, AttemptAction::Settle(Err(ErrorSide::Unreachable))),
        },
    }
}

/// Every event moves an attempt that is not over strictly on, so an
/// attempt is over after five events at most.
pub proof fn lemma_attempt_progresses(state: AttemptState, event: AttemptEvent)
    requires
        state != AttemptState::Completed,
    ensures
        rank(next_state(state, event)) > rank(state),
{
}

/// An attempt that is over stays over, whatever is reported to it.
pub proof fn lemma_completed_is_final(event: AttemptEvent)
    ensures
        next_state(AttemptState::Completed, event) == AttemptState::Completed,
{
}

/// An attempt hands out a result exactly when it ends.
pub proof fn lemma_settles_at_the_end(state: AttemptState, event: AttemptEvent)
    ensures
        next_action(state, event) is Settle <==> next_state(state, event)
            == AttemptState::Completed,
{
}

/// Nothing is read before the message was written: a read is only ever
/// asked for once the write was reported, or the header was read.
pub proof fn lemma_write_before_read(state: AttemptState, event: AttemptEvent)
    ensures
        next_action(state, event) is ReadHeader ==> state == AttemptState::Sending && event
            == AttemptEvent::Sent,
        next_action(state, event) is ReadPayload ==> state == AttemptState::AwaitingHeader,
{
}

/// A failure reported to an attempt that is not over ends it, and is its
/// result.
pub proof fn lemma_failure_ends_attempt(state: AttemptState, error: ErrorSide)
    requires
        state != AttemptState::Completed,
    ensures
        next_state(state, AttemptEvent::Failed(error)) == AttemptState::Completed,
        next_action(state, AttemptEvent::Failed(error)) == ActionView::Settle(Err(error)),
{
}

/// How an attempt ended, in the books of the driver: accepted, or refused
/// with the error that says why.
pub type Outcome = Result<(), ErrorSide>;

/// The outcome of an attempt with the given result. A reply to the version
/// message must carry no payload, so a result with payload bytes is a
/// violation by the peer, reported with the number of those bytes; a failed
/// attempt keeps its error.
pub open spec fn judged(result: Result<Vec<u8>, ErrorSide>) -> Outcome {
    match result {
        Ok(payload) => if payload@.len() == 0 {
            Ok(())
        } else {
            Err(ErrorSide::PayloadSizeMismatch(payload@.len() as usize))
        },
        Err(error) => Err(error),
    }
}

/// The outcome of an attempt with the given result.
pub fn judge(result: &Result<Vec<u8>, ErrorSide>) -> (outcome: Outcome)
    ensures
        outcome == judged(*result),
{
    match result {
        Ok(payload) => if payload.len() == 0 {
            Ok(())
        } else {
            Err(ErrorSide::PayloadSizeMismatch(payload.len()))
        },
        Err(error) => Err(*error),
    }
}

/// The books after the attempt with the given number ended with `outcome`.
pub open spec fn recorded(outcomes: Seq<Option<Outcome>>, attempt: int, outcome: Outcome) -> Seq<
    Option<Outcome>,
> {
    outcomes.update(attempt, Some(outcome))
}

/// Whether `last_error` fits the books: it is the error of an attempt on
/// the books, and it is absent only if no attempt on the books failed.
spec fn error_is_on_the_books(
    outcomes: Seq<Option<Outcome>>,
    last_error: Option<ErrorSide>,
) -> bool {
    match last_error {
        None => forall|attempt: int|
            0 <= attempt < outcomes.len() ==> !(#[trigger] outcomes[attempt] matches Some(Err(_))),
        Some(error) => exists|attempt: int|
            0 <= attempt < outcomes.len() && #[trigger] outcomes[attempt] == Some(
                Err::<(), ErrorSide>(error),
            ),
    }
}

/// The books of a handshake against the endpoints of one host.
///
/// Attempts are numbered from zero in the order of the endpoints. Each is
/// in flight until it settles, and settles once. The driver never ends an
/// attempt on its own account: a failure of one leaves the others in
/// flight.
pub struct HandshakeDriver {
    outcomes: Vec<Option<Outcome>>,
    last_error: Option<ErrorSide>,
}

impl HandshakeDriver {
    #[verifier::type_invariant]
    spec fn consistent(&self) -> bool {
        error_is_on_the_books(self.outcomes@, self.last_error)
    }

    /// The books: for each attempt nothing while it is in flight, then its
    /// outcome.
    pub closed spec fn outcomes(&self) -> Seq<Option<Outcome>> {
        self.outcomes@
    }

    /// The error of the attempt that failed last, if any has failed.
    pub closed spec fn last_error(&self) -> Option<ErrorSide> {
        self.last_error
    }

    /// Whether the attempt with the given number is in flight.
    pub open spec fn in_flight(&self, attempt: int) -> bool {
        0 <= attempt < self.outcomes().len() && self.outcomes()[attempt] is None
    }

    /// Whether no attempt is in flight.
    pub open spec fn drained(&self) -> bool {
        forall|attempt: int| !self.in_flight(attempt)
    }

    /// The result of the handshake once no attempt is in flight: a host
    /// without endpoints did not resolve; else the error that was seen
    /// last, if there was one.
    pub open spec fn verdict(&self) -> Outcome {
        if self.outcomes().len() == 0 {
            Err(ErrorSide::Resolution)
        } else {
            match self.last_error() {
                Some(error) => Err(error),
                None => Ok(()),
            }
        }
    }

    /// The books for a host that resolved to `endpoints` endpoints, with an
    /// attempt in flight for each.
    pub fn new(endpoints: usize) -> (driver: HandshakeDriver)
        ensures
            driver.outcomes() == Seq::new(endpoints as nat, |attempt: int| None::<Outcome>),
            driver.last_error() is None,
    {
        let mut outcomes: Vec<Option<Outcome>> = Vec::new();
        let mut i: usize = 0;
        while i < endpoints
            invariant
                i <= endpoints,
                outcomes@ == Seq::new(i as nat, |attempt: int| None::<Outcome>),
            decreases endpoints - i,
        {
            outcomes.push(None);
            i += 1;
        }
        HandshakeDriver { outcomes, last_error: None }
    }

    /// Enters the result of an attempt into the books and returns the
    /// outcome that was entered. That attempt is no longer in flight; every
    /// other attempt stays as it was, in flight or settled. For
    /// an attempt that is not in flight, because it has settled before or
    /// was never started, the books stay as they are and the answer is
    /// `Unreachable`.
    pub fn settle(&mut self, attempt: usize, result: &Result<Vec<u8>, ErrorSide>) -> (outcome:
        Outcome)
        ensures
            old(self).in_flight(attempt as int) ==> {
                &&& outcome == judged(*result)
                &&& final(self).outcomes() == recorded(
                    old(self).outcomes(),
                    attempt as int,
                    outcome,
                )
                &&& final(self).last_error() == match outcome {
                    Ok(_) => old(self).last_error(),
                    Err(error) => Some(error),
                }
                &&& forall|other: int|
                    #[trigger] final(self).in_flight(other) <==> old(self).in_flight(other)
                        && other != attempt
            },
            !old(self).in_flight(attempt as int) ==> {
                &&& outcome == Err::<(), ErrorSide>(ErrorSide::Unreachable)
                &&& final(self).outcomes() == old(self).outcomes()
                &&& final(self).last_error() == old(self).last_error()
            },
    {
        proof {
            use_type_invariant(&*self);
        }
        if attempt >= self.outcomes.len() {
            return Err(ErrorSide::Unreachable);
        }
        if self.outcomes[attempt].is_some() {
            return Err(ErrorSide::Unreachable);
        }
        let outcome = judge(result);
        enter(&mut self.outcomes, &mut self.last_error, attempt, outcome);
        outcome
    }

    /// Whether no attempt is in flight.
    pub fn is_drained(&self) -> (drained: bool)
        ensures
            drained == self.drained(),
    {
        let mut i: usize = 0;
        while i < self.outcomes.len()
            invariant
                i <= self.outcomes@.len(),
                forall|attempt: int| 0 <= attempt < i ==> !self.in_flight(attempt),
            decreases self.outcomes@.len() - i,
        {
            if self.outcomes[i].is_none() {
                assert(self.in_flight(i as int));
                return false;
            }
            i += 1;
        }
        true
    }

    /// The outcome of the attempt with the given number, once it has
    /// settled.
    pub fn outcome_of(&self, attempt: usize) -> (outcome: Option<Outcome>)
        ensures
            outcome == (if attempt < self.outcomes().len() {
                self.outcomes()[attempt as int]
            } else {
                None
            }),
    {
        if attempt < self.outcomes.len() {
            self.outcomes[attempt]
        } else {
            None
        }
    }

    /// The result of the handshake, once no attempt is in flight; nothing
    /// before that. It is `Ok` exactly if there was an endpoint and every
    /// attempt was accepted, and an error other than `Resolution` is the
    /// error of one of the attempts.
    pub fn finish(&self) -> (verdict: Option<Outcome>)
        ensures
            verdict == (if self.drained() {
                Some(self.verdict())
            } else {
                None
            }),
            verdict == Some(Ok::<(), ErrorSide>(())) <==> self.outcomes().len() > 0 && forall|
                attempt: int,
            |
                0 <= attempt < self.outcomes().len() ==> #[trigger] self.outcomes()[attempt]
                    == Some(Ok::<(), ErrorSide>(())),
            forall|error: ErrorSide|
                verdict == Some(Err::<(), ErrorSide>(error)) ==> (self.outcomes().len() == 0
                    && error == ErrorSide::Resolution) || exists|attempt: int|
                    0 <= attempt < self.outcomes().len() && #[trigger] self.outcomes()[attempt]
                        == Some(Err::<(), ErrorSide>(error)),
    {
        proof {
            use_type_invariant(self);
        }
        if !self.is_drained() {
            proof {
                let witness = choose|attempt: int| self.in_flight(attempt);
                assert(self.outcomes()[witness] is None);
            }
            return None;
        }
        if self.outcomes.len() == 0 {
            return Some(Err(ErrorSide::Resolution));
        }
        match self.last_error {
            Some(error) => Some(Err(error)),
            None => {
                proof {
                    assert forall|attempt: int| 0 <= attempt < self.outcomes().len() implies (
                    #[trigger] self.outcomes()[attempt]) == Some(Ok::<(), ErrorSide>(())) by {
                        assert(!self.in_flight(attempt));
                        assert(!(self.outcomes@[attempt] matches Some(Err(_))));
                        assert(self.outcomes@[attempt] matches Some(Ok(unit)) && unit == ());
                    }
                }
                Some(Ok(()))
            },
        }
    }
}

/// Writes the outcome of an attempt in flight into the books and keeps the
/// last error up to date.
fn enter(
    outcomes: &mut Vec<Option<Outcome>>,
    last_error: &mut Option<ErrorSide>,
    attempt: usize,
    outcome: Outcome,
)
    requires
        attempt < old(outcomes)@.len(),
        old(outcomes)@[attempt as int] is None,
        error_is_on_the_books(old(outcomes)@, *old(last_error)),
    ensures
        final(outcomes)@ == recorded(old(outcomes)@, attempt as int, outcome),
        *final(last_error) == match outcome {
            Ok(_) => *old(last_error),
            Err(error) => Some(error),
        },
        error_is_on_the_books(final(outcomes)@, *final(last_error)),
    no_unwind
{
    outcomes[attempt] = Some(outcome);
    match outcome {
        Ok(_) => {
            proof {
                if let Some(error) = *last_error {
                    let failed = choose|failed: int|
                        0 <= failed < old(outcomes)@.len() && #[trigger] old(outcomes)@[failed]
                            == Some(Err::<(), ErrorSide>(error));
                    assert(outcomes@[failed] == Some(Err::<(), ErrorSide>(error)));
                }
            }
        },
        Err(error) => {
            *last_error = Some(error);
            proof {
                assert(outcomes@[attempt as int] == Some(Err::<(), ErrorSide>(error)));
            }
        },
    }
}

/// Attempts may settle in any order: the books after two attempts have
/// settled do not depend on which of them settled first.
pub proof fn lemma_settling_commutes(
    outcomes: Seq<Option<Outcome>>,
    first: int,
    first_outcome: Outcome,
    second: int,
    second_outcome: Outcome,
)
    requires
        0 <= first < outcomes.len(),
        0 <= second < outcomes.len(),
        first != second,
    ensures
        recorded(recorded(outcomes, first, first_outcome), second, second_outcome) == recorded(
            recorded(outcomes, second, second_outcome),
            first,
            first_outcome,
        ),
{
    assert(recorded(recorded(outcomes, first, first_outcome), second, second_outcome) =~= recorded(
        recorded(outcomes, second, second_outcome),
        first,
        first_outcome,
    ));
}

} // verus!
