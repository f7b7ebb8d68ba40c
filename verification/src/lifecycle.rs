//! What holds of the service over its whole life.
//!
//! A life is a list of events, each a step of the model in
//! [`ServiceView`](crate::service::ServiceView). The theorems here say what no
//! list of events can do: give out a serial number twice, settle a request
//! twice, or bring a settled request back.

use vstd::prelude::*;
use crate::address::AddressView;
use crate::codec::{decode_envelope, decode_message, encodable, lemma_decode_encode};
use crate::error::BshError;
use crate::service::{
    relay_outcome, settlement, ActionView, PromiseOutcome, RelayCallView, ServiceView,
};
use crate::types::{AssetView, EnvelopeView, ServiceTypeView};

verus! {

/// What can happen to a service.
pub enum Event {
    /// A transfer is started.
    Transfer { sender: Seq<char>, destination: AddressView, assets: Seq<AssetView> },
    /// `caller` brings a message in.
    Message { caller: Seq<char>, envelope: EnvelopeView<Seq<u8>> },
    /// `caller` reports that the request under `serial_no` could not be delivered.
    Error { caller: Seq<char>, service: Seq<char>, serial_no: i128 },
    /// The relay call that carried `message` under `serial_no` ended with `outcome`.
    Continuation { message: ServiceTypeView, serial_no: i128, outcome: PromiseOutcome },
}

/// The state after `event`. A transfer at the end of the counter, an inbound
/// call that a guard refuses, and the continuation of a relay call leave the
/// state as it is.
pub open spec fn step(state: ServiceView, event: Event) -> ServiceView {
    match event {
        Event::Transfer { sender, destination, assets } => {
            if state.serial_no < i128::MAX {
                state.initiate(sender, destination, assets).0
            } else {
                state
            }
        },
        Event::Message { caller, envelope } => state.receive(caller, envelope).0,
        Event::Error { caller, service, serial_no } => state.receive_error(
            caller,
            service,
            serial_no,
        ).0,
        Event::Continuation { .. } => state,
    }
}

/// The action that `event` asks of the host in `state`, if any.
pub open spec fn action_of(state: ServiceView, event: Event) -> Option<ActionView> {
    match event {
        Event::Transfer { sender, destination, assets } => {
            if state.serial_no < i128::MAX {
                Some(ActionView::Send(state.initiate(sender, destination, assets).1))
            } else {
                None
            }
        },
        Event::Message { caller, envelope } => match state.receive(caller, envelope).1 {
            Ok(action) => action,
            Err(_) => None,
        },
        Event::Error { caller, service, serial_no } => match state.receive_error(
            caller,
            service,
            serial_no,
        ).1 {
            Ok(action) => action,
            Err(_) => None,
        },
        Event::Continuation { message, serial_no, outcome } => relay_outcome(message, outcome),
    }
}

/// The serial number and result code that `event` reconciles, if it passes the
/// guards and is a response or a relay-level error.
pub open spec fn reconciled(state: ServiceView, event: Event) -> Option<(i128, u128)> {
    match event {
        Event::Transfer { .. } => None,
        Event::Message { caller, envelope } => {
            if state.guard(caller, envelope.service) is Ok {
                match decode_envelope(envelope) {
                    Ok(typed) => match typed.message {
                        Some(ServiceTypeView::ResponseHandleService { code, message }) => Some(
                            (typed.serial_no, code),
                        ),
                        _ => None,
                    },
                    Err(_) => None,
                }
            } else {
                None
            }
        },
        Event::Error { caller, service, serial_no } => {
            if state.guard(caller, service) is Ok {
                Some((serial_no, 1))
            } else {
                None
            }
        },
        Event::Continuation { .. } => None,
    }
}

/// `event` settles the request under `serial_no`: it reconciles that serial
/// number while its request is pending.
pub open spec fn settles(state: ServiceView, event: Event, serial_no: i128) -> bool {
    match reconciled(state, event) {
        Some((n, code)) => n == serial_no && state.requests.contains_key(serial_no),
        None => false,
    }
}

/// `event` is the continuation of a relay call that failed to carry the
/// transfer under `serial_no`.
pub open spec fn fails_send(event: Event, serial_no: i128) -> bool {
    match event {
        Event::Continuation { message, serial_no: n, outcome } => n == serial_no && relay_outcome(
            message,
            outcome,
        ) is Some,
        _ => false,
    }
}

/// `action` finalizes or rolls back.
pub open spec fn is_settlement(action: Option<ActionView>) -> bool {
    action matches Some(ActionView::Finalize { .. }) || action matches Some(
        ActionView::Rollback { .. },
    )
}

/// The state after all of `events`, in their order.
pub open spec fn run(state: ServiceView, events: Seq<Event>) -> ServiceView
    decreases events.len(),
{
    if events.len() == 0 {
        state
    } else {
        run(step(state, events.first()), events.drop_first())
    }
}

/// How many of `events`, run from `state`, settle the request under `serial_no`.
pub open spec fn settlements(state: ServiceView, events: Seq<Event>, serial_no: i128) -> nat
    decreases events.len(),
{
    if events.len() == 0 {
        0
    } else {
        let here: nat = if settles(state, events.first(), serial_no) {
            1
        } else {
            0
        };
        here + settlements(step(state, events.first()), events.drop_first(), serial_no)
    }
}

/// How many of `events` are continuations of a relay call that failed to
/// carry the transfer under `serial_no`.
pub open spec fn failed_sends(events: Seq<Event>, serial_no: i128) -> nat
    decreases events.len(),
{
    if events.len() == 0 {
        0
    } else {
        let here: nat = if fails_send(events.first(), serial_no) {
            1
        } else {
            0
        };
        here + failed_sends(events.drop_first(), serial_no)
    }
}

/// How many of `events`, run from `state`, ask the host to finalize or roll
/// back the transfer under `serial_no`: by settling its request, or as the
/// continuation of the call that failed to carry it.
pub open spec fn compensations(state: ServiceView, events: Seq<Event>, serial_no: i128) -> nat
    decreases events.len(),
{
    if events.len() == 0 {
        0
    } else {
        let here: nat = if settles(state, events.first(), serial_no) || fails_send(
            events.first(),
            serial_no,
        ) {
            1
        } else {
            0
        };
        here + compensations(step(state, events.first()), events.drop_first(), serial_no)
    }
}

/// A transfer records its request under the next serial number: the counter
/// goes up by exactly one, the ledger holds the request under the new number,
/// and every other entry is as before.
pub proof fn theorem_transfer_is_recorded(
    state: ServiceView,
    sender: Seq<char>,
    destination: AddressView,
    assets: Seq<AssetView>,
)
    requires
        state.serial_no < i128::MAX,
    ensures
        ({
            let (after, call) = state.initiate(sender, destination, assets);
            &&& after.serial_no == state.serial_no + 1
            &&& after.requests.contains_key(after.serial_no)
            &&& after.requests[after.serial_no] == ServiceView::request(sender, destination, assets)
            &&& forall|n: i128|
                n != after.serial_no ==> after.requests.contains_key(n)
                    == state.requests.contains_key(n) && (state.requests.contains_key(n)
                    ==> after.requests[n] == state.requests[n])
            &&& call.serial_no == after.serial_no
            &&& call.destination_network == destination.network
            &&& state.wf() ==> !state.requests.contains_key(after.serial_no)
        }),
{
}

/// The call that carries a transfer holds the request in a form that reads
/// back: its bytes decode to the message that its continuation is given.
pub proof fn theorem_call_reads_back(
    state: ServiceView,
    serial_no: i128,
    network: Seq<char>,
    message: ServiceTypeView,
)
    requires
        encodable(message),
    ensures
        decode_message(state.relay_call(serial_no, network, message).message) == Some(
            state.relay_call(serial_no, network, message).context,
        ),
{
    lemma_decode_encode(message);
}

/// Where the relay call of a transfer fails, its continuation asks for the
/// rollback of exactly that transfer: the sender and the assets it was started
/// with. Where the call does not fail, the continuation asks for nothing.
pub proof fn theorem_failed_send_rolls_back(
    state: ServiceView,
    sender: Seq<char>,
    destination: AddressView,
    assets: Seq<AssetView>,
    outcome: PromiseOutcome,
)
    ensures
        relay_outcome(state.initiate(sender, destination, assets).1.context, outcome) == if outcome
            == PromiseOutcome::Failed {
            Some(ActionView::Rollback { sender, assets })
        } else {
            None
        },
{
}

/// Reconciling a serial number that has no entry does nothing, and after any
/// reconciliation the serial number has no entry: a second reconciliation of
/// it, with whatever code, does nothing.
pub proof fn theorem_reconcile_once(state: ServiceView, serial_no: i128, code: u128, again: u128)
    ensures
        !state.requests.contains_key(serial_no) ==> state.reconcile(serial_no, code) == (
            state,
            None::<ActionView>,
        ),
        state.requests.contains_key(serial_no) ==> state.reconcile(serial_no, code).1 == Some(
            settlement(state.requests[serial_no], code),
        ),
        !state.reconcile(serial_no, code).0.requests.contains_key(serial_no),
        state.reconcile(serial_no, code).0.reconcile(serial_no, again) == (
            state.reconcile(serial_no, code).0,
            None::<ActionView>,
        ),
{
}

/// A guard that refuses an inbound call leaves the state as it is and asks
/// nothing of the host, whatever the call carries.
pub proof fn theorem_refused_call_changes_nothing(state: ServiceView, event: Event)
    requires
        match event {
            Event::Transfer { .. } => false,
            Event::Message { caller, envelope } => caller != state.bmc || envelope.service
                != state.name,
            Event::Error { caller, service, serial_no } => caller != state.bmc || service
                != state.name,
            Event::Continuation { .. } => false,
        },
    ensures
        step(state, event) == state,
        action_of(state, event) is None,
        match event {
            Event::Transfer { .. } => true,
            Event::Message { caller, envelope } => state.receive(caller, envelope).1 is Err,
            Event::Error { caller, service, serial_no } => state.receive_error(
                caller,
                service,
                serial_no,
            ).1 is Err,
            Event::Continuation { .. } => true,
        },
{
}

/// A message whose payload cannot be decoded changes nothing and is answered
/// with a failure response to its source.
pub proof fn theorem_undecodable_is_answered(
    state: ServiceView,
    caller: Seq<char>,
    envelope: EnvelopeView<Seq<u8>>,
)
    requires
        state.guard(caller, envelope.service) is Ok,
        decode_envelope(envelope) is Err,
    ensures
        state.receive(caller, envelope).0 == state,
        state.receive(caller, envelope).1 == Ok::<_, BshError>(
            Some(
                ActionView::Send(
                    RelayCallView {
                        relay: state.bmc,
                        service: state.name,
                        serial_no: envelope.serial_no,
                        destination_network: envelope.source.network,
                        message: state.relay_call(
                            envelope.serial_no,
                            envelope.source.network,
                            ServiceTypeView::ResponseHandleService {
                                code: 1,
                                message: BshError::DecodeFailed.description_spec(),
                            },
                        ).message,
                        context: ServiceTypeView::ResponseHandleService {
                            code: 1,
                            message: BshError::DecodeFailed.description_spec(),
                        },
                    },
                ),
            ),
        ),
{
}

/// An event asks the host to finalize or roll back exactly when it settles a
/// request or is the continuation of a failed transfer. Where it settles a
/// request, the action is the settlement of that request, and the request
/// leaves the ledger.
pub proof fn theorem_settlement_is_asked_once(state: ServiceView, event: Event)
    ensures
        is_settlement(action_of(state, event)) <==> (exists|serial_no: i128|
            settles(state, event, serial_no)) || (exists|serial_no: i128|
            fails_send(event, serial_no)),
        forall|serial_no: i128| #[trigger]
            settles(state, event, serial_no) ==> action_of(state, event) == Some(
                settlement(state.requests[serial_no], reconciled(state, event).unwrap().1),
            ) && !step(state, event).requests.contains_key(serial_no),
{
    match reconciled(state, event) {
        Some((n, code)) => {
            if state.requests.contains_key(n) {
                assert(settles(state, event, n));
            }
        },
        None => {},
    }
    match event {
        Event::Continuation { message, serial_no, outcome } => {
            if relay_outcome(message, outcome) is Some {
                assert(fails_send(event, serial_no));
            }
        },
        _ => {},
    }
}

/// Every step keeps the invariant of the ledger, and never turns the counter
/// back.
pub proof fn theorem_step_keeps_invariant(state: ServiceView, event: Event)
    requires
        state.wf(),
    ensures
        step(state, event).wf(),
        step(state, event).serial_no >= state.serial_no,
        step(state, event).name == state.name,
        step(state, event).bmc == state.bmc,
{
    let after = step(state, event);
    match event {
        Event::Transfer { sender, destination, assets } => {
            if state.serial_no < i128::MAX {
                assert(after.serial_no == state.serial_no + 1);
                assert forall|n: i128| #[trigger] after.requests.contains_key(n) implies 0 < n
                    <= after.serial_no by {
                    if n != after.serial_no {
                        assert(state.requests.contains_key(n));
                    }
                }
            }
        },
        Event::Message { caller, envelope } => {
            assert(after.serial_no == state.serial_no);
            assert forall|n: i128| #[trigger] after.requests.contains_key(n) implies 0 < n
                <= after.serial_no by {
                assert(state.requests.contains_key(n));
            }
        },
        Event::Error { caller, service, serial_no } => {
            assert(after.serial_no == state.serial_no);
            assert forall|n: i128| #[trigger] after.requests.contains_key(n) implies 0 < n
                <= after.serial_no by {
                assert(state.requests.contains_key(n));
            }
        },
        Event::Continuation { .. } => {},
    }
}

/// A serial number that was given out and has no entry never has one again,
/// and nothing settles it again.
pub proof fn theorem_settled_stays_settled(state: ServiceView, events: Seq<Event>, serial_no: i128)
    requires
        state.wf(),
        !state.requests.contains_key(serial_no),
        serial_no <= state.serial_no,
    ensures
        !run(state, events).requests.contains_key(serial_no),
        settlements(state, events, serial_no) == 0,
    decreases events.len(),
{
    if events.len() > 0 {
        theorem_step_keeps_invariant(state, events.first());
        theorem_settled_stays_settled(
            step(state, events.first()),
            events.drop_first(),
            serial_no,
        );
    }
}

/// Whatever happens to a service, the request under a serial number is
/// settled at most once.
pub proof fn theorem_at_most_one_settlement(state: ServiceView, events: Seq<Event>, serial_no: i128)
    requires
        state.wf(),
    ensures
        settlements(state, events, serial_no) <= 1,
    decreases events.len(),
{
    if events.len() > 0 {
        let event = events.first();
        let after = step(state, event);
        theorem_step_keeps_invariant(state, event);
        if settles(state, event, serial_no) {
            theorem_settled_stays_settled(after, events.drop_first(), serial_no);
        } else {
            theorem_at_most_one_settlement(after, events.drop_first(), serial_no);
        }
    }
}

/// The host is asked to finalize or roll back a transfer as often as its
/// request is settled and its relay call is reported as failed, taken together.
pub proof fn theorem_compensations_counted(state: ServiceView, events: Seq<Event>, serial_no: i128)
    ensures
        compensations(state, events, serial_no) == settlements(state, events, serial_no)
            + failed_sends(events, serial_no),
    decreases events.len(),
{
    if events.len() > 0 {
        theorem_compensations_counted(step(state, events.first()), events.drop_first(), serial_no);
    }
}

/// Whatever happens to a service, the host is asked at most once to finalize
/// or roll back the transfer under a serial number, as long as the relay call
/// that carried the transfer is not reported as failed.
pub proof fn theorem_at_most_one_compensation(
    state: ServiceView,
    events: Seq<Event>,
    serial_no: i128,
)
    requires
        state.wf(),
        failed_sends(events, serial_no) == 0,
    ensures
        compensations(state, events, serial_no) <= 1,
{
    theorem_compensations_counted(state, events, serial_no);
    theorem_at_most_one_settlement(state, events, serial_no);
}

} // verus!
