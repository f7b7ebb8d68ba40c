//! The service: guards, dispatch of inbound messages, reconciliation of
//! responses, and outbound requests.
//!
//! [`ServiceView`] is the model: the state of a service and, as spec
//! functions, what each event does to it. [`NativeCoinService`] is the
//! executable service; the contract of each of its entry points says that it
//! does what the model says.

use vstd::prelude::*;
use vstd::string::StringExecFns;
use crate::address::{AddressView, BTPAddress};
use crate::codec::{
    decode, decode_btp_message, decode_envelope, decode_message, encode, encode_message,
    lemma_decode_encode,
};
use crate::error::BshError;
use crate::ledger::Requests;
use crate::types::{
    assets_view, AssetView, BtpMessage, EnvelopeView, Request, RequestView, SerializedMessage,
    ServiceTypeView, TokenServiceMessage, TokenServiceType, TransferableAsset,
};

verus! {

/// How a call to the relay ended, as the host reports it to the continuation.
#[derive(Clone, Copy, Debug, PartialEq, Eq, Structural)]
pub enum PromiseOutcome {
    /// The relay took the message.
    Successful,
    /// The call did not go through: the message never left.
    Failed,
    /// The call has not ended. A continuation never sees this.
    NotReady,
}

/// A call to the relay's send entry point, with what its continuation needs.
#[derive(Debug, PartialEq, Eq)]
pub struct RelayCall {
    /// The relay to call.
    pub relay: String,
    /// The name of the service that sends.
    pub service: String,
    /// The serial number of the message.
    pub serial_no: i128,
    /// The network that the message is for.
    pub destination_network: String,
    /// The message in its wire form.
    pub message: SerializedMessage,
    /// The message in its typed form, for
    /// [`NativeCoinService::send_service_message_callback`].
    pub context: TokenServiceMessage,
}

/// What a [`RelayCall`] stands for.
pub struct RelayCallView {
    pub relay: Seq<char>,
    pub service: Seq<char>,
    pub serial_no: i128,
    pub destination_network: Seq<char>,
    pub message: Seq<u8>,
    pub context: ServiceTypeView,
}

impl View for RelayCall {
    type V = RelayCallView;

    open spec fn view(&self) -> RelayCallView {
        RelayCallView {
            relay: self.relay@,
            service: self.service@,
            serial_no: self.serial_no,
            destination_network: self.destination_network@,
            message: self.message@,
            context: self.context@,
        }
    }
}

/// What the host has to do after a step of the service.
#[derive(Debug, PartialEq, Eq)]
pub enum Action {
    /// Credit `receiver` with `assets` that came from `source`, then hand the
    /// result to [`NativeCoinService::respond`].
    Credit { source: BTPAddress, receiver: String, assets: Vec<TransferableAsset> },
    /// The transfer of `sender` went through: make the escrow of `assets` final.
    Finalize { sender: String, assets: Vec<TransferableAsset> },
    /// The transfer of `sender` failed: give `assets` back.
    Rollback { sender: String, assets: Vec<TransferableAsset> },
    /// Answer the source of the message in hand with this message.
    Reply(TokenServiceMessage),
    /// Make this call to the relay.
    Send(RelayCall),
}

/// What an [`Action`] stands for.
pub enum ActionView {
    Credit { source: AddressView, receiver: Seq<char>, assets: Seq<AssetView> },
    Finalize { sender: Seq<char>, assets: Seq<AssetView> },
    Rollback { sender: Seq<char>, assets: Seq<AssetView> },
    Reply(ServiceTypeView),
    Send(RelayCallView),
}

impl View for Action {
    type V = ActionView;

    open spec fn view(&self) -> ActionView {
        match self {
            Action::Credit { source, receiver, assets } => ActionView::Credit {
                source: source@,
                receiver: receiver@,
                assets: assets_view(assets@),
            },
            Action::Finalize { sender, assets } => ActionView::Finalize {
                sender: sender@,
                assets: assets_view(assets@),
            },
            Action::Rollback { sender, assets } => ActionView::Rollback {
                sender: sender@,
                assets: assets_view(assets@),
            },
            Action::Reply(message) => ActionView::Reply(message@),
            Action::Send(call) => ActionView::Send(call@),
        }
    }
}

/// What an optional action stands for.
pub open spec fn action_view(action: Option<Action>) -> Option<ActionView> {
    match action {
        Some(action) => Some(action@),
        None => None,
    }
}

/// What the result of handling a message stands for.
pub open spec fn handled_view(handled: Result<Option<Action>, BshError>) -> Result<
    Option<ActionView>,
    BshError,
> {
    match handled {
        Ok(action) => Ok(action_view(action)),
        Err(e) => Err(e),
    }
}

/// What an optional relay call stands for.
pub open spec fn call_view(call: Option<RelayCall>) -> Option<RelayCallView> {
    match call {
        Some(call) => Some(call@),
        None => None,
    }
}

/// What the result of a handler stands for: the reply it asks for, or its error.
pub open spec fn reply_view(outcome: Result<Option<TokenServiceMessage>, BshError>) -> Result<
    Option<ServiceTypeView>,
    BshError,
> {
    match outcome {
        Ok(Some(message)) => Ok(Some(message@)),
        Ok(None) => Ok(None),
        Err(e) => Err(e),
    }
}

/// What a typed envelope, or the failure to get one, stands for.
pub open spec fn typed_view(message: Result<BtpMessage<TokenServiceMessage>, BshError>) -> Result<
    EnvelopeView<ServiceTypeView>,
    BshError,
> {
    match message {
        Ok(envelope) => Ok(envelope@),
        Err(e) => Err(e),
    }
}

/// The action that settles `request` once its result `code` is known: code 0
/// finalizes, every other code rolls back.
pub open spec fn settlement(request: RequestView, code: u128) -> ActionView {
    if code == 0 {
        ActionView::Finalize { sender: request.sender, assets: request.assets }
    } else {
        ActionView::Rollback { sender: request.sender, assets: request.assets }
    }
}

/// What the continuation of a relay call asks for: a rollback where the call
/// failed and the message was a transfer request, and nothing otherwise.
pub open spec fn relay_outcome(message: ServiceTypeView, outcome: PromiseOutcome) -> Option<
    ActionView,
> {
    match message {
        ServiceTypeView::RequestTokenTransfer { sender, receiver, assets } => {
            if outcome == PromiseOutcome::Failed {
                Some(ActionView::Rollback { sender, assets })
            } else {
                None
            }
        },
        _ => None,
    }
}

/// The failure response that tells the other side about `error`.
pub open spec fn failure_response(error: BshError) -> ServiceTypeView {
    ServiceTypeView::ResponseHandleService { code: 1, message: error.description_spec() }
}

/// The state of a service.
pub struct ServiceView {
    /// The name of this service.
    pub name: Seq<char>,
    /// The registered relay.
    pub bmc: Seq<char>,
    /// The serial number of the last outbound request; 0 before the first.
    pub serial_no: i128,
    /// The ledger of pending requests.
    pub requests: Map<i128, RequestView>,
}

impl ServiceView {
    /// The counter has not gone below its start, and every pending request
    /// stands under a serial number that was given out. It holds of a new
    /// service, and every step keeps it.
    pub open spec fn wf(self) -> bool {
        &&& 0 <= self.serial_no
        &&& forall|serial_no: i128| #[trigger]
            self.requests.contains_key(serial_no) ==> 0 < serial_no <= self.serial_no
    }

    /// The guards of the inbound entry points: the caller is the registered
    /// relay, and the message is for this service.
    pub open spec fn guard(self, caller: Seq<char>, service: Seq<char>) -> Result<(), BshError> {
        if caller != self.bmc {
            Err(BshError::NotBmc)
        } else if service != self.name {
            Err(BshError::InvalidService)
        } else {
            Ok(())
        }
    }

    /// The call that sends `message` under `serial_no` to `network`.
    pub open spec fn relay_call(
        self,
        serial_no: i128,
        network: Seq<char>,
        message: ServiceTypeView,
    ) -> RelayCallView {
        RelayCallView {
            relay: self.bmc,
            service: self.name,
            serial_no,
            destination_network: network,
            message: encode_message(message),
            context: message,
        }
    }

    /// The state without the entry under `serial_no`.
    pub open spec fn without(self, serial_no: i128) -> ServiceView {
        ServiceView { requests: self.requests.remove(serial_no), ..self }
    }

    /// Reconciles the request under `serial_no` with its result `code`. A
    /// pending request is settled and leaves the ledger; without one nothing
    /// happens.
    pub open spec fn reconcile(self, serial_no: i128, code: u128) -> (
        ServiceView,
        Option<ActionView>,
    ) {
        if self.requests.contains_key(serial_no) {
            (self.without(serial_no), Some(settlement(self.requests[serial_no], code)))
        } else {
            (self, None)
        }
    }

    /// Routes a typed envelope by its payload.
    pub open spec fn dispatch(self, message: Result<EnvelopeView<ServiceTypeView>, BshError>) -> (
        ServiceView,
        Result<Option<ActionView>, BshError>,
    ) {
        match message {
            Err(e) => (self, Err(e)),
            Ok(envelope) => match envelope.message {
                None => (self, Err(BshError::Unknown)),
                Some(ServiceTypeView::RequestTokenTransfer { sender, receiver, assets }) => (
                    self,
                    Ok(Some(ActionView::Credit { source: envelope.source, receiver, assets })),
                ),
                Some(ServiceTypeView::ResponseHandleService { code, message }) => {
                    let (after, action) = self.reconcile(envelope.serial_no, code);
                    (after, Ok(action))
                },
                Some(ServiceTypeView::UnknownType) => (self, Ok(None)),
                Some(ServiceTypeView::UnhandledType) => (
                    self,
                    Ok(Some(ActionView::Reply(ServiceTypeView::UnknownType))),
                ),
            },
        }
    }

    /// The call, if any, that tells `source` how the handling of its message
    /// under `serial_no` ended: an error becomes a failure response, a reply
    /// is sent as it is, and a plain success is not answered.
    pub open spec fn respond(
        self,
        serial_no: i128,
        source: AddressView,
        outcome: Result<Option<ServiceTypeView>, BshError>,
    ) -> Option<RelayCallView> {
        match outcome {
            Err(error) => Some(self.relay_call(serial_no, source.network, failure_response(error))),
            Ok(Some(message)) => Some(self.relay_call(serial_no, source.network, message)),
            Ok(None) => None,
        }
    }

    /// An inbound message from `caller`.
    pub open spec fn receive(self, caller: Seq<char>, envelope: EnvelopeView<Seq<u8>>) -> (
        ServiceView,
        Result<Option<ActionView>, BshError>,
    ) {
        match self.guard(caller, envelope.service) {
            Err(e) => (self, Err(e)),
            Ok(_) => {
                let (after, handled) = self.dispatch(decode_envelope(envelope));
                let action = match handled {
                    Err(error) => match self.respond(
                        envelope.serial_no,
                        envelope.source,
                        Err(error),
                    ) {
                        Some(call) => Some(ActionView::Send(call)),
                        None => None,
                    },
                    Ok(Some(ActionView::Reply(message))) => match self.respond(
                        envelope.serial_no,
                        envelope.source,
                        Ok(Some(message)),
                    ) {
                        Some(call) => Some(ActionView::Send(call)),
                        None => None,
                    },
                    Ok(action) => action,
                };
                (after, Ok(action))
            },
        }
    }

    /// A relay-level error from `caller` for the request under `serial_no`:
    /// the request failed.
    pub open spec fn receive_error(self, caller: Seq<char>, service: Seq<char>, serial_no: i128) -> (
        ServiceView,
        Result<Option<ActionView>, BshError>,
    ) {
        match self.guard(caller, service) {
            Err(e) => (self, Err(e)),
            Ok(_) => {
                let (after, action) = self.reconcile(serial_no, 1);
                (after, Ok(action))
            },
        }
    }

    /// The request that a transfer of `assets` from `sender` to `destination`
    /// is recorded as.
    pub open spec fn request(
        sender: Seq<char>,
        destination: AddressView,
        assets: Seq<AssetView>,
    ) -> RequestView {
        RequestView { sender, receiver: destination.account, assets }
    }

    /// An outbound transfer: the counter goes up by one, the request is
    /// recorded under the new serial number, and the message goes to the relay.
    pub open spec fn initiate(
        self,
        sender: Seq<char>,
        destination: AddressView,
        assets: Seq<AssetView>,
    ) -> (ServiceView, RelayCallView)
        recommends
            self.serial_no < i128::MAX,
    {
        let serial_no = (self.serial_no + 1) as i128;
        let after = ServiceView {
            serial_no,
            requests: self.requests.insert(
                serial_no,
                ServiceView::request(sender, destination, assets),
            ),
            ..self
        };
        let message = ServiceTypeView::RequestTokenTransfer {
            sender,
            receiver: destination.account,
            assets,
        };
        (after, self.relay_call(serial_no, destination.network, message))
    }
}

/// The token-transfer service of one chain.
#[derive(Debug)]
pub struct NativeCoinService {
    name: String,
    bmc: String,
    serial_no: i128,
    requests: Requests,
}

impl View for NativeCoinService {
    type V = ServiceView;

    closed spec fn view(&self) -> ServiceView {
        ServiceView {
            name: self.name@,
            bmc: self.bmc@,
            serial_no: self.serial_no,
            requests: self.requests@,
        }
    }
}

impl NativeCoinService {
    /// A service named `name` that trusts the relay `bmc`, with no request
    /// sent yet.
    pub fn new(name: String, bmc: String) -> (service: Self)
        ensures
            service@ == (ServiceView {
                name: name@,
                bmc: bmc@,
                serial_no: 0,
                requests: Map::empty(),
            }),
            service@.wf(),
    {
        NativeCoinService { name, bmc, serial_no: 0, requests: Requests::new() }
    }

    /// A service in a state that was kept elsewhere.
    pub fn from_parts(name: String, bmc: String, serial_no: i128, requests: Requests) -> (service:
        Self)
        ensures
            service@ == (ServiceView {
                name: name@,
                bmc: bmc@,
                serial_no,
                requests: requests@,
            }),
    {
        NativeCoinService { name, bmc, serial_no, requests }
    }

    /// The name of this service.
    pub fn name(&self) -> (name: &String)
        ensures
            name@ == self@.name,
    {
        &self.name
    }

    /// The registered relay.
    pub fn bmc(&self) -> (bmc: &String)
        ensures
            bmc@ == self@.bmc,
    {
        &self.bmc
    }

    /// The serial number of the last outbound request.
    pub fn serial_no(&self) -> (serial_no: i128)
        ensures
            serial_no == self@.serial_no,
    {
        self.serial_no
    }

    /// The ledger of pending requests.
    pub fn requests(&self) -> (requests: &Requests)
        ensures
            requests@ == self@.requests,
    {
        &self.requests
    }

    /// The request that was sent last, while it is pending.
    pub fn last_request(&self) -> (found: Option<Request>)
        ensures
            match found {
                Some(request) => self@.requests.contains_key(self@.serial_no)
                    && self@.requests[self@.serial_no] == request@,
                None => !self@.requests.contains_key(self@.serial_no),
            },
    {
        self.requests.get(self.serial_no)
    }

    /// Lets only the registered relay pass.
    pub fn assert_predecessor_is_bmc(&self, caller: &str) -> (res: Result<(), BshError>)
        ensures
            res == if caller@ == self@.bmc {
                Ok::<(), BshError>(())
            } else {
                Err(BshError::NotBmc)
            },
    {
        if caller.to_owned() == self.bmc {
            Ok(())
        } else {
            Err(BshError::NotBmc)
        }
    }

    /// Lets only messages for this service pass.
    pub fn assert_valid_service(&self, service: &str) -> (res: Result<(), BshError>)
        ensures
            res == if service@ == self@.name {
                Ok::<(), BshError>(())
            } else {
                Err(BshError::InvalidService)
            },
    {
        if service.to_owned() == self.name {
            Ok(())
        } else {
            Err(BshError::InvalidService)
        }
    }

    /// Handles a message that the relay brought in.
    ///
    /// A caller other than the registered relay, or a message for another
    /// service, is refused before anything changes. Otherwise the payload is
    /// decoded and routed. A response settles its request; a transfer request
    /// is handed to the host for crediting; an envelope of an unhandled kind is
    /// answered with `UnknownType`; and any failure, a payload that cannot be
    /// decoded among them, is answered with a failure response to the source.
    pub fn handle_btp_message(&mut self, caller: &str, message: BtpMessage<SerializedMessage>) -> (res:
        Result<Option<Action>, BshError>)
        ensures
            (final(self)@, handled_view(res)) == old(self)@.receive(caller@, message@),
            caller@ != old(self)@.bmc ==> res == Err::<Option<Action>, _>(BshError::NotBmc)
                && final(self)@ == old(self)@,
            caller@ == old(self)@.bmc && message@.service != old(self)@.name ==> res == Err::<
                Option<Action>,
                _,
            >(BshError::InvalidService) && final(self)@ == old(self)@,
            old(self)@.guard(caller@, message@.service) is Ok && decode_envelope(message@) is Err
                ==> final(self)@ == old(self)@ && handled_view(res) == Ok::<_, BshError>(
                Some(
                    ActionView::Send(
                        old(self)@.relay_call(
                            message@.serial_no,
                            message@.source.network,
                            failure_response(BshError::DecodeFailed),
                        ),
                    ),
                ),
            ),
    {
        if let Err(e) = self.assert_predecessor_is_bmc(caller) {
            return Err(e);
        }
        if let Err(e) = self.assert_valid_service(message.service.as_str()) {
            return Err(e);
        }
        let handled = self.handle_service_message(decode_btp_message(&message));
        match handled {
            Err(error) => {
                match self.respond(message.serial_no, &message.source, Err(error)) {
                    Some(call) => Ok(Some(Action::Send(call))),
                    None => Ok(None),
                }
            },
            Ok(Some(Action::Reply(service_message))) => {
                match self.respond(message.serial_no, &message.source, Ok(Some(service_message))) {
                    Some(call) => Ok(Some(Action::Send(call))),
                    None => Ok(None),
                }
            },
            Ok(action) => Ok(action),
        }
    }

    /// Handles a relay-level error: the relay could not deliver the request
    /// under `serial_no`, so the request is reconciled as failed, whatever
    /// `code` says. `source`, `code` and `message` describe the error and do
    /// not bear on the outcome.
    #[allow(unused_variables)]
    pub fn handle_btp_error(
        &mut self,
        caller: &str,
        source: &BTPAddress,
        service: &str,
        serial_no: i128,
        code: u128,
        message: &str,
    ) -> (res: Result<Option<Action>, BshError>)
        ensures
            (final(self)@, handled_view(res)) == old(self)@.receive_error(
                caller@,
                service@,
                serial_no,
            ),
            caller@ != old(self)@.bmc ==> res == Err::<Option<Action>, _>(BshError::NotBmc)
                && final(self)@ == old(self)@,
            caller@ == old(self)@.bmc && service@ != old(self)@.name ==> res == Err::<
                Option<Action>,
                _,
            >(BshError::InvalidService) && final(self)@ == old(self)@,
    {
        if let Err(e) = self.assert_predecessor_is_bmc(caller) {
            return Err(e);
        }
        if let Err(e) = self.assert_valid_service(service) {
            return Err(e);
        }
        Ok(self.handle_response(serial_no, 1, message))
    }

    /// The continuation of a relay call: told how the call that carried
    /// `message` ended, it asks for a rollback where the call failed and the
    /// message was a transfer request. The ledger stays as it is.
    #[allow(unused_variables)]
    pub fn send_service_message_callback(
        &self,
        message: TokenServiceMessage,
        serial_no: i128,
        outcome: PromiseOutcome,
    ) -> (action: Option<Action>)
        ensures
            action_view(action) == relay_outcome(message@, outcome),
    {
        match message.service_type {
            TokenServiceType::RequestTokenTransfer { sender, assets, .. } => {
                match outcome {
                    PromiseOutcome::Failed => Some(Action::Rollback { sender, assets }),
                    _ => None,
                }
            },
            _ => None,
        }
    }

    /// Routes a typed envelope by its payload.
    ///
    /// A transfer request asks the host to credit the receiver. A response
    /// reconciles the request under the envelope's serial number. `UnknownType`
    /// is an answer and is not answered. A payload of any other kind is
    /// answered with `UnknownType`. An envelope that could not be had, or that
    /// holds no payload, is an error.
    pub fn handle_service_message(
        &mut self,
        message: Result<BtpMessage<TokenServiceMessage>, BshError>,
    ) -> (res: Result<Option<Action>, BshError>)
        ensures
            (final(self)@, handled_view(res)) == old(self)@.dispatch(typed_view(message)),
            !(typed_view(message) matches Ok(envelope) && envelope.message matches Some(
                ServiceTypeView::ResponseHandleService { .. },
            )) ==> final(self)@ == old(self)@,
    {
        let btp_message = match message {
            Ok(btp_message) => btp_message,
            Err(e) => {
                return Err(e);
            },
        };
        let BtpMessage { source, serial_no, message, .. } = btp_message;
        match message {
            Some(service_message) => match service_message.service_type {
                TokenServiceType::RequestTokenTransfer { receiver, assets, .. } => Ok(
                    Some(Action::Credit { source, receiver, assets }),
                ),
                TokenServiceType::ResponseHandleService { code, message } => Ok(
                    self.handle_response(serial_no, code, message.as_str()),
                ),
                TokenServiceType::UnknownType => Ok(None),
                TokenServiceType::UnhandledType => Ok(
                    Some(Action::Reply(TokenServiceMessage::new(TokenServiceType::UnknownType))),
                ),
            },
            None => Err(BshError::Unknown),
        }
    }

    /// Starts a transfer of `assets` from `sender_id` to `destination`.
    ///
    /// The counter goes up by one, the request is recorded under the new
    /// serial number, and the call that carries the request to the relay is
    /// returned. The counter must not be at its end.
    pub fn send_request(
        &mut self,
        sender_id: String,
        destination: BTPAddress,
        assets: Vec<TransferableAsset>,
    ) -> (call: RelayCall)
        requires
            old(self)@.serial_no < i128::MAX,
        ensures
            (final(self)@, call@) == old(self)@.initiate(
                sender_id@,
                destination@,
                assets_view(assets@),
            ),
            final(self)@.serial_no == old(self)@.serial_no + 1,
            final(self)@.requests.contains_key(final(self)@.serial_no),
            final(self)@.requests[final(self)@.serial_no] == ServiceView::request(
                sender_id@,
                destination@,
                assets_view(assets@),
            ),
    {
        let serial_no = self.serial_no + 1;
        self.serial_no = serial_no;
        let receiver = destination.account_id();
        let request = Request::new(sender_id, receiver, assets);
        self.requests.add(serial_no, &request);
        let Request { sender, receiver, assets } = request;
        let message = TokenServiceMessage::new(
            TokenServiceType::RequestTokenTransfer { sender, receiver, assets },
        );
        let bytes = encode(&message);
        proof {
            lemma_decode_encode(message@);
        }
        self.send_message(serial_no, destination.network_address(), bytes)
    }

    /// The call that sends `service_message` under `serial_no` to the network
    /// of `destination`. The ledger is not touched.
    pub fn send_response(
        &self,
        serial_no: i128,
        destination: &BTPAddress,
        service_message: TokenServiceMessage,
    ) -> (call: RelayCall)
        ensures
            call@ == self@.relay_call(serial_no, destination@.network, service_message@),
    {
        let bytes = encode(&service_message);
        proof {
            lemma_decode_encode(service_message@);
        }
        self.send_message(serial_no, destination.network_address(), bytes)
    }

    /// The call, if any, that tells `source` how the handling of its message
    /// under `serial_no` ended.
    pub fn respond(
        &self,
        serial_no: i128,
        source: &BTPAddress,
        outcome: Result<Option<TokenServiceMessage>, BshError>,
    ) -> (call: Option<RelayCall>)
        ensures
            call_view(call) == self@.respond(serial_no, source@, reply_view(outcome)),
    {
        match outcome {
            Err(error) => {
                let response = TokenServiceMessage::new(
                    TokenServiceType::ResponseHandleService {
                        code: 1,
                        message: error.description(),
                    },
                );
                Some(self.send_response(serial_no, source, response))
            },
            Ok(Some(service_message)) => Some(
                self.send_response(serial_no, source, service_message),
            ),
            Ok(None) => None,
        }
    }

    /// Reconciles the request under `serial_no` with its result.
    ///
    /// A pending request is settled (code 0 finalizes it, any other code rolls
    /// it back) and leaves the ledger. Without a pending request nothing
    /// happens. `message` is for the record only.
    #[allow(unused_variables)]
    pub fn handle_response(&mut self, serial_no: i128, code: u128, message: &str) -> (action:
        Option<Action>)
        ensures
            (final(self)@, action_view(action)) == old(self)@.reconcile(serial_no, code),
            !final(self)@.requests.contains_key(serial_no),
            !old(self)@.requests.contains_key(serial_no) ==> action is None && final(self)@ == old(
                self,
            )@,
    {
        match self.requests.get(serial_no) {
            Some(request) => {
                self.requests.remove(serial_no);
                let Request { sender, assets, .. } = request;
                if code == 0 {
                    Some(Action::Finalize { sender, assets })
                } else {
                    Some(Action::Rollback { sender, assets })
                }
            },
            None => None,
        }
    }

    /// The call that hands `message` under `serial_no` to the relay, for
    /// `destination_network`. `message` must be the wire form of a message:
    /// its typed form goes with the call, for the continuation.
    pub fn send_message(
        &self,
        serial_no: i128,
        destination_network: String,
        message: SerializedMessage,
    ) -> (call: RelayCall)
        requires
            decode_message(message@) is Some,
        ensures
            call@ == (RelayCallView {
                relay: self@.bmc,
                service: self@.name,
                serial_no,
                destination_network: destination_network@,
                message: message@,
                context: decode_message(message@).unwrap(),
            }),
    {
        let context = match decode(&message) {
            Ok(context) => context,
            Err(_) => {
                assert(false);
                vstd::pervasive::unreached()
            },
        };
        RelayCall {
            relay: self.bmc.clone(),
            service: self.name.clone(),
            serial_no,
            destination_network,
            message,
            context,
        }
    }
}

} // verus!
