use nativecoin_service::codec::{decode, encode};
use nativecoin_service::{
    Action, BTPAddress, BshError, BtpMessage, NativeCoinService, PromiseOutcome, RelayCall,
    Request, Requests, SerializedMessage, TokenServiceMessage, TokenServiceType,
    TransferableAsset,
};

const BMC: &str = "bmc.chainA";
const SERVICE: &str = "nativecoin";

fn service() -> NativeCoinService {
    NativeCoinService::new(SERVICE.to_string(), BMC.to_string())
}

fn assets() -> Vec<TransferableAsset> {
    vec![TransferableAsset::new("X".to_string(), 100)]
}

fn address(text: &str) -> BTPAddress {
    BTPAddress::parse(text).unwrap()
}

fn response(code: u128, message: &str) -> TokenServiceMessage {
    TokenServiceMessage::new(TokenServiceType::ResponseHandleService {
        code,
        message: message.to_string(),
    })
}

fn transfer(sender: &str, receiver: &str) -> TokenServiceMessage {
    TokenServiceMessage::new(TokenServiceType::RequestTokenTransfer {
        sender: sender.to_string(),
        receiver: receiver.to_string(),
        assets: assets(),
    })
}

fn unknown() -> TokenServiceMessage {
    TokenServiceMessage::new(TokenServiceType::UnknownType)
}

fn inbound(serial_no: i128, message: &TokenServiceMessage) -> BtpMessage<SerializedMessage> {
    BtpMessage::new(
        address("chainB/bsh"),
        address("chainA/bsh"),
        SERVICE.to_string(),
        serial_no,
        Some(encode(message)),
    )
}

fn typed(serial_no: i128, message: Option<TokenServiceMessage>) -> BtpMessage<TokenServiceMessage> {
    BtpMessage::new(
        address("chainB/bsh"),
        address("chainA/bsh"),
        SERVICE.to_string(),
        serial_no,
        message,
    )
}

fn call_to(serial_no: i128, network: &str, message: TokenServiceMessage) -> RelayCall {
    RelayCall {
        relay: BMC.to_string(),
        service: SERVICE.to_string(),
        serial_no,
        destination_network: network.to_string(),
        message: encode(&message),
        context: message,
    }
}

#[test]
fn new_service_has_sent_nothing() {
    let s = service();
    assert_eq!(s.name(), SERVICE);
    assert_eq!(s.bmc(), BMC);
    assert_eq!(s.serial_no(), 0);
    assert_eq!(s.last_request(), None);
    assert!(s.requests().serial_numbers().is_empty());
}

#[test]
fn send_request_records_the_request_and_advances_the_counter() {
    let mut s = service();
    let call = s.send_request("S".to_string(), address("chainB/accountC"), assets());
    assert_eq!(s.serial_no(), 1);
    let recorded = Request::new("S".to_string(), "accountC".to_string(), assets());
    assert_eq!(s.requests().get(1), Some(recorded.clone()));
    assert_eq!(s.last_request(), Some(recorded));
    assert_eq!(s.requests().serial_numbers(), vec![1]);
    assert_eq!(call, call_to(1, "chainB", transfer("S", "accountC")));
    assert_eq!(decode(&call.message), Ok(transfer("S", "accountC")));
}

#[test]
fn send_request_gives_out_serial_numbers_in_order() {
    let mut s = service();
    let first = s.send_request("S".to_string(), address("chainB/accountC"), assets());
    let second = s.send_request("T".to_string(), address("chainC/accountD"), vec![]);
    assert_eq!(first.serial_no, 1);
    assert_eq!(second.serial_no, 2);
    assert_eq!(s.serial_no(), 2);
    assert_eq!(second.destination_network, "chainC");
    assert_eq!(
        s.requests().get(2),
        Some(Request::new("T".to_string(), "accountD".to_string(), vec![]))
    );
    assert!(s.requests().contains(1));
}

#[test]
fn scenario_response_success_finalizes_once() {
    let mut s = service();
    s.send_request("S".to_string(), address("chainB/accountC"), assets());
    assert_eq!(
        s.requests().get(1),
        Some(Request::new("S".to_string(), "accountC".to_string(), assets()))
    );
    let res = s.handle_btp_message(BMC, inbound(1, &response(0, "")));
    assert_eq!(res, Ok(Some(Action::Finalize { sender: "S".to_string(), assets: assets() })));
    assert_eq!(s.requests().get(1), None);
    assert_eq!(s.serial_no(), 1);
    let again = s.handle_btp_message(BMC, inbound(1, &response(0, "")));
    assert_eq!(again, Ok(None));
    assert_eq!(s.requests().get(1), None);
}

#[test]
fn scenario_response_failure_rolls_back_once() {
    let mut s = service();
    s.send_request("S".to_string(), address("chainB/accountC"), assets());
    let res = s.handle_btp_message(BMC, inbound(1, &response(1, "insufficient balance")));
    assert_eq!(res, Ok(Some(Action::Rollback { sender: "S".to_string(), assets: assets() })));
    assert_eq!(s.requests().get(1), None);
    let again = s.handle_btp_message(BMC, inbound(1, &response(1, "insufficient balance")));
    assert_eq!(again, Ok(None));
    let late_success = s.handle_btp_message(BMC, inbound(1, &response(0, "")));
    assert_eq!(late_success, Ok(None));
}

#[test]
fn scenario_relay_send_failure_rolls_back_at_once() {
    let mut s = service();
    s.send_request("R".to_string(), address("chainB/accountZ"), vec![]);
    let call = s.send_request("S".to_string(), address("chainB/accountC"), assets());
    assert_eq!(call.serial_no, 2);
    let action = s.send_service_message_callback(call.context, 2, PromiseOutcome::Failed);
    assert_eq!(action, Some(Action::Rollback { sender: "S".to_string(), assets: assets() }));
    // The continuation does not wait for a response and leaves the ledger as
    // it is: the entry stays as a record of the request.
    assert_eq!(
        s.requests().get(2),
        Some(Request::new("S".to_string(), "accountC".to_string(), assets()))
    );
    assert!(s.requests().contains(1));
    assert_eq!(s.serial_no(), 2);
}

#[test]
fn response_after_a_failed_send_finds_the_entry_that_was_left() {
    let mut s = service();
    s.send_request("R".to_string(), address("chainB/accountZ"), vec![]);
    let call = s.send_request("S".to_string(), address("chainB/accountC"), assets());
    s.send_service_message_callback(call.context, 2, PromiseOutcome::Failed);
    // The entry was left in place, so the first response for it still
    // reconciles it; every later one does nothing.
    assert_eq!(
        s.handle_btp_message(BMC, inbound(2, &response(1, "late"))),
        Ok(Some(Action::Rollback { sender: "S".to_string(), assets: assets() }))
    );
    assert!(!s.requests().contains(2));
    assert_eq!(s.handle_btp_message(BMC, inbound(2, &response(1, "late"))), Ok(None));
    assert_eq!(s.handle_btp_message(BMC, inbound(2, &response(0, ""))), Ok(None));
    assert!(s.requests().contains(1));
}

#[test]
fn response_for_a_serial_number_never_recorded_does_nothing() {
    let mut s = service();
    s.send_request("R".to_string(), address("chainB/accountZ"), vec![]);
    assert_eq!(s.handle_btp_message(BMC, inbound(2, &response(1, "stray"))), Ok(None));
    assert_eq!(s.handle_btp_message(BMC, inbound(2, &response(0, ""))), Ok(None));
    assert!(s.requests().contains(1));
    assert_eq!(s.serial_no(), 1);
}

#[test]
fn scenario_unauthorized_transfer_request_is_refused() {
    let mut s = service();
    s.send_request("S".to_string(), address("chainB/accountC"), assets());
    let res = s.handle_btp_message("mallory", inbound(9, &transfer("eve", "mallory")));
    assert_eq!(res, Err(BshError::NotBmc));
    assert_eq!(s.serial_no(), 1);
    assert_eq!(
        s.requests().get(1),
        Some(Request::new("S".to_string(), "accountC".to_string(), assets()))
    );
    assert_eq!(s.requests().serial_numbers(), vec![1]);
}

#[test]
fn unauthorized_response_does_not_touch_the_ledger() {
    let mut s = service();
    s.send_request("S".to_string(), address("chainB/accountC"), assets());
    let res = s.handle_btp_message("bmc.chainB", inbound(1, &response(0, "")));
    assert_eq!(res, Err(BshError::NotBmc));
    assert!(s.requests().contains(1));
    let res = s.handle_btp_message("", inbound(1, &response(1, "")));
    assert_eq!(res, Err(BshError::NotBmc));
    assert!(s.requests().contains(1));
}

#[test]
fn unauthorized_caller_is_refused_whatever_the_payload() {
    let mut s = service();
    let garbage = BtpMessage::new(
        address("chainB/bsh"),
        address("chainA/bsh"),
        "other".to_string(),
        1,
        Some(SerializedMessage::new(vec![2, 1, 2, 3])),
    );
    assert_eq!(s.handle_btp_message("mallory", garbage), Err(BshError::NotBmc));
    let empty: BtpMessage<SerializedMessage> = BtpMessage::new(
        address("chainB/bsh"),
        address("chainA/bsh"),
        SERVICE.to_string(),
        1,
        None,
    );
    assert_eq!(s.handle_btp_message("mallory", empty), Err(BshError::NotBmc));
}

#[test]
fn message_for_another_service_is_refused() {
    let mut s = service();
    s.send_request("S".to_string(), address("chainB/accountC"), assets());
    let message = BtpMessage::new(
        address("chainB/bsh"),
        address("chainA/bsh"),
        "token".to_string(),
        1,
        Some(encode(&response(0, ""))),
    );
    assert_eq!(s.handle_btp_message(BMC, message), Err(BshError::InvalidService));
    assert!(s.requests().contains(1));
    assert_eq!(s.serial_no(), 1);
}

#[test]
fn guards_alone() {
    let s = service();
    assert_eq!(s.assert_predecessor_is_bmc(BMC), Ok(()));
    assert_eq!(s.assert_predecessor_is_bmc("bmc.chainA "), Err(BshError::NotBmc));
    assert_eq!(s.assert_valid_service(SERVICE), Ok(()));
    assert_eq!(s.assert_valid_service("Nativecoin"), Err(BshError::InvalidService));
}

#[test]
fn decode_failure_is_answered_with_a_failure_response() {
    let mut s = service();
    s.send_request("S".to_string(), address("chainB/accountC"), assets());
    let message = BtpMessage::new(
        address("chainB/bsh"),
        address("chainA/bsh"),
        SERVICE.to_string(),
        1,
        Some(SerializedMessage::new(vec![2, 1, 2, 3])),
    );
    let res = s.handle_btp_message(BMC, message);
    assert_eq!(res, Ok(Some(Action::Send(call_to(1, "chainB", response(1, "DecodeFailed"))))));
    assert!(s.requests().contains(1));
    assert_eq!(s.serial_no(), 1);
}

#[test]
fn envelope_without_payload_is_answered_with_a_failure_response() {
    let mut s = service();
    let message: BtpMessage<SerializedMessage> = BtpMessage::new(
        address("chainB/bsh"),
        address("chainA/bsh"),
        SERVICE.to_string(),
        4,
        None,
    );
    let res = s.handle_btp_message(BMC, message);
    assert_eq!(res, Ok(Some(Action::Send(call_to(4, "chainB", response(1, "Unknown"))))));
}

#[test]
fn inbound_transfer_request_asks_for_a_credit() {
    let mut s = service();
    let res = s.handle_btp_message(BMC, inbound(12, &transfer("remote", "bob")));
    assert_eq!(
        res,
        Ok(Some(Action::Credit {
            source: address("chainB/bsh"),
            receiver: "bob".to_string(),
            assets: assets(),
        }))
    );
    assert_eq!(s.serial_no(), 0);
    assert!(s.requests().serial_numbers().is_empty());
}

#[test]
fn inbound_unknown_type_is_not_answered() {
    let mut s = service();
    s.send_request("S".to_string(), address("chainB/accountC"), assets());
    assert_eq!(s.handle_btp_message(BMC, inbound(1, &unknown())), Ok(None));
    assert!(s.requests().contains(1));
}

#[test]
fn inbound_unhandled_type_is_answered_with_unknown_type() {
    let mut s = service();
    let message = BtpMessage::new(
        address("chainB/bsh"),
        address("chainA/bsh"),
        SERVICE.to_string(),
        3,
        Some(SerializedMessage::new(vec![4, 1, 2, 3])),
    );
    let res = s.handle_btp_message(BMC, message);
    assert_eq!(res, Ok(Some(Action::Send(call_to(3, "chainB", unknown())))));
}

#[test]
fn handle_service_message_routes_each_kind() {
    let mut s = service();
    s.send_request("S".to_string(), address("chainB/accountC"), assets());
    assert_eq!(s.handle_service_message(Err(BshError::DecodeFailed)), Err(BshError::DecodeFailed));
    assert_eq!(s.handle_service_message(Ok(typed(1, None))), Err(BshError::Unknown));
    assert_eq!(s.handle_service_message(Ok(typed(1, Some(unknown())))), Ok(None));
    assert_eq!(
        s.handle_service_message(Ok(typed(
            1,
            Some(TokenServiceMessage::new(TokenServiceType::UnhandledType))
        ))),
        Ok(Some(Action::Reply(unknown())))
    );
    assert_eq!(
        s.handle_service_message(Ok(typed(5, Some(transfer("remote", "bob"))))),
        Ok(Some(Action::Credit {
            source: address("chainB/bsh"),
            receiver: "bob".to_string(),
            assets: assets(),
        }))
    );
    assert!(s.requests().contains(1));
    assert_eq!(s.handle_service_message(Ok(typed(2, Some(response(0, ""))))), Ok(None));
    assert!(s.requests().contains(1));
    assert_eq!(
        s.handle_service_message(Ok(typed(1, Some(response(0, ""))))),
        Ok(Some(Action::Finalize { sender: "S".to_string(), assets: assets() }))
    );
    assert!(!s.requests().contains(1));
}

#[test]
fn handle_response_without_entry_does_nothing() {
    let mut s = service();
    s.send_request("S".to_string(), address("chainB/accountC"), assets());
    assert_eq!(s.handle_response(2, 0, ""), None);
    assert_eq!(s.handle_response(0, 1, ""), None);
    assert_eq!(s.handle_response(-1, 1, ""), None);
    assert_eq!(s.serial_no(), 1);
    assert_eq!(s.requests().serial_numbers(), vec![1]);
}

#[test]
fn handle_response_rolls_back_on_every_code_but_zero() {
    for code in [1u128, 2, 77, u128::MAX] {
        let mut s = service();
        s.send_request("S".to_string(), address("chainB/accountC"), assets());
        assert_eq!(
            s.handle_response(1, code, "failed"),
            Some(Action::Rollback { sender: "S".to_string(), assets: assets() })
        );
        assert!(!s.requests().contains(1));
        assert_eq!(s.handle_response(1, code, "failed"), None);
    }
}

#[test]
fn requests_are_reconciled_independently() {
    let mut s = service();
    s.send_request("A".to_string(), address("chainB/a"), assets());
    s.send_request("B".to_string(), address("chainB/b"), vec![]);
    s.send_request("C".to_string(), address("chainB/c"), assets());
    assert_eq!(
        s.handle_response(2, 0, ""),
        Some(Action::Finalize { sender: "B".to_string(), assets: vec![] })
    );
    assert!(s.requests().contains(1));
    assert!(s.requests().contains(3));
    assert_eq!(
        s.handle_response(3, 1, ""),
        Some(Action::Rollback { sender: "C".to_string(), assets: assets() })
    );
    assert_eq!(
        s.handle_response(1, 0, ""),
        Some(Action::Finalize { sender: "A".to_string(), assets: assets() })
    );
    assert!(s.requests().serial_numbers().is_empty());
    assert_eq!(s.serial_no(), 3);
    let call = s.send_request("D".to_string(), address("chainB/d"), assets());
    assert_eq!(call.serial_no, 4);
}

#[test]
fn handle_btp_error_rolls_back_whatever_the_code() {
    let mut s = service();
    s.send_request("S".to_string(), address("chainB/accountC"), assets());
    let source = address("chainB/bmc");
    let res = s.handle_btp_error(BMC, &source, SERVICE, 1, 0, "unreachable");
    assert_eq!(res, Ok(Some(Action::Rollback { sender: "S".to_string(), assets: assets() })));
    assert!(!s.requests().contains(1));
    let again = s.handle_btp_error(BMC, &source, SERVICE, 1, 0, "unreachable");
    assert_eq!(again, Ok(None));
}

#[test]
fn handle_btp_error_is_guarded() {
    let mut s = service();
    s.send_request("S".to_string(), address("chainB/accountC"), assets());
    let source = address("chainB/bmc");
    assert_eq!(
        s.handle_btp_error("mallory", &source, SERVICE, 1, 1, "x"),
        Err(BshError::NotBmc)
    );
    assert_eq!(
        s.handle_btp_error(BMC, &source, "token", 1, 1, "x"),
        Err(BshError::InvalidService)
    );
    assert_eq!(
        s.handle_btp_error("mallory", &source, "token", 1, 1, "x"),
        Err(BshError::NotBmc)
    );
    assert!(s.requests().contains(1));
}

#[test]
fn callback_asks_for_nothing_unless_a_transfer_failed() {
    let s = service();
    assert_eq!(
        s.send_service_message_callback(transfer("S", "accountC"), 1, PromiseOutcome::Successful),
        None
    );
    assert_eq!(
        s.send_service_message_callback(transfer("S", "accountC"), 1, PromiseOutcome::NotReady),
        None
    );
    assert_eq!(
        s.send_service_message_callback(response(1, "x"), 1, PromiseOutcome::Failed),
        None
    );
    assert_eq!(s.send_service_message_callback(unknown(), 1, PromiseOutcome::Failed), None);
    assert_eq!(
        s.send_service_message_callback(transfer("S", "accountC"), 1, PromiseOutcome::Failed),
        Some(Action::Rollback { sender: "S".to_string(), assets: assets() })
    );
}

#[test]
fn respond_answers_errors_and_replies_only() {
    let s = service();
    let source = address("chainB/bsh");
    assert_eq!(s.respond(8, &source, Ok(None)), None);
    assert_eq!(
        s.respond(8, &source, Err(BshError::Unknown)),
        Some(call_to(8, "chainB", response(1, "Unknown")))
    );
    assert_eq!(
        s.respond(8, &source, Err(BshError::InvalidAddress)),
        Some(call_to(8, "chainB", response(1, "InvalidAddress")))
    );
    assert_eq!(
        s.respond(8, &source, Ok(Some(unknown()))),
        Some(call_to(8, "chainB", unknown()))
    );
}

#[test]
fn send_response_does_not_touch_the_ledger() {
    let mut s = service();
    s.send_request("S".to_string(), address("chainB/accountC"), assets());
    let call = s.send_response(1, &address("chainB/bsh"), response(0, "done"));
    assert_eq!(call, call_to(1, "chainB", response(0, "done")));
    assert_eq!(s.serial_no(), 1);
    assert!(s.requests().contains(1));
}

#[test]
fn send_message_carries_the_typed_form() {
    let s = service();
    let bytes = encode(&response(1, "no"));
    let call = s.send_message(-3, "chainZ".to_string(), bytes.clone());
    assert_eq!(call.relay, BMC);
    assert_eq!(call.service, SERVICE);
    assert_eq!(call.serial_no, -3);
    assert_eq!(call.destination_network, "chainZ");
    assert_eq!(call.message, bytes);
    assert_eq!(call.context, response(1, "no"));
}

#[test]
fn from_parts_restores_a_state() {
    let mut requests = Requests::new();
    requests.add(3, &Request::new("S".to_string(), "accountC".to_string(), assets()));
    let mut s = NativeCoinService::from_parts(SERVICE.to_string(), BMC.to_string(), 5, requests);
    assert_eq!(s.serial_no(), 5);
    assert_eq!(s.last_request(), None);
    let call = s.send_request("T".to_string(), address("chainB/d"), vec![]);
    assert_eq!(call.serial_no, 6);
    assert_eq!(
        s.handle_response(3, 0, ""),
        Some(Action::Finalize { sender: "S".to_string(), assets: assets() })
    );
}
