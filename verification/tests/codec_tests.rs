use nativecoin_service::codec::{decode, decode_btp_message, encode};
use nativecoin_service::{
    BTPAddress, BshError, BtpMessage, SerializedMessage, TokenServiceMessage, TokenServiceType,
    TransferableAsset,
};

fn asset(name: &str, amount: i128) -> TransferableAsset {
    TransferableAsset::new(name.to_string(), amount)
}

fn request(sender: &str, receiver: &str, assets: Vec<TransferableAsset>) -> TokenServiceMessage {
    TokenServiceMessage::new(TokenServiceType::RequestTokenTransfer {
        sender: sender.to_string(),
        receiver: receiver.to_string(),
        assets,
    })
}

fn response(code: u128, message: &str) -> TokenServiceMessage {
    TokenServiceMessage::new(TokenServiceType::ResponseHandleService {
        code,
        message: message.to_string(),
    })
}

fn text(s: &str) -> Vec<u8> {
    let mut out = (s.len() as u64).to_le_bytes().to_vec();
    out.extend_from_slice(s.as_bytes());
    out
}

#[test]
fn encode_unknown_type_is_one_tag_byte() {
    let bytes = encode(&TokenServiceMessage::new(TokenServiceType::UnknownType));
    assert_eq!(bytes.data, vec![5u8]);
}

#[test]
fn encode_unhandled_type_is_one_tag_byte() {
    let bytes = encode(&TokenServiceMessage::new(TokenServiceType::UnhandledType));
    assert_eq!(bytes.data, vec![255u8]);
}

#[test]
fn encode_response_exact_bytes() {
    let bytes = encode(&response(1, "no"));
    let mut expected = vec![2u8];
    expected.extend_from_slice(&[1, 0, 0, 0, 0, 0, 0, 0, 0, 0, 0, 0, 0, 0, 0, 0]);
    expected.extend_from_slice(&[2, 0, 0, 0, 0, 0, 0, 0]);
    expected.extend_from_slice(b"no");
    assert_eq!(bytes.data, expected);
}

#[test]
fn encode_request_exact_bytes() {
    let bytes = encode(&request("S", "accountC", vec![asset("X", 100)]));
    let mut expected = vec![0u8];
    expected.extend_from_slice(&[1, 0, 0, 0, 0, 0, 0, 0]);
    expected.extend_from_slice(b"S");
    expected.extend_from_slice(&[8, 0, 0, 0, 0, 0, 0, 0]);
    expected.extend_from_slice(b"accountC");
    expected.extend_from_slice(&[1, 0, 0, 0, 0, 0, 0, 0]);
    expected.extend_from_slice(&[1, 0, 0, 0, 0, 0, 0, 0]);
    expected.extend_from_slice(b"X");
    expected.extend_from_slice(&[100, 0, 0, 0, 0, 0, 0, 0, 0, 0, 0, 0, 0, 0, 0, 0]);
    assert_eq!(bytes.data, expected);
}

#[test]
fn encode_negative_amount_is_twos_complement() {
    let bytes = encode(&request("", "", vec![asset("", -1)]));
    let mut expected = vec![0u8];
    expected.extend_from_slice(&[0; 8]);
    expected.extend_from_slice(&[0; 8]);
    expected.extend_from_slice(&[1, 0, 0, 0, 0, 0, 0, 0]);
    expected.extend_from_slice(&[0; 8]);
    expected.extend_from_slice(&[0xff; 16]);
    assert_eq!(bytes.data, expected);
}

#[test]
fn encode_text_length_counts_utf8_bytes() {
    let bytes = encode(&response(0, "é€"));
    let mut expected = vec![2u8];
    expected.extend_from_slice(&[0; 16]);
    expected.extend_from_slice(&[5, 0, 0, 0, 0, 0, 0, 0]);
    expected.extend_from_slice("é€".as_bytes());
    assert_eq!(bytes.data, expected);
}

#[test]
fn decode_reads_back_a_request() {
    let message = request(
        "alice.near",
        "0xabc",
        vec![asset("X", 100), asset("NEAR", i128::MAX), asset("debt", i128::MIN), asset("", 0)],
    );
    assert_eq!(decode(&encode(&message)), Ok(message));
}

#[test]
fn decode_reads_back_a_request_without_assets() {
    let message = request("alice", "bob", vec![]);
    assert_eq!(decode(&encode(&message)), Ok(message));
}

#[test]
fn decode_reads_back_a_response() {
    let message = response(u128::MAX, "insufficient balance");
    assert_eq!(decode(&encode(&message)), Ok(message));
    let message = response(0, "");
    assert_eq!(decode(&encode(&message)), Ok(message));
}

#[test]
fn decode_reads_back_unknown_and_unhandled() {
    let unknown = TokenServiceMessage::new(TokenServiceType::UnknownType);
    assert_eq!(decode(&encode(&unknown)), Ok(unknown));
    let unhandled = TokenServiceMessage::new(TokenServiceType::UnhandledType);
    assert_eq!(decode(&encode(&unhandled)), Ok(unhandled));
}

#[test]
fn decode_refuses_empty_bytes() {
    assert_eq!(decode(&SerializedMessage::new(vec![])), Err(BshError::DecodeFailed));
}

#[test]
fn decode_takes_any_other_tag_as_unhandled() {
    let unhandled = TokenServiceMessage::new(TokenServiceType::UnhandledType);
    assert_eq!(decode(&SerializedMessage::new(vec![1])), Ok(unhandled));
    let unhandled = TokenServiceMessage::new(TokenServiceType::UnhandledType);
    assert_eq!(decode(&SerializedMessage::new(vec![3, 9, 9, 9])), Ok(unhandled));
    let unhandled = TokenServiceMessage::new(TokenServiceType::UnhandledType);
    assert_eq!(decode(&SerializedMessage::new(vec![4])), Ok(unhandled));
}

#[test]
fn decode_refuses_unknown_type_with_trailing_bytes() {
    assert_eq!(decode(&SerializedMessage::new(vec![5, 0])), Err(BshError::DecodeFailed));
}

#[test]
fn decode_refuses_truncated_response() {
    let mut bytes = encode(&response(1, "insufficient balance")).data;
    bytes.pop();
    assert_eq!(decode(&SerializedMessage::new(bytes)), Err(BshError::DecodeFailed));
    assert_eq!(decode(&SerializedMessage::new(vec![2])), Err(BshError::DecodeFailed));
    assert_eq!(decode(&SerializedMessage::new(vec![2, 1, 0, 0])), Err(BshError::DecodeFailed));
}

#[test]
fn decode_refuses_trailing_bytes() {
    let mut bytes = encode(&response(1, "x")).data;
    bytes.push(0);
    assert_eq!(decode(&SerializedMessage::new(bytes)), Err(BshError::DecodeFailed));
    let mut bytes = encode(&request("a", "b", vec![asset("X", 1)])).data;
    bytes.push(7);
    assert_eq!(decode(&SerializedMessage::new(bytes)), Err(BshError::DecodeFailed));
}

#[test]
fn decode_refuses_text_that_is_not_utf8() {
    let mut bytes = vec![2u8];
    bytes.extend_from_slice(&[0; 16]);
    bytes.extend_from_slice(&[2, 0, 0, 0, 0, 0, 0, 0]);
    bytes.extend_from_slice(&[0xc3, 0x28]);
    assert_eq!(decode(&SerializedMessage::new(bytes)), Err(BshError::DecodeFailed));
}

#[test]
fn decode_refuses_length_beyond_the_bytes() {
    let mut bytes = vec![2u8];
    bytes.extend_from_slice(&[0; 16]);
    bytes.extend_from_slice(&[0xff; 8]);
    bytes.extend_from_slice(b"abc");
    assert_eq!(decode(&SerializedMessage::new(bytes)), Err(BshError::DecodeFailed));
}

#[test]
fn decode_refuses_count_beyond_the_assets() {
    let mut bytes = vec![0u8];
    bytes.extend(text("a"));
    bytes.extend(text("b"));
    bytes.extend_from_slice(&[2, 0, 0, 0, 0, 0, 0, 0]);
    bytes.extend(text("X"));
    bytes.extend_from_slice(&100i128.to_le_bytes());
    assert_eq!(decode(&SerializedMessage::new(bytes)), Err(BshError::DecodeFailed));
}

#[test]
fn decode_refuses_huge_count() {
    let mut bytes = vec![0u8];
    bytes.extend(text("a"));
    bytes.extend(text("b"));
    bytes.extend_from_slice(&[0xff; 8]);
    assert_eq!(decode(&SerializedMessage::new(bytes)), Err(BshError::DecodeFailed));
}

#[test]
fn decode_reads_hand_written_request() {
    let mut bytes = vec![0u8];
    bytes.extend(text("S"));
    bytes.extend(text("accountC"));
    bytes.extend_from_slice(&2u64.to_le_bytes());
    bytes.extend(text("X"));
    bytes.extend_from_slice(&100i128.to_le_bytes());
    bytes.extend(text("Y"));
    bytes.extend_from_slice(&(-7i128).to_le_bytes());
    assert_eq!(
        decode(&SerializedMessage::new(bytes)),
        Ok(request("S", "accountC", vec![asset("X", 100), asset("Y", -7)]))
    );
}

#[test]
fn decode_btp_message_keeps_the_envelope() {
    let source = BTPAddress::parse("chainB/bsh").unwrap();
    let destination = BTPAddress::parse("chainA/bsh").unwrap();
    let envelope = BtpMessage::new(
        source.clone(),
        destination.clone(),
        "nativecoin".to_string(),
        7,
        Some(encode(&response(0, "ok"))),
    );
    let typed = decode_btp_message(&envelope).unwrap();
    assert_eq!(typed.source(), &source);
    assert_eq!(typed.destination(), &destination);
    assert_eq!(typed.service(), "nativecoin");
    assert_eq!(typed.serial_no(), 7);
    assert_eq!(typed.message(), &Some(response(0, "ok")));
}

#[test]
fn decode_btp_message_without_payload() {
    let source = BTPAddress::parse("chainB/bsh").unwrap();
    let destination = BTPAddress::parse("chainA/bsh").unwrap();
    let envelope: BtpMessage<SerializedMessage> =
        BtpMessage::new(source, destination, "nativecoin".to_string(), 7, None);
    let typed = decode_btp_message(&envelope).unwrap();
    assert_eq!(typed.message(), &None);
    assert_eq!(typed.serial_no(), 7);
}

#[test]
fn decode_btp_message_fails_on_bad_payload() {
    let source = BTPAddress::parse("chainB/bsh").unwrap();
    let destination = BTPAddress::parse("chainA/bsh").unwrap();
    let envelope = BtpMessage::new(
        source,
        destination,
        "nativecoin".to_string(),
        7,
        Some(SerializedMessage::new(vec![2, 1])),
    );
    assert_eq!(decode_btp_message(&envelope), Err(BshError::DecodeFailed));
}

#[test]
fn decode_reads_back_text_beyond_ascii() {
    let message = response(1, "solde insuffisant: 10 € — réessayez ✓");
    assert_eq!(decode(&encode(&message)), Ok(message));
    let message = request("ålice", "bøb", vec![asset("¥", 5)]);
    assert_eq!(decode(&encode(&message)), Ok(message));
}
