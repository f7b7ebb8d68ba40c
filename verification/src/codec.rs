//! The wire form of a service message.
//!
//! A message is one tag byte followed by the fields of its variant:
//!
//! | tag | variant                 | fields                                       |
//! |-----|-------------------------|----------------------------------------------|
//! | 0   | `RequestTokenTransfer`  | sender, receiver, count, then `count` assets |
//! | 2   | `ResponseHandleService` | code, message                                |
//! | 5   | `UnknownType`           | none                                         |
//!
//! A text is its length in bytes followed by its UTF-8 bytes; an asset is its
//! name followed by its amount. Lengths and counts are 64-bit, codes and
//! amounts 128-bit (an amount in two's complement), all little-endian.
//! A message with any other tag is of a kind that the service does not handle,
//! whatever follows the tag.

use vstd::prelude::*;
use vstd::bytes::*;
use vstd::slice::*;
use vstd::utf8::*;
use vstd::string::StringSliceAdditionalSpecFns;
use crate::error::BshError;
use crate::types::{
    assets_view, AssetView, BtpMessage, EnvelopeView, SerializedMessage, ServiceTypeView,
    TokenServiceMessage, TokenServiceType, TransferableAsset,
};

verus! {

pub const TAG_REQUEST_TOKEN_TRANSFER: u8 = 0;

pub const TAG_RESPONSE_HANDLE_SERVICE: u8 = 2;

pub const TAG_UNKNOWN_TYPE: u8 = 5;

/// The tag under which a message of no handled kind is written.
pub const TAG_UNHANDLED_TYPE: u8 = 255;

/// The bytes of a length or a count.
pub open spec fn length_bytes(n: nat) -> Seq<u8> {
    spec_u64_to_le_bytes(n as u64)
}

/// The bytes of a text: the length of its UTF-8 form, then that form.
pub open spec fn text_bytes(text: Seq<char>) -> Seq<u8> {
    length_bytes(encode_utf8(text).len()) + encode_utf8(text)
}

/// The bytes of an amount: its two's complement.
pub open spec fn amount_bytes(amount: i128) -> Seq<u8> {
    spec_u128_to_le_bytes(amount as u128)
}

/// The bytes of one asset.
pub open spec fn asset_bytes(asset: AssetView) -> Seq<u8> {
    text_bytes(asset.name) + amount_bytes(asset.amount)
}

/// The bytes of a list of assets, one after the other.
pub open spec fn assets_bytes(assets: Seq<AssetView>) -> Seq<u8>
    decreases assets.len(),
{
    if assets.len() == 0 {
        Seq::empty()
    } else {
        asset_bytes(assets.first()) + assets_bytes(assets.drop_first())
    }
}

/// The wire form of a message.
pub open spec fn encode_message(message: ServiceTypeView) -> Seq<u8> {
    match message {
        ServiceTypeView::RequestTokenTransfer { sender, receiver, assets } => {
            seq![TAG_REQUEST_TOKEN_TRANSFER] + text_bytes(sender) + text_bytes(receiver)
                + length_bytes(assets.len()) + assets_bytes(assets)
        },
        ServiceTypeView::ResponseHandleService { code, message } => {
            seq![TAG_RESPONSE_HANDLE_SERVICE] + spec_u128_to_le_bytes(code) + text_bytes(message)
        },
        ServiceTypeView::UnknownType => seq![TAG_UNKNOWN_TYPE],
        ServiceTypeView::UnhandledType => seq![TAG_UNHANDLED_TYPE],
    }
}

/// The length of the text's UTF-8 form can be written in 64 bits.
pub open spec fn text_fits(text: Seq<char>) -> bool {
    encode_utf8(text).len() <= u64::MAX
}

/// Every length and count of the message can be written in 64 bits. This holds
/// of every message that a machine can hold.
pub open spec fn encodable(message: ServiceTypeView) -> bool {
    match message {
        ServiceTypeView::RequestTokenTransfer { sender, receiver, assets } => {
            &&& text_fits(sender)
            &&& text_fits(receiver)
            &&& assets.len() <= u64::MAX
            &&& forall|i: int| 0 <= i < assets.len() ==> text_fits(#[trigger] assets[i].name)
        },
        ServiceTypeView::ResponseHandleService { code, message } => text_fits(message),
        ServiceTypeView::UnknownType => true,
        ServiceTypeView::UnhandledType => true,
    }
}

/// Reads a length from the front of `bytes`; gives it with what follows it.
pub open spec fn parse_length(bytes: Seq<u8>) -> Option<(nat, Seq<u8>)> {
    if bytes.len() >= 8 {
        Some((spec_u64_from_le_bytes(bytes.take(8)) as nat, bytes.skip(8)))
    } else {
        None
    }
}

/// Reads a 128-bit number from the front of `bytes`.
pub open spec fn parse_u128(bytes: Seq<u8>) -> Option<(u128, Seq<u8>)> {
    if bytes.len() >= 16 {
        Some((spec_u128_from_le_bytes(bytes.take(16)), bytes.skip(16)))
    } else {
        None
    }
}

/// Reads a text from the front of `bytes`. It fails where the bytes run out
/// or the text is not UTF-8.
pub open spec fn parse_text(bytes: Seq<u8>) -> Option<(Seq<char>, Seq<u8>)> {
    match parse_length(bytes) {
        Some((n, rest)) => {
            if n <= rest.len() && valid_utf8(rest.take(n as int)) {
                Some((decode_utf8(rest.take(n as int)), rest.skip(n as int)))
            } else {
                None
            }
        },
        None => None,
    }
}

/// Reads one asset from the front of `bytes`.
pub open spec fn parse_asset(bytes: Seq<u8>) -> Option<(AssetView, Seq<u8>)> {
    match parse_text(bytes) {
        Some((name, rest)) => match parse_u128(rest) {
            Some((amount, rest)) => Some((AssetView { name, amount: amount as i128 }, rest)),
            None => None,
        },
        None => None,
    }
}

/// Reads `count` assets from the front of `bytes`.
pub open spec fn parse_assets(bytes: Seq<u8>, count: nat) -> Option<(Seq<AssetView>, Seq<u8>)>
    decreases count,
{
    if count == 0 {
        Some((Seq::empty(), bytes))
    } else {
        match parse_asset(bytes) {
            Some((asset, rest)) => match parse_assets(rest, (count - 1) as nat) {
                Some((assets, rest)) => Some((seq![asset] + assets, rest)),
                None => None,
            },
            None => None,
        }
    }
}

/// Reads the fields of a transfer request; nothing may follow them.
pub open spec fn parse_request(body: Seq<u8>) -> Option<ServiceTypeView> {
    match parse_text(body) {
        Some((sender, rest)) => match parse_text(rest) {
            Some((receiver, rest)) => match parse_length(rest) {
                Some((count, rest)) => match parse_assets(rest, count) {
                    Some((assets, rest)) => if rest.len() == 0 {
                        Some(ServiceTypeView::RequestTokenTransfer { sender, receiver, assets })
                    } else {
                        None
                    },
                    None => None,
                },
                None => None,
            },
            None => None,
        },
        None => None,
    }
}

/// Reads the fields of a response; nothing may follow them.
pub open spec fn parse_response(body: Seq<u8>) -> Option<ServiceTypeView> {
    match parse_u128(body) {
        Some((code, rest)) => match parse_text(rest) {
            Some((message, rest)) => if rest.len() == 0 {
                Some(ServiceTypeView::ResponseHandleService { code, message })
            } else {
                None
            },
            None => None,
        },
        None => None,
    }
}

/// The message that `bytes` are the wire form of, if they are one.
pub open spec fn decode_message(bytes: Seq<u8>) -> Option<ServiceTypeView> {
    if bytes.len() == 0 {
        None
    } else if bytes[0] == TAG_REQUEST_TOKEN_TRANSFER {
        parse_request(bytes.skip(1))
    } else if bytes[0] == TAG_RESPONSE_HANDLE_SERVICE {
        parse_response(bytes.skip(1))
    } else if bytes[0] == TAG_UNKNOWN_TYPE {
        if bytes.len() == 1 {
            Some(ServiceTypeView::UnknownType)
        } else {
            None
        }
    } else {
        Some(ServiceTypeView::UnhandledType)
    }
}

proof fn lemma_parse_length(n: nat, rest: Seq<u8>)
    requires
        n <= u64::MAX,
    ensures
        parse_length(length_bytes(n) + rest) == Some((n, rest)),
{
    lemma_auto_spec_u64_to_from_le_bytes();
    let bytes = length_bytes(n) + rest;
    assert(bytes.take(8) =~= length_bytes(n));
    assert(bytes.skip(8) =~= rest);
}

proof fn lemma_parse_u128(x: u128, rest: Seq<u8>)
    ensures
        parse_u128(spec_u128_to_le_bytes(x) + rest) == Some((x, rest)),
{
    lemma_auto_spec_u128_to_from_le_bytes();
    let bytes = spec_u128_to_le_bytes(x) + rest;
    assert(bytes.take(16) =~= spec_u128_to_le_bytes(x));
    assert(bytes.skip(16) =~= rest);
}

proof fn lemma_parse_text(text: Seq<char>, rest: Seq<u8>)
    requires
        text_fits(text),
    ensures
        parse_text(text_bytes(text) + rest) == Some((text, rest)),
{
    let utf8 = encode_utf8(text);
    lemma_parse_length(utf8.len(), utf8 + rest);
    assert(text_bytes(text) + rest =~= length_bytes(utf8.len()) + (utf8 + rest));
    assert((utf8 + rest).take(utf8.len() as int) =~= utf8);
    assert((utf8 + rest).skip(utf8.len() as int) =~= rest);
    encode_utf8_valid_utf8(text);
    encode_utf8_decode_utf8(text);
}

proof fn lemma_parse_asset(asset: AssetView, rest: Seq<u8>)
    requires
        text_fits(asset.name),
    ensures
        parse_asset(asset_bytes(asset) + rest) == Some((asset, rest)),
{
    let amount = asset.amount;
    lemma_parse_text(asset.name, amount_bytes(amount) + rest);
    assert(asset_bytes(asset) + rest =~= text_bytes(asset.name) + (amount_bytes(amount) + rest));
    lemma_parse_u128(amount as u128, rest);
    assert((amount as u128) as i128 == amount) by (bit_vector);
}

proof fn lemma_parse_assets(assets: Seq<AssetView>, rest: Seq<u8>)
    requires
        forall|i: int| 0 <= i < assets.len() ==> text_fits(#[trigger] assets[i].name),
    ensures
        parse_assets(assets_bytes(assets) + rest, assets.len()) == Some((assets, rest)),
    decreases assets.len(),
{
    if assets.len() == 0 {
        assert(assets_bytes(assets) + rest =~= rest);
        assert(assets =~= Seq::empty());
    } else {
        let head = assets.first();
        let tail = assets.drop_first();
        assert(text_fits(assets[0].name));
        assert forall|i: int| 0 <= i < tail.len() implies text_fits(#[trigger] tail[i].name) by {
            assert(tail[i] == assets[i + 1]);
        }
        lemma_parse_asset(head, assets_bytes(tail) + rest);
        assert(assets_bytes(assets) + rest =~= asset_bytes(head) + (assets_bytes(tail) + rest));
        lemma_parse_assets(tail, rest);
        assert(seq![head] + tail =~= assets);
    }
}

/// Decoding undoes encoding: the wire form of a message reads back as that
/// message.
pub proof fn lemma_decode_encode(message: ServiceTypeView)
    requires
        encodable(message),
    ensures
        decode_message(encode_message(message)) == Some(message),
{
    let bytes = encode_message(message);
    match message {
        ServiceTypeView::RequestTokenTransfer { sender, receiver, assets } => {
            let tail3 = assets_bytes(assets);
            let tail2 = length_bytes(assets.len()) + tail3;
            let tail1 = text_bytes(receiver) + tail2;
            assert(bytes.skip(1) =~= text_bytes(sender) + tail1);
            lemma_parse_text(sender, tail1);
            lemma_parse_text(receiver, tail2);
            lemma_parse_length(assets.len(), tail3);
            lemma_parse_assets(assets, Seq::empty());
            assert(tail3 + Seq::<u8>::empty() =~= tail3);
        },
        ServiceTypeView::ResponseHandleService { code, message } => {
            assert(bytes.skip(1) =~= spec_u128_to_le_bytes(code) + text_bytes(message));
            lemma_parse_u128(code, text_bytes(message));
            lemma_parse_text(message, Seq::empty());
            assert(text_bytes(message) + Seq::<u8>::empty() =~= text_bytes(message));
        },
        ServiceTypeView::UnknownType => {},
        ServiceTypeView::UnhandledType => {},
    }
}

proof fn lemma_length_parsed(bytes: Seq<u8>)
    requires
        parse_length(bytes) is Some,
    ensures
        ({
            let (n, rest) = parse_length(bytes).unwrap();
            n <= u64::MAX && bytes == length_bytes(n) + rest
        }),
{
    lemma_auto_spec_u64_to_from_le_bytes();
    let (n, rest) = parse_length(bytes).unwrap();
    assert(bytes =~= bytes.take(8) + bytes.skip(8));
    assert(n as u64 == spec_u64_from_le_bytes(bytes.take(8)));
}

proof fn lemma_u128_parsed(bytes: Seq<u8>)
    requires
        parse_u128(bytes) is Some,
    ensures
        ({
            let (x, rest) = parse_u128(bytes).unwrap();
            bytes == spec_u128_to_le_bytes(x) + rest
        }),
{
    lemma_auto_spec_u128_to_from_le_bytes();
    assert(bytes =~= bytes.take(16) + bytes.skip(16));
}

proof fn lemma_text_parsed(bytes: Seq<u8>)
    requires
        parse_text(bytes) is Some,
    ensures
        ({
            let (text, rest) = parse_text(bytes).unwrap();
            text_fits(text) && bytes == text_bytes(text) + rest
        }),
{
    lemma_length_parsed(bytes);
    let (n, body) = parse_length(bytes).unwrap();
    let (text, rest) = parse_text(bytes).unwrap();
    decode_utf8_encode_utf8(body.take(n as int));
    assert(body =~= body.take(n as int) + body.skip(n as int));
    assert(bytes =~= text_bytes(text) + rest);
}

proof fn lemma_asset_parsed(bytes: Seq<u8>)
    requires
        parse_asset(bytes) is Some,
    ensures
        ({
            let (asset, rest) = parse_asset(bytes).unwrap();
            text_fits(asset.name) && bytes == asset_bytes(asset) + rest
        }),
{
    lemma_text_parsed(bytes);
    let (name, tail) = parse_text(bytes).unwrap();
    lemma_u128_parsed(tail);
    let (amount, rest) = parse_u128(tail).unwrap();
    assert((amount as i128) as u128 == amount) by (bit_vector);
    assert(bytes =~= asset_bytes(AssetView { name, amount: amount as i128 }) + rest);
}

proof fn lemma_assets_parsed(bytes: Seq<u8>, count: nat)
    requires
        parse_assets(bytes, count) is Some,
    ensures
        ({
            let (assets, rest) = parse_assets(bytes, count).unwrap();
            &&& assets.len() == count
            &&& forall|i: int| 0 <= i < assets.len() ==> text_fits(#[trigger] assets[i].name)
            &&& bytes == assets_bytes(assets) + rest
        }),
    decreases count,
{
    let (assets, rest) = parse_assets(bytes, count).unwrap();
    if count == 0 {
        assert(bytes =~= assets_bytes(assets) + rest);
    } else {
        lemma_asset_parsed(bytes);
        let (head, after_head) = parse_asset(bytes).unwrap();
        lemma_assets_parsed(after_head, (count - 1) as nat);
        let (tail, _) = parse_assets(after_head, (count - 1) as nat).unwrap();
        assert(assets == seq![head] + tail);
        assert(assets.first() == head);
        assert(assets.drop_first() =~= tail);
        assert forall|i: int| 0 <= i < assets.len() implies text_fits(
            #[trigger] assets[i].name,
        ) by {
            if i > 0 {
                assert(assets[i] == tail[i - 1]);
            }
        }
        assert(bytes =~= assets_bytes(assets) + rest);
    }
}

/// Encoding undoes decoding: bytes that read as a message of a handled kind
/// are the wire form of that message, so such a message has one wire form only.
pub proof fn lemma_encode_decode(bytes: Seq<u8>)
    requires
        decode_message(bytes) is Some,
        decode_message(bytes) != Some(ServiceTypeView::UnhandledType),
    ensures
        encodable(decode_message(bytes).unwrap()),
        encode_message(decode_message(bytes).unwrap()) == bytes,
{
    let body = bytes.skip(1);
    assert(bytes =~= seq![bytes[0]] + body);
    if bytes[0] == TAG_REQUEST_TOKEN_TRANSFER {
        lemma_text_parsed(body);
        let (sender, r1) = parse_text(body).unwrap();
        lemma_text_parsed(r1);
        let (receiver, r2) = parse_text(r1).unwrap();
        lemma_length_parsed(r2);
        let (count, r3) = parse_length(r2).unwrap();
        lemma_assets_parsed(r3, count);
        let (assets, r4) = parse_assets(r3, count).unwrap();
        assert(r4 =~= Seq::<u8>::empty());
        assert(bytes =~= encode_message(
            ServiceTypeView::RequestTokenTransfer { sender, receiver, assets },
        ));
    } else if bytes[0] == TAG_RESPONSE_HANDLE_SERVICE {
        lemma_u128_parsed(body);
        let (code, r1) = parse_u128(body).unwrap();
        lemma_text_parsed(r1);
        let (message, r2) = parse_text(r1).unwrap();
        assert(r2 =~= Seq::<u8>::empty());
        assert(bytes =~= encode_message(ServiceTypeView::ResponseHandleService { code, message }));
    } else {
        assert(bytes =~= seq![TAG_UNKNOWN_TYPE]);
    }
}

/// What the typed form of an envelope is: the same envelope round the decoded
/// payload. An envelope without a payload stays without one.
pub open spec fn decode_envelope(envelope: EnvelopeView<Seq<u8>>) -> Result<
    EnvelopeView<ServiceTypeView>,
    BshError,
> {
    let message = match envelope.message {
        Some(bytes) => decode_message(bytes),
        None => None,
    };
    if envelope.message is Some && message is None {
        Err(BshError::DecodeFailed)
    } else {
        Ok(
            EnvelopeView {
                source: envelope.source,
                destination: envelope.destination,
                service: envelope.service,
                serial_no: envelope.serial_no,
                message,
            },
        )
    }
}

proof fn lemma_assets_bytes_push(assets: Seq<AssetView>, asset: AssetView)
    ensures
        assets_bytes(assets.push(asset)) == assets_bytes(assets) + asset_bytes(asset),
    decreases assets.len(),
{
    let all = assets.push(asset);
    if assets.len() == 0 {
        assert(all.drop_first() =~= Seq::empty());
        assert(assets_bytes(all.drop_first()) =~= Seq::empty());
        assert(assets_bytes(all) =~= asset_bytes(asset));
        assert(assets_bytes(assets) + asset_bytes(asset) =~= asset_bytes(asset));
    } else {
        assert(all.drop_first() =~= assets.drop_first().push(asset));
        lemma_assets_bytes_push(assets.drop_first(), asset);
        assert(all.first() == assets.first());
        assert(assets_bytes(all) =~= assets_bytes(assets) + asset_bytes(asset));
    }
}

proof fn lemma_parse_assets_split(bytes: Seq<u8>, i: nat, j: nat)
    ensures
        parse_assets(bytes, i + j) == match parse_assets(bytes, i) {
            Some((front, rest)) => match parse_assets(rest, j) {
                Some((back, rest)) => Some((front + back, rest)),
                None => None,
            },
            None => None,
        },
    decreases i,
{
    if i == 0 {
        match parse_assets(bytes, j) {
            Some((back, rest)) => {
                assert(Seq::<AssetView>::empty() + back =~= back);
            },
            None => {},
        }
    } else {
        match parse_asset(bytes) {
            Some((asset, rest)) => {
                lemma_parse_assets_split(rest, (i - 1) as nat, j);
                match parse_assets(rest, (i - 1) as nat) {
                    Some((front, rest)) => {
                        match parse_assets(rest, j) {
                            Some((back, rest)) => {
                                assert(seq![asset] + (front + back) =~= (seq![asset] + front)
                                    + back);
                            },
                            None => {},
                        }
                    },
                    None => {},
                }
            },
            None => {},
        }
    }
}

fn put_bytes(out: &mut Vec<u8>, bytes: &[u8])
    ensures
        final(out)@ == old(out)@ + bytes@,
{
    out.extend_from_slice(bytes);
    assert(out@ =~= old(out)@ + bytes@);
}

fn put_length(out: &mut Vec<u8>, n: usize)
    ensures
        final(out)@ == old(out)@ + length_bytes(n as nat),
{
    let word = u64_to_le_bytes(n as u64);
    put_bytes(out, word.as_slice());
}

fn put_u128(out: &mut Vec<u8>, x: u128)
    ensures
        final(out)@ == old(out)@ + spec_u128_to_le_bytes(x),
{
    let word = u128_to_le_bytes(x);
    put_bytes(out, word.as_slice());
}

fn put_text(out: &mut Vec<u8>, text: &str)
    ensures
        final(out)@ == old(out)@ + text_bytes(text@),
        text_fits(text@),
{
    let utf8 = text.as_bytes();
    put_length(out, utf8.len());
    put_bytes(out, utf8);
    assert(out@ =~= old(out)@ + text_bytes(text@));
}

fn put_assets(out: &mut Vec<u8>, assets: &Vec<TransferableAsset>)
    ensures
        final(out)@ == old(out)@ + assets_bytes(assets_view(assets@)),
        forall|i: int|
            0 <= i < assets@.len() ==> text_fits(#[trigger] assets_view(assets@)[i].name),
{
    let ghost all = assets_view(assets@);
    let mut i: usize = 0;
    assert(all.take(0) =~= Seq::empty());
    assert(out@ =~= old(out)@ + assets_bytes(all.take(0)));
    while i < assets.len()
        invariant
            i <= assets.len(),
            all == assets_view(assets@),
            out@ == old(out)@ + assets_bytes(all.take(i as int)),
            forall|j: int| 0 <= j < i ==> text_fits(#[trigger] all[j].name),
        decreases assets.len() - i,
    {
        let ghost before = out@;
        put_text(out, assets[i].name.as_str());
        put_u128(out, assets[i].amount as u128);
        proof {
            lemma_assets_bytes_push(all.take(i as int), all[i as int]);
            assert(all.take(i + 1) =~= all.take(i as int).push(all[i as int]));
            assert(out@ =~= before + asset_bytes(all[i as int]));
            assert(out@ =~= old(out)@ + assets_bytes(all.take(i + 1)));
        }
        i += 1;
    }
    assert(all.take(i as int) =~= all);
}

/// Writes a message in its wire form.
pub fn encode(message: &TokenServiceMessage) -> (bytes: SerializedMessage)
    ensures
        bytes@ == encode_message(message@),
        encodable(message@),
{
    let mut out: Vec<u8> = Vec::new();
    match &message.service_type {
        TokenServiceType::RequestTokenTransfer { sender, receiver, assets } => {
            out.push(TAG_REQUEST_TOKEN_TRANSFER);
            put_text(&mut out, sender.as_str());
            put_text(&mut out, receiver.as_str());
            put_length(&mut out, assets.len());
            put_assets(&mut out, assets);
        },
        TokenServiceType::ResponseHandleService { code, message } => {
            out.push(TAG_RESPONSE_HANDLE_SERVICE);
            put_u128(&mut out, *code);
            put_text(&mut out, message.as_str());
        },
        TokenServiceType::UnknownType => {
            out.push(TAG_UNKNOWN_TYPE);
        },
        TokenServiceType::UnhandledType => {
            out.push(TAG_UNHANDLED_TYPE);
        },
    }
    assert(out@ =~= encode_message(message@));
    SerializedMessage { data: out }
}

/// `String::from_utf8` of std. It gives a string for the byte vectors that are
/// UTF-8 and for no others, and the string then holds exactly these bytes.
#[verifier::external_body]
fn string_from_utf8(bytes: Vec<u8>) -> (res: Option<String>)
    ensures
        res is Some <==> valid_utf8(bytes@),
        res matches Some(text) ==> encode_utf8(text@) == bytes@,
{
    String::from_utf8(bytes).ok()
}

fn take_length(bytes: &Vec<u8>, pos: usize) -> (res: Option<(u64, usize)>)
    requires
        pos <= bytes.len(),
    ensures
        match res {
            Some((n, next)) => next <= bytes.len() && parse_length(bytes@.skip(pos as int))
                == Some((n as nat, bytes@.skip(next as int))),
            None => parse_length(bytes@.skip(pos as int)) is None,
        },
{
    if bytes.len() - pos < 8 {
        return None;
    }
    let n = u64_from_le_bytes(slice_subrange(bytes.as_slice(), pos, pos + 8));
    proof {
        assert(bytes@.skip(pos as int).take(8) =~= bytes@.subrange(pos as int, pos + 8));
        assert(bytes@.skip(pos as int).skip(8) =~= bytes@.skip(pos + 8));
    }
    Some((n, pos + 8))
}

fn take_u128(bytes: &Vec<u8>, pos: usize) -> (res: Option<(u128, usize)>)
    requires
        pos <= bytes.len(),
    ensures
        match res {
            Some((x, next)) => next <= bytes.len() && parse_u128(bytes@.skip(pos as int)) == Some(
                (x, bytes@.skip(next as int)),
            ),
            None => parse_u128(bytes@.skip(pos as int)) is None,
        },
{
    if bytes.len() - pos < 16 {
        return None;
    }
    let x = u128_from_le_bytes(slice_subrange(bytes.as_slice(), pos, pos + 16));
    proof {
        assert(bytes@.skip(pos as int).take(16) =~= bytes@.subrange(pos as int, pos + 16));
        assert(bytes@.skip(pos as int).skip(16) =~= bytes@.skip(pos + 16));
    }
    Some((x, pos + 16))
}

fn take_text(bytes: &Vec<u8>, pos: usize) -> (res: Option<(String, usize)>)
    requires
        pos <= bytes.len(),
    ensures
        match res {
            Some((text, next)) => next <= bytes.len() && parse_text(bytes@.skip(pos as int))
                == Some((text@, bytes@.skip(next as int))),
            None => parse_text(bytes@.skip(pos as int)) is None,
        },
{
    let (n, start) = match take_length(bytes, pos) {
        Some(found) => found,
        None => {
            return None;
        },
    };
    if n > (bytes.len() - start) as u64 {
        return None;
    }
    let end: usize = start + n as usize;
    let raw = slice_to_vec(slice_subrange(bytes.as_slice(), start, end));
    proof {
        assert(bytes@.skip(start as int).take(n as int) =~= raw@);
        assert(bytes@.skip(start as int).skip(n as int) =~= bytes@.skip(end as int));
    }
    match string_from_utf8(raw) {
        Some(text) => {
            proof {
                encode_utf8_decode_utf8(text@);
            }
            Some((text, end))
        },
        None => None,
    }
}

fn take_asset(bytes: &Vec<u8>, pos: usize) -> (res: Option<(TransferableAsset, usize)>)
    requires
        pos <= bytes.len(),
    ensures
        match res {
            Some((asset, next)) => next <= bytes.len() && parse_asset(bytes@.skip(pos as int))
                == Some((asset@, bytes@.skip(next as int))),
            None => parse_asset(bytes@.skip(pos as int)) is None,
        },
{
    let (name, next) = match take_text(bytes, pos) {
        Some(found) => found,
        None => {
            return None;
        },
    };
    let (amount, next) = match take_u128(bytes, next) {
        Some(found) => found,
        None => {
            return None;
        },
    };
    Some((TransferableAsset { name, amount: amount as i128 }, next))
}

fn take_assets(bytes: &Vec<u8>, pos: usize, count: u64) -> (res: Option<
    (Vec<TransferableAsset>, usize),
>)
    requires
        pos <= bytes.len(),
    ensures
        match res {
            Some((assets, next)) => next <= bytes.len() && parse_assets(
                bytes@.skip(pos as int),
                count as nat,
            ) == Some((assets_view(assets@), bytes@.skip(next as int))),
            None => parse_assets(bytes@.skip(pos as int), count as nat) is None,
        },
{
    let ghost input = bytes@.skip(pos as int);
    let mut assets: Vec<TransferableAsset> = Vec::new();
    let mut next: usize = pos;
    let mut i: u64 = 0;
    assert(assets_view(assets@) =~= Seq::empty());
    while i < count
        invariant
            i <= count,
            next <= bytes.len(),
            input == bytes@.skip(pos as int),
            parse_assets(input, i as nat) == Some(
                (assets_view(assets@), bytes@.skip(next as int)),
            ),
        decreases count - i,
    {
        proof {
            reveal_with_fuel(parse_assets, 2);
            lemma_parse_assets_split(input, i as nat, 1);
            lemma_parse_assets_split(input, (i + 1) as nat, (count - i - 1) as nat);
        }
        let ghost before = assets_view(assets@);
        match take_asset(bytes, next) {
            Some((asset, after)) => {
                assets.push(asset);
                next = after;
                assert(assets_view(assets@) =~= before + seq![asset@]);
            },
            None => {
                return None;
            },
        }
        i += 1;
    }
    Some((assets, next))
}

/// Reads a message from its wire form. It fails with `DecodeFailed` exactly
/// where the bytes are the wire form of no message.
pub fn decode(bytes: &SerializedMessage) -> (res: Result<TokenServiceMessage, BshError>)
    ensures
        match res {
            Ok(message) => decode_message(bytes@) == Some(message@),
            Err(e) => e == BshError::DecodeFailed && decode_message(bytes@) is None,
        },
{
    let data = &bytes.data;
    if data.len() == 0 {
        return Err(BshError::DecodeFailed);
    }
    let tag = data[0];
    if tag == TAG_REQUEST_TOKEN_TRANSFER {
        let (sender, next) = match take_text(data, 1) {
            Some(found) => found,
            None => {
                return Err(BshError::DecodeFailed);
            },
        };
        let (receiver, next) = match take_text(data, next) {
            Some(found) => found,
            None => {
                return Err(BshError::DecodeFailed);
            },
        };
        let (count, next) = match take_length(data, next) {
            Some(found) => found,
            None => {
                return Err(BshError::DecodeFailed);
            },
        };
        let (assets, next) = match take_assets(data, next, count) {
            Some(found) => found,
            None => {
                return Err(BshError::DecodeFailed);
            },
        };
        if next != data.len() {
            return Err(BshError::DecodeFailed);
        }
        Ok(
            TokenServiceMessage {
                service_type: TokenServiceType::RequestTokenTransfer { sender, receiver, assets },
            },
        )
    } else if tag == TAG_RESPONSE_HANDLE_SERVICE {
        let (code, next) = match take_u128(data, 1) {
            Some(found) => found,
            None => {
                return Err(BshError::DecodeFailed);
            },
        };
        let (message, next) = match take_text(data, next) {
            Some(found) => found,
            None => {
                return Err(BshError::DecodeFailed);
            },
        };
        if next != data.len() {
            return Err(BshError::DecodeFailed);
        }
        Ok(
            TokenServiceMessage {
                service_type: TokenServiceType::ResponseHandleService { code, message },
            },
        )
    } else if tag == TAG_UNKNOWN_TYPE {
        if data.len() != 1 {
            return Err(BshError::DecodeFailed);
        }
        Ok(TokenServiceMessage { service_type: TokenServiceType::UnknownType })
    } else {
        Ok(TokenServiceMessage { service_type: TokenServiceType::UnhandledType })
    }
}

/// Turns an envelope round bytes into the envelope round the message that the
/// bytes are the wire form of.
pub fn decode_btp_message(envelope: &BtpMessage<SerializedMessage>) -> (res: Result<
    BtpMessage<TokenServiceMessage>,
    BshError,
>)
    ensures
        match res {
            Ok(typed) => decode_envelope(envelope@) == Ok::<_, BshError>(typed@),
            Err(e) => decode_envelope(envelope@) == Err::<EnvelopeView<ServiceTypeView>, _>(e),
        },
{
    let message = match &envelope.message {
        Some(bytes) => match decode(bytes) {
            Ok(message) => Some(message),
            Err(e) => {
                return Err(e);
            },
        },
        None => None,
    };
    Ok(
        BtpMessage {
            source: envelope.source.clone(),
            destination: envelope.destination.clone(),
            service: envelope.service.clone(),
            serial_no: envelope.serial_no,
            message,
        },
    )
}

} // verus!
