//! The values that travel between the service, its ledger and the relay.

use vstd::prelude::*;
use crate::address::{AddressView, BTPAddress};

verus! {

/// An amount of one asset.
#[derive(Debug, PartialEq, Eq)]
pub struct TransferableAsset {
    /// The identifier of the asset.
    pub name: String,
    /// The amount. It is signed so that an adjustment can be written down; the
    /// amount of a transfer is not negative.
    pub amount: i128,
}

/// What a [`TransferableAsset`] stands for.
pub struct AssetView {
    pub name: Seq<char>,
    pub amount: i128,
}

impl View for TransferableAsset {
    type V = AssetView;

    open spec fn view(&self) -> AssetView {
        AssetView { name: self.name@, amount: self.amount }
    }
}

impl Clone for TransferableAsset {
    fn clone(&self) -> (res: Self)
        ensures
            res@ == self@,
    {
        TransferableAsset { name: self.name.clone(), amount: self.amount }
    }
}

impl TransferableAsset {
    pub fn new(name: String, amount: i128) -> (asset: Self)
        ensures
            asset@ == (AssetView { name: name@, amount }),
    {
        TransferableAsset { name, amount }
    }

    pub fn name(&self) -> (name: &String)
        ensures
            name@ == self@.name,
    {
        &self.name
    }

    pub fn amount(&self) -> (amount: i128)
        ensures
            amount == self@.amount,
    {
        self.amount
    }
}

/// What a list of assets stands for, item by item.
pub open spec fn assets_view(assets: Seq<TransferableAsset>) -> Seq<AssetView> {
    Seq::new(assets.len(), |i: int| assets[i]@)
}

/// A copy of a list of assets.
pub fn clone_assets(assets: &Vec<TransferableAsset>) -> (res: Vec<TransferableAsset>)
    ensures
        assets_view(res@) == assets_view(assets@),
{
    let mut res: Vec<TransferableAsset> = Vec::new();
    let mut i: usize = 0;
    while i < assets.len()
        invariant
            i <= assets.len(),
            res@.len() == i,
            forall|j: int| 0 <= j < i ==> res@[j]@ == assets@[j]@,
        decreases assets.len() - i,
    {
        res.push(assets[i].clone());
        i += 1;
    }
    assert(assets_view(res@) =~= assets_view(assets@));
    res
}

/// A pending outbound transfer, as the ledger keeps it.
#[derive(Debug, PartialEq, Eq)]
pub struct Request {
    /// Who sent the assets.
    pub sender: String,
    /// The account on the other chain that is to receive them.
    pub receiver: String,
    /// What was sent.
    pub assets: Vec<TransferableAsset>,
}

/// What a [`Request`] stands for.
pub struct RequestView {
    pub sender: Seq<char>,
    pub receiver: Seq<char>,
    pub assets: Seq<AssetView>,
}

impl View for Request {
    type V = RequestView;

    open spec fn view(&self) -> RequestView {
        RequestView {
            sender: self.sender@,
            receiver: self.receiver@,
            assets: assets_view(self.assets@),
        }
    }
}

impl Clone for Request {
    fn clone(&self) -> (res: Self)
        ensures
            res@ == self@,
    {
        Request {
            sender: self.sender.clone(),
            receiver: self.receiver.clone(),
            assets: clone_assets(&self.assets),
        }
    }
}

impl Request {
    pub fn new(sender: String, receiver: String, assets: Vec<TransferableAsset>) -> (request: Self)
        ensures
            request@ == (RequestView {
                sender: sender@,
                receiver: receiver@,
                assets: assets_view(assets@),
            }),
    {
        Request { sender, receiver, assets }
    }

    pub fn sender(&self) -> (sender: &String)
        ensures
            sender@ == self@.sender,
    {
        &self.sender
    }

    pub fn receiver(&self) -> (receiver: &String)
        ensures
            receiver@ == self@.receiver,
    {
        &self.receiver
    }

    pub fn assets(&self) -> (assets: &Vec<TransferableAsset>)
        ensures
            assets_view(assets@) == self@.assets,
    {
        &self.assets
    }
}

/// The payload of a service message. Exactly one variant is active; the
/// variant is written on the wire as a tag of its own.
#[derive(Debug, PartialEq, Eq)]
pub enum TokenServiceType {
    /// Asks the receiving chain to credit `receiver` with `assets`.
    RequestTokenTransfer { sender: String, receiver: String, assets: Vec<TransferableAsset> },
    /// Answers a request: `code` 0 is success, any other code is failure.
    ResponseHandleService { code: u128, message: String },
    /// Says that a message was not understood.
    UnknownType,
    /// A message of a kind that this service does not handle.
    UnhandledType,
}

/// What a [`TokenServiceType`] stands for.
pub enum ServiceTypeView {
    RequestTokenTransfer { sender: Seq<char>, receiver: Seq<char>, assets: Seq<AssetView> },
    ResponseHandleService { code: u128, message: Seq<char> },
    UnknownType,
    UnhandledType,
}

impl View for TokenServiceType {
    type V = ServiceTypeView;

    open spec fn view(&self) -> ServiceTypeView {
        match self {
            TokenServiceType::RequestTokenTransfer { sender, receiver, assets } => {
                ServiceTypeView::RequestTokenTransfer {
                    sender: sender@,
                    receiver: receiver@,
                    assets: assets_view(assets@),
                }
            },
            TokenServiceType::ResponseHandleService { code, message } => {
                ServiceTypeView::ResponseHandleService { code: *code, message: message@ }
            },
            TokenServiceType::UnknownType => ServiceTypeView::UnknownType,
            TokenServiceType::UnhandledType => ServiceTypeView::UnhandledType,
        }
    }
}

impl Clone for TokenServiceType {
    fn clone(&self) -> (res: Self)
        ensures
            res@ == self@,
    {
        match self {
            TokenServiceType::RequestTokenTransfer { sender, receiver, assets } => {
                TokenServiceType::RequestTokenTransfer {
                    sender: sender.clone(),
                    receiver: receiver.clone(),
                    assets: clone_assets(assets),
                }
            },
            TokenServiceType::ResponseHandleService { code, message } => {
                TokenServiceType::ResponseHandleService { code: *code, message: message.clone() }
            },
            TokenServiceType::UnknownType => TokenServiceType::UnknownType,
            TokenServiceType::UnhandledType => TokenServiceType::UnhandledType,
        }
    }
}

/// A message of the token service in its typed form.
#[derive(Debug, PartialEq, Eq)]
pub struct TokenServiceMessage {
    pub service_type: TokenServiceType,
}

impl View for TokenServiceMessage {
    type V = ServiceTypeView;

    open spec fn view(&self) -> ServiceTypeView {
        self.service_type@
    }
}

impl Clone for TokenServiceMessage {
    fn clone(&self) -> (res: Self)
        ensures
            res@ == self@,
    {
        TokenServiceMessage { service_type: self.service_type.clone() }
    }
}

impl TokenServiceMessage {
    pub fn new(service_type: TokenServiceType) -> (message: Self)
        ensures
            message@ == service_type@,
    {
        TokenServiceMessage { service_type }
    }

    pub fn service_type(&self) -> (service_type: &TokenServiceType)
        ensures
            service_type@ == self@,
    {
        &self.service_type
    }
}

/// A message of the token service as the relay carries it: bytes.
#[derive(Debug, PartialEq, Eq)]
pub struct SerializedMessage {
    pub data: Vec<u8>,
}

impl View for SerializedMessage {
    type V = Seq<u8>;

    open spec fn view(&self) -> Seq<u8> {
        self.data@
    }
}

impl Clone for SerializedMessage {
    fn clone(&self) -> (res: Self)
        ensures
            res@ == self@,
    {
        SerializedMessage { data: self.data.clone() }
    }
}

impl SerializedMessage {
    pub fn new(data: Vec<u8>) -> (message: Self)
        ensures
            message@ == data@,
    {
        SerializedMessage { data }
    }

    pub fn data(&self) -> (data: &Vec<u8>)
        ensures
            data@ == self@,
    {
        &self.data
    }
}

/// The envelope round a payload: where it comes from, where it goes, the
/// service it is for and the serial number that ties a response to its request.
#[derive(Debug, PartialEq, Eq)]
pub struct BtpMessage<T> {
    pub source: BTPAddress,
    pub destination: BTPAddress,
    pub service: String,
    pub serial_no: i128,
    pub message: Option<T>,
}

/// What a [`BtpMessage`] stands for, over what its payload stands for.
pub struct EnvelopeView<P> {
    pub source: AddressView,
    pub destination: AddressView,
    pub service: Seq<char>,
    pub serial_no: i128,
    pub message: Option<P>,
}

impl<T: View> View for BtpMessage<T> {
    type V = EnvelopeView<T::V>;

    open spec fn view(&self) -> EnvelopeView<T::V> {
        EnvelopeView {
            source: self.source@,
            destination: self.destination@,
            service: self.service@,
            serial_no: self.serial_no,
            message: match self.message {
                Some(m) => Some(m@),
                None => None,
            },
        }
    }
}

impl<T: View> BtpMessage<T> {
    pub fn new(
        source: BTPAddress,
        destination: BTPAddress,
        service: String,
        serial_no: i128,
        message: Option<T>,
    ) -> (envelope: Self)
        ensures
            envelope == (BtpMessage { source, destination, service, serial_no, message }),
    {
        BtpMessage { source, destination, service, serial_no, message }
    }

    pub fn source(&self) -> (source: &BTPAddress)
        ensures
            source@ == self@.source,
    {
        &self.source
    }

    pub fn destination(&self) -> (destination: &BTPAddress)
        ensures
            destination@ == self@.destination,
    {
        &self.destination
    }

    pub fn service(&self) -> (service: &String)
        ensures
            service@ == self@.service,
    {
        &self.service
    }

    pub fn serial_no(&self) -> (serial_no: i128)
        ensures
            serial_no == self@.serial_no,
    {
        self.serial_no
    }

    pub fn message(&self) -> (message: &Option<T>)
        ensures
            *message == self.message,
    {
        &self.message
    }
}

} // verus!
