use vstd::prelude::*;
use crate::types::{
    BundleView, Envelope, EnvelopeView, LeafMessage, PriceFeedMessage, ProvenRecord,
    PythReceiverError, UpdateBundle,
};
use pythnet_sdk::accumulators::merkle::{MerklePath, MerkleRoot};
use pythnet_sdk::hashers::keccak256_160::Keccak160;
use pythnet_sdk::messages::Message;
use pythnet_sdk::wire::from_slice;
use pythnet_sdk::wire::v1::{AccumulatorUpdateData, Proof, WormholeMessage, WormholePayload};
use wormhole_vaas::{Readable, Vaa};

verus! {

/// The bundle that the accumulator wire format assigns to `bytes`, if any.
pub uninterp spec fn wire_bundle(bytes: Seq<u8>) -> Option<BundleView>;

/// The envelope that the attested-message format assigns to `bytes`, if any.
pub uninterp spec fn wire_envelope(bytes: Seq<u8>) -> Option<EnvelopeView>;

/// The Merkle root that an envelope's payload commits to, if the payload is
/// a Merkle commitment.
pub uninterp spec fn wire_commitment(payload: Seq<u8>) -> Option<Seq<u8>>;

/// The message that the big-endian message format assigns to `leaf`, if any.
pub uninterp spec fn wire_message(leaf: Seq<u8>) -> Option<LeafMessage>;

/// Whether `path` proves that `leaf` lies in the tree with root `root`,
/// under the 160-bit truncated Keccak hash.
pub uninterp spec fn merkle_accepts(root: Seq<u8>, leaf: Seq<u8>, path: Seq<Seq<u8>>) -> bool;

/// The view of a decoded bundle, if there is one.
pub open spec fn bundle_view_of(b: Option<UpdateBundle>) -> Option<BundleView> {
    match b {
        Some(b) => Some(b@),
        None => None,
    }
}

/// The view of a decoded envelope, if there is one.
pub open spec fn envelope_view_of(e: Option<Envelope>) -> Option<EnvelopeView> {
    match e {
        Some(e) => Some(e@),
        None => None,
    }
}

/// The bytes of a digest, if there is one.
pub open spec fn digest_view_of(d: Option<[u8; 20]>) -> Option<Seq<u8>> {
    match d {
        Some(d) => Some(d@),
        None => None,
    }
}

/// Calls `AccumulatorUpdateData::try_from_slice` of pythnet_sdk and moves the
/// envelope and the records of its one proof variant into an `UpdateBundle`.
/// Trusted: the outcome is the function `wire_bundle` of the bytes; `None`
/// stands for every decoding error.
#[verifier::external_body]
fn read_bundle(bytes: &Vec<u8>) -> (r: Option<UpdateBundle>)
    ensures
        bundle_view_of(r) == wire_bundle(bytes@),
{
    let Proof::WormholeMerkle { vaa, updates } =
        AccumulatorUpdateData::try_from_slice(bytes).ok()?.proof;
    let records = updates
        .into_iter()
        .map(|u| ProvenRecord { leaf: u.message.into(), path: u.proof.to_vec() })
        .collect();
    Some(UpdateBundle { envelope: vaa.into(), records })
}

/// Calls `Vaa::read` of wormhole_vaas on the raw envelope and keeps the
/// emitter and the binary payload. Trusted: the outcome is the function
/// `wire_envelope` of the bytes; `None` stands for every decoding error.
#[verifier::external_body]
fn read_envelope(bytes: &Vec<u8>) -> (r: Option<Envelope>)
    ensures
        envelope_view_of(r) == wire_envelope(bytes@),
{
    let vaa = Vaa::read(&mut bytes.as_slice()).ok()?;
    Some(Envelope {
        emitter_chain: vaa.body.emitter_chain,
        emitter_address: vaa.body.emitter_address.0,
        payload: vaa.body.payload_bytes()?.to_vec(),
    })
}

/// Calls `WormholeMessage::try_from_bytes` of pythnet_sdk on an envelope's
/// payload and takes the root out of its Merkle variant. Trusted: the
/// outcome is the function `wire_commitment` of the payload.
#[verifier::external_body]
fn read_commitment(payload: &Vec<u8>) -> (r: Option<[u8; 20]>)
    ensures
        digest_view_of(r) == wire_commitment(payload@),
{
    let WormholePayload::Merkle(commitment) = WormholeMessage::try_from_bytes(payload).ok()?.payload;
    Some(commitment.root)
}

/// Calls `from_slice` of pythnet_sdk, big-endian, for a `Message`, and moves
/// the fields of a price-feed message over. Trusted: the outcome is the
/// function `wire_message` of the leaf; `None` stands for every decoding
/// error.
#[verifier::external_body]
fn read_message(leaf: &Vec<u8>) -> (r: Option<LeafMessage>)
    ensures
        r == wire_message(leaf@),
{
    match from_slice::<byteorder::BE, Message>(leaf).ok()? {
        Message::PriceFeedMessage(m) => Some(LeafMessage::PriceFeed(PriceFeedMessage {
            feed_id: m.feed_id,
            price: m.price,
            conf: m.conf,
            exponent: m.exponent,
            publish_time: m.publish_time,
            ema_price: m.ema_price,
            ema_conf: m.ema_conf,
        })),
        Message::TwapMessage(_) => Some(LeafMessage::Twap),
        Message::PublisherStakeCapsMessage(_) => Some(LeafMessage::PublisherStakeCaps),
    }
}

/// Calls `MerkleRoot::check` of pythnet_sdk with the Keccak160 hasher.
/// Trusted: the answer is the function `merkle_accepts` of the root, the
/// leaf and the path.
#[verifier::external_body]
fn merkle_check(root: &[u8; 20], record: &ProvenRecord) -> (ok: bool)
    ensures
        ok == merkle_accepts(root@, record@.leaf, record@.path),
{
    MerkleRoot::<Keccak160>::new(*root).check(MerklePath::new(record.path.clone()), &record.leaf)
}

/// The four bytes that open every update bundle.
pub open spec fn magic() -> Seq<u8> {
    seq![0x50u8, 0x4eu8, 0x41u8, 0x55u8]
}

/// Whether `bytes` is long enough for the magic and opens with it.
pub open spec fn has_magic(bytes: Seq<u8>) -> bool {
    bytes.len() >= 4 && bytes.subrange(0, 4) == magic()
}

/// The bundle that `bytes` holds: none without the magic, else what the
/// wire format assigns.
pub open spec fn bundle_of(bytes: Seq<u8>) -> Option<BundleView> {
    if has_magic(bytes) {
        wire_bundle(bytes)
    } else {
        None
    }
}

/// Decodes an update bundle. Input shorter than the magic, input that does
/// not open with it, and input that the wire format rejects are all
/// `MalformedData`.
pub fn decode_bundle(bytes: &Vec<u8>) -> (r: Result<UpdateBundle, PythReceiverError>)
    ensures
        match bundle_of(bytes@) {
            Some(b) => r.is_ok() && r.unwrap()@ == b,
            None => r == Err::<UpdateBundle, PythReceiverError>(PythReceiverError::MalformedData),
        },
        !has_magic(bytes@) ==> r.is_err(),
{
    if bytes.len() < 4 {
        return Err(PythReceiverError::MalformedData);
    }
    if bytes[0] != 0x50 || bytes[1] != 0x4e || bytes[2] != 0x41 || bytes[3] != 0x55 {
        assert(bytes@.subrange(0, 4)[0] == bytes@[0]);
        assert(bytes@.subrange(0, 4)[1] == bytes@[1]);
        assert(bytes@.subrange(0, 4)[2] == bytes@[2]);
        assert(bytes@.subrange(0, 4)[3] == bytes@[3]);
        return Err(PythReceiverError::MalformedData);
    }
    assert(bytes@.subrange(0, 4) =~= magic());
    match read_bundle(bytes) {
        Some(b) => Ok(b),
        None => Err(PythReceiverError::MalformedData),
    }
}

/// The raw envelope of a bundle: the bytes that the signature verifier must
/// be asked about.
pub fn envelope_of(bytes: &Vec<u8>) -> (r: Result<Vec<u8>, PythReceiverError>)
    ensures
        match bundle_of(bytes@) {
            Some(b) => r.is_ok() && r.unwrap()@ == b.envelope,
            None => r == Err::<Vec<u8>, PythReceiverError>(PythReceiverError::MalformedData),
        },
{
    match decode_bundle(bytes) {
        Ok(b) => Ok(b.envelope),
        Err(e) => Err(e),
    }
}

/// What authentication of an envelope yields: the emitter and the root
/// that the payload commits to.
#[derive(Clone, Copy, Debug, PartialEq, Eq)]
pub struct Attested {
    pub emitter_chain: u16,
    pub emitter_address: [u8; 32],
    pub root: [u8; 20],
}

/// An authenticated envelope as a value.
pub ghost struct AttestedView {
    pub emitter_chain: u16,
    pub emitter_address: Seq<u8>,
    pub root: Seq<u8>,
}

impl View for Attested {
    type V = AttestedView;

    open spec fn view(&self) -> AttestedView {
        AttestedView {
            emitter_chain: self.emitter_chain,
            emitter_address: self.emitter_address@,
            root: self.root@,
        }
    }
}

/// The outcome of authenticating `envelope`, given the signature verifier's
/// answer on those same bytes.
pub open spec fn authenticated(envelope: Seq<u8>, accepted: bool) -> Result<
    AttestedView,
    PythReceiverError,
> {
    if !accepted {
        Err(PythReceiverError::AuthenticationFailed)
    } else {
        match wire_envelope(envelope) {
            None => Err(PythReceiverError::AuthenticationFailed),
            Some(e) => match wire_commitment(e.payload) {
                None => Err(PythReceiverError::UnexpectedPayloadType),
                Some(root) => Ok(
                    AttestedView {
                        emitter_chain: e.emitter_chain,
                        emitter_address: e.emitter_address,
                        root,
                    },
                ),
            },
        }
    }
}

/// The view of an authentication's outcome.
pub open spec fn attested_view_of(r: Result<Attested, PythReceiverError>) -> Result<
    AttestedView,
    PythReceiverError,
> {
    match r {
        Ok(a) => Ok(a@),
        Err(e) => Err(e),
    }
}

/// The root that a decoded envelope commits to; `UnexpectedPayloadType`
/// where its payload is no Merkle commitment.
pub fn parse_wormhole_proof(envelope: &Envelope) -> (r: Result<[u8; 20], PythReceiverError>)
    ensures
        match wire_commitment(envelope@.payload) {
            Some(root) => r.is_ok() && r.unwrap()@ == root,
            None => r == Err::<[u8; 20], PythReceiverError>(
                PythReceiverError::UnexpectedPayloadType,
            ),
        },
{
    match read_commitment(&envelope.payload) {
        Some(root) => Ok(root),
        None => Err(PythReceiverError::UnexpectedPayloadType),
    }
}

/// Joins a decoded envelope's emitter with the root that its payload
/// commits to; the payload's error where there is no root.
pub fn attest(envelope: &Envelope, root: Result<[u8; 20], PythReceiverError>) -> (r: Result<
    Attested,
    PythReceiverError,
>)
    ensures
        r == (match root {
            Err(e) => Err::<Attested, PythReceiverError>(e),
            Ok(digest) => Ok::<Attested, PythReceiverError>(
                Attested {
                    emitter_chain: envelope.emitter_chain,
                    emitter_address: envelope.emitter_address,
                    root: digest,
                },
            ),
        }),
{
    match root {
        Err(e) => Err(e),
        Ok(digest) => Ok(
            Attested {
                emitter_chain: envelope.emitter_chain,
                emitter_address: envelope.emitter_address,
                root: digest,
            },
        ),
    }
}

/// Authenticates a raw envelope. `accepted` is the signature verifier's
/// answer on exactly these bytes; the envelope is decoded only after it.
pub fn authenticate(envelope: &Vec<u8>, accepted: bool) -> (r: Result<Attested, PythReceiverError>)
    ensures
        attested_view_of(r) == authenticated(envelope@, accepted),
{
    if !accepted {
        return Err(PythReceiverError::AuthenticationFailed);
    }
    match read_envelope(envelope) {
        None => Err(PythReceiverError::AuthenticationFailed),
        Some(e) => {
            let root = parse_wormhole_proof(&e);
            attest(&e, root)
        },
    }
}

/// Whether the record's path proves its leaf against `root`.
pub fn check_inclusion(root: &[u8; 20], record: &ProvenRecord) -> (ok: bool)
    ensures
        ok == merkle_accepts(root@, record@.leaf, record@.path),
{
    merkle_check(root, record)
}

/// What the update pipeline takes from a decoded leaf: a price-feed
/// message. Any other tag is unsupported, and no message at all malformed.
pub open spec fn accepted_message(decoded: Option<LeafMessage>) -> Result<
    PriceFeedMessage,
    PythReceiverError,
> {
    match decoded {
        None => Err(PythReceiverError::MalformedData),
        Some(LeafMessage::PriceFeed(m)) => Ok(m),
        Some(_) => Err(PythReceiverError::UnsupportedMessageType),
    }
}

/// The price-feed message that a verified leaf holds.
pub open spec fn message_of(leaf: Seq<u8>) -> Result<PriceFeedMessage, PythReceiverError> {
    accepted_message(wire_message(leaf))
}

/// Picks the price-feed message out of a decoded leaf.
pub fn accept_message(decoded: Option<LeafMessage>) -> (r: Result<
    PriceFeedMessage,
    PythReceiverError,
>)
    ensures
        r == accepted_message(decoded),
{
    match decoded {
        None => Err(PythReceiverError::MalformedData),
        Some(LeafMessage::PriceFeed(m)) => Ok(m),
        Some(_) => Err(PythReceiverError::UnsupportedMessageType),
    }
}

/// Decodes a leaf. Only price-feed messages are accepted: any other tag is
/// `UnsupportedMessageType`, and bytes that are no message `MalformedData`.
pub fn decode_message(leaf: &Vec<u8>) -> (r: Result<PriceFeedMessage, PythReceiverError>)
    ensures
        r == message_of(leaf@),
{
    accept_message(read_message(leaf))
}

} // verus!
