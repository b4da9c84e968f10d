use vstd::prelude::*;

verus! {

/// Why a call was rejected. Every error is final for the call that met it.
#[derive(Clone, Copy, Debug, PartialEq, Eq, Structural)]
pub enum PythReceiverError {
    MalformedData,
    AuthenticationFailed,
    UnexpectedPayloadType,
    UnauthorizedSource,
    InvalidMerkleProof,
    UnsupportedMessageType,
    OutOfRange,
    PriceFeedNotFound,
    InvalidUpdateData,
    InsufficientFee,
    NoFreshData,
    PriceUnavailable,
    NewPriceUnavailable,
    TooManyUpdates,
}

/// The price data kept and returned for one feed.
#[derive(Clone, Copy, Debug, PartialEq, Eq, Structural)]
pub struct PriceInfo {
    pub publish_time: i64,
    pub expo: i32,
    pub price: i64,
    pub conf: u64,
    pub ema_price: i64,
    pub ema_conf: u64,
}

/// A decoded price-feed message, as carried in a Merkle leaf.
#[derive(Clone, Copy, Debug, PartialEq, Eq)]
pub struct PriceFeedMessage {
    pub feed_id: [u8; 32],
    pub price: i64,
    pub conf: u64,
    pub exponent: i32,
    pub publish_time: i64,
    pub ema_price: i64,
    pub ema_conf: u64,
}

impl PriceFeedMessage {
    /// The price data that this message carries for its feed.
    pub open spec fn info(self) -> PriceInfo {
        PriceInfo {
            publish_time: self.publish_time,
            expo: self.exponent,
            price: self.price,
            conf: self.conf,
            ema_price: self.ema_price,
            ema_conf: self.ema_conf,
        }
    }
}

/// What a leaf decodes to. Only price-feed messages carry data that the
/// receiver reads; of the other kinds only the tag matters.
#[derive(Clone, Copy, Debug, PartialEq, Eq)]
pub enum LeafMessage {
    PriceFeed(PriceFeedMessage),
    Twap,
    PublisherStakeCaps,
}

/// An authorized publisher: a chain and an emitter address on it.
#[derive(Clone, Copy, Debug, PartialEq, Eq)]
pub struct DataSource {
    pub chain_id: u16,
    pub emitter_address: [u8; 32],
}

/// One leaf of an update bundle with its Merkle path: the sibling digests
/// from the leaf up to the root.
#[derive(Clone, Debug, PartialEq, Eq)]
pub struct ProvenRecord {
    pub leaf: Vec<u8>,
    pub path: Vec<[u8; 20]>,
}

/// A record as a value: the leaf's bytes and the path's digests.
pub ghost struct RecordView {
    pub leaf: Seq<u8>,
    pub path: Seq<Seq<u8>>,
}

impl View for ProvenRecord {
    type V = RecordView;

    open spec fn view(&self) -> RecordView {
        RecordView { leaf: self.leaf@, path: self.path@.map_values(|d: [u8; 20]| d@) }
    }
}

/// A decoded update bundle: the raw attested envelope and the records that
/// it vouches for.
#[derive(Clone, Debug, PartialEq, Eq)]
pub struct UpdateBundle {
    pub envelope: Vec<u8>,
    pub records: Vec<ProvenRecord>,
}

/// A bundle as a value.
pub ghost struct BundleView {
    pub envelope: Seq<u8>,
    pub records: Seq<RecordView>,
}

impl View for UpdateBundle {
    type V = BundleView;

    open spec fn view(&self) -> BundleView {
        BundleView {
            envelope: self.envelope@,
            records: self.records@.map_values(|r: ProvenRecord| r@),
        }
    }
}

/// The parts of an attested envelope that the receiver reads.
#[derive(Clone, Debug, PartialEq, Eq)]
pub struct Envelope {
    pub emitter_chain: u16,
    pub emitter_address: [u8; 32],
    pub payload: Vec<u8>,
}

/// An envelope as a value.
pub ghost struct EnvelopeView {
    pub emitter_chain: u16,
    pub emitter_address: Seq<u8>,
    pub payload: Seq<u8>,
}

impl View for Envelope {
    type V = EnvelopeView;

    open spec fn view(&self) -> EnvelopeView {
        EnvelopeView {
            emitter_chain: self.emitter_chain,
            emitter_address: self.emitter_address@,
            payload: self.payload@,
        }
    }
}

/// The price data of one feed, with the feed's id.
#[derive(Clone, Copy, Debug, PartialEq, Eq)]
pub struct FeedPrice {
    pub feed_id: [u8; 32],
    pub info: PriceInfo,
}

/// Whether two byte arrays hold the same bytes.
pub fn same_bytes<const N: usize>(a: &[u8; N], b: &[u8; N]) -> (r: bool)
    ensures
        r == (a@ == b@),
{
    let mut i: usize = 0;
    while i < N
        invariant
            i <= N,
            a@.len() == N,
            b@.len() == N,
            forall|j: int| 0 <= j < i ==> a@[j] == b@[j],
        decreases N - i,
    {
        if a[i] != b[i] {
            return false;
        }
        i += 1;
    }
    assert(a@ =~= b@);
    true
}

} // verus!
