use byteorder::BE;
use pyth_receiver::feed_map::FeedMap;
use pyth_receiver::pipeline::{
    admit_message, apply_found, authorize, check_window, feeds_named_in, merge_found, parse_bundle, parse_record,
    pick_required, run_batch, stored_publish_time,
};
use pyth_receiver::receiver::PythReceiver;
use pyth_receiver::types::{
    same_bytes, DataSource, Envelope, LeafMessage, PriceFeedMessage, PriceInfo, ProvenRecord,
    PythReceiverError,
};
use pyth_receiver::wire::{
    accept_message, attest, authenticate, check_inclusion, decode_bundle, decode_message,
    envelope_of, parse_wormhole_proof, Attested,
};
use pythnet_sdk::accumulators::merkle::MerkleTree;
use pythnet_sdk::accumulators::Accumulator;
use pythnet_sdk::hashers::keccak256_160::Keccak160;
use pythnet_sdk::messages::{Message, TwapMessage};
use pythnet_sdk::wire::to_vec;
use pythnet_sdk::wire::v1::{
    AccumulatorUpdateData, MerklePriceUpdate, Proof, WormholeMerkleRoot, WormholeMessage,
    WormholePayload,
};

const CHAIN: u16 = 26;
const EMITTER: [u8; 32] = [0xe1; 32];

fn feed(id: u8) -> [u8; 32] {
    [id; 32]
}

fn info(price: i64, publish_time: i64) -> PriceInfo {
    PriceInfo {
        publish_time,
        expo: -8,
        price,
        conf: 7,
        ema_price: price + 1,
        ema_conf: 9,
    }
}

fn leaf(id: u8, price: i64, publish_time: i64) -> Vec<u8> {
    let message = Message::PriceFeedMessage(pythnet_sdk::messages::PriceFeedMessage {
        feed_id: feed(id),
        price,
        conf: 7,
        exponent: -8,
        publish_time,
        prev_publish_time: publish_time - 1,
        ema_price: price + 1,
        ema_conf: 9,
    });
    to_vec::<_, BE>(&message).unwrap()
}

fn twap_leaf(id: u8) -> Vec<u8> {
    let message = Message::TwapMessage(TwapMessage {
        feed_id: feed(id),
        cumulative_price: 1,
        cumulative_conf: 2,
        num_down_slots: 3,
        exponent: -8,
        publish_time: 150,
        prev_publish_time: 149,
        publish_slot: 4,
    });
    to_vec::<_, BE>(&message).unwrap()
}

fn envelope(chain: u16, emitter: [u8; 32], payload: &[u8]) -> Vec<u8> {
    let mut out = vec![1u8];
    out.extend_from_slice(&0u32.to_be_bytes());
    out.push(0);
    out.extend_from_slice(&1_700_000_000u32.to_be_bytes());
    out.extend_from_slice(&0u32.to_be_bytes());
    out.extend_from_slice(&chain.to_be_bytes());
    out.extend_from_slice(&emitter);
    out.extend_from_slice(&5u64.to_be_bytes());
    out.push(1);
    out.extend_from_slice(payload);
    out
}

fn commitment(root: [u8; 20]) -> Vec<u8> {
    let message = WormholeMessage::new(WormholePayload::Merkle(WormholeMerkleRoot {
        slot: 1,
        ring_size: 1,
        root,
    }));
    to_vec::<_, BE>(&message).unwrap()
}

fn tree_of(leaves: &[Vec<u8>]) -> MerkleTree<Keccak160> {
    let items: Vec<&[u8]> = leaves.iter().map(|l| l.as_slice()).collect();
    MerkleTree::<Keccak160>::new(&items).unwrap()
}

fn root_of(tree: &MerkleTree<Keccak160>) -> [u8; 20] {
    tree.root.as_bytes().try_into().unwrap()
}

fn encode(vaa: Vec<u8>, updates: Vec<MerklePriceUpdate>) -> Vec<u8> {
    let data = AccumulatorUpdateData::new(Proof::WormholeMerkle { vaa: vaa.into(), updates });
    to_vec::<_, BE>(&data).unwrap()
}

fn bundle_from(chain: u16, emitter: [u8; 32], leaves: &[Vec<u8>]) -> Vec<u8> {
    let tree = tree_of(leaves);
    let vaa = envelope(chain, emitter, &commitment(root_of(&tree)));
    let updates = leaves
        .iter()
        .map(|l| MerklePriceUpdate { message: l.clone().into(), proof: tree.prove(l).unwrap() })
        .collect();
    encode(vaa, updates)
}

fn bundle(leaves: &[Vec<u8>]) -> Vec<u8> {
    bundle_from(CHAIN, EMITTER, leaves)
}

fn receiver() -> PythReceiver {
    let mut r = PythReceiver::new();
    r.initialize(10, 60, vec![CHAIN], vec![EMITTER], 1, [0x11; 32], 0);
    r.set_transaction_fee(3);
    r
}

fn stored(r: &mut PythReceiver, id: u8, price: i64, publish_time: i64) {
    let b = bundle(&[leaf(id, price, publish_time)]);
    assert_eq!(r.update_price_feeds(vec![b], vec![true], 1000), Ok(()));
}

#[test]
fn merkle_check_accepts_a_built_tree_and_rejects_any_flip() {
    let leaves = vec![leaf(1, 10, 100), leaf(2, 20, 100), leaf(3, 30, 100), leaf(4, 40, 100)];
    let tree = tree_of(&leaves);
    let root = root_of(&tree);
    for l in &leaves {
        let path = tree.prove(l).unwrap().to_vec();
        assert_eq!(path.len(), 2);
        let record = ProvenRecord { leaf: l.clone(), path: path.clone() };
        assert!(check_inclusion(&root, &record));
        for bit in 0..8 {
            let mut bad = l.clone();
            bad[5] ^= 1 << bit;
            assert!(!check_inclusion(&root, &ProvenRecord { leaf: bad, path: path.clone() }));
            let mut bad_path = path.clone();
            bad_path[1][3] ^= 1 << bit;
            assert!(!check_inclusion(&root, &ProvenRecord { leaf: l.clone(), path: bad_path }));
        }
        let mut other_root = root;
        other_root[0] ^= 1;
        assert!(!check_inclusion(&other_root, &record));
    }
}

#[test]
fn decode_bundle_yields_envelope_and_records() {
    let leaves = vec![leaf(1, 10, 100), leaf(2, 20, 101)];
    let tree = tree_of(&leaves);
    let vaa = envelope(CHAIN, EMITTER, &commitment(root_of(&tree)));
    let bytes = bundle(&leaves);
    let decoded = decode_bundle(&bytes).unwrap();
    assert_eq!(decoded.envelope, vaa);
    assert_eq!(decoded.records.len(), 2);
    assert_eq!(decoded.records[0].leaf, leaves[0]);
    assert_eq!(decoded.records[1].leaf, leaves[1]);
    assert_eq!(decoded.records[1].path, tree.prove(&leaves[1]).unwrap().to_vec());
    assert_eq!(envelope_of(&bytes), Ok(vaa));
}

#[test]
fn malformed_magic_is_malformed_data_everywhere() {
    let short = vec![0x50u8, 0x4e, 0x41];
    let mut wrong = bundle(&[leaf(1, 10, 100)]);
    wrong[0] = 0x51;
    let mut r = receiver();
    for bytes in [short, wrong, Vec::new()] {
        assert_eq!(decode_bundle(&bytes).err(), Some(PythReceiverError::MalformedData));
        assert_eq!(envelope_of(&bytes), Err(PythReceiverError::MalformedData));
        assert_eq!(
            r.parse_price_feed_updates_internal(bytes.clone(), true, 0, 0, false).err(),
            Some(PythReceiverError::MalformedData)
        );
        assert_eq!(
            r.update_price_feeds_internal(bytes.clone(), true, 0, 0, false).err(),
            Some(PythReceiverError::MalformedData)
        );
        assert_eq!(
            r.get_update_fee(&vec![bytes.clone()]),
            Err(PythReceiverError::MalformedData)
        );
        assert_eq!(
            r.update_price_feeds(vec![bytes.clone()], vec![true], 1000),
            Err(PythReceiverError::MalformedData)
        );
        assert_eq!(
            r.parse_price_feed_updates(bytes.clone(), true, vec![feed(1)], 0, 0),
            Err(PythReceiverError::MalformedData)
        );
        assert_eq!(
            r.parse_price_feed_updates_unique(vec![bytes.clone()], vec![true], vec![feed(1)], 0, 0),
            Err(PythReceiverError::MalformedData)
        );
    }
}

#[test]
fn unknown_version_is_malformed_data() {
    let mut bytes = bundle(&[leaf(1, 10, 100)]);
    bytes[4] = 2;
    assert_eq!(decode_bundle(&bytes).err(), Some(PythReceiverError::MalformedData));
    let mut cut = bundle(&[leaf(1, 10, 100)]);
    cut.truncate(20);
    assert_eq!(decode_bundle(&cut).err(), Some(PythReceiverError::MalformedData));
}

#[test]
fn authenticate_reads_emitter_and_root() {
    let root = [0xab; 20];
    let vaa = envelope(CHAIN, EMITTER, &commitment(root));
    let attested = authenticate(&vaa, true).ok().unwrap();
    assert_eq!(attested.emitter_chain, CHAIN);
    assert_eq!(attested.emitter_address, EMITTER);
    assert_eq!(attested.root, root);
}

#[test]
fn authenticate_fails_when_the_verifier_rejects() {
    let vaa = envelope(CHAIN, EMITTER, &commitment([0xab; 20]));
    assert_eq!(authenticate(&vaa, false).err(), Some(PythReceiverError::AuthenticationFailed));
}

#[test]
fn authenticate_fails_on_a_truncated_envelope() {
    let vaa = envelope(CHAIN, EMITTER, &commitment([0xab; 20]));
    assert_eq!(
        authenticate(&vaa[..30].to_vec(), true).err(),
        Some(PythReceiverError::AuthenticationFailed)
    );
}

#[test]
fn payload_that_is_no_commitment_is_unexpected() {
    let vaa = envelope(CHAIN, EMITTER, &[1, 2, 3, 4, 5, 6, 7, 8]);
    assert_eq!(authenticate(&vaa, true).err(), Some(PythReceiverError::UnexpectedPayloadType));
    let mut payload = commitment([0xab; 20]);
    payload[0] ^= 0xff;
    let vaa = envelope(CHAIN, EMITTER, &payload);
    assert_eq!(authenticate(&vaa, true).err(), Some(PythReceiverError::UnexpectedPayloadType));
    let envelope = Envelope {
        emitter_chain: CHAIN,
        emitter_address: EMITTER,
        payload: commitment([0xcd; 20]),
    };
    assert_eq!(parse_wormhole_proof(&envelope), Ok([0xcd; 20]));
}

#[test]
fn decode_message_reads_every_field() {
    let decoded = decode_message(&leaf(9, -1234, 1_700_000_123));
    assert_eq!(
        decoded,
        Ok(PriceFeedMessage {
            feed_id: feed(9),
            price: -1234,
            conf: 7,
            exponent: -8,
            publish_time: 1_700_000_123,
            ema_price: -1233,
            ema_conf: 9,
        })
    );
}

#[test]
fn decode_message_follows_the_big_endian_layout() {
    let mut bytes = vec![0u8];
    bytes.extend_from_slice(&feed(3));
    bytes.extend_from_slice(&258i64.to_be_bytes());
    bytes.extend_from_slice(&5u64.to_be_bytes());
    bytes.extend_from_slice(&(-3i32).to_be_bytes());
    bytes.extend_from_slice(&1000i64.to_be_bytes());
    bytes.extend_from_slice(&999i64.to_be_bytes());
    bytes.extend_from_slice(&260i64.to_be_bytes());
    bytes.extend_from_slice(&6u64.to_be_bytes());
    assert_eq!(
        decode_message(&bytes),
        Ok(PriceFeedMessage {
            feed_id: feed(3),
            price: 258,
            conf: 5,
            exponent: -3,
            publish_time: 1000,
            ema_price: 260,
            ema_conf: 6,
        })
    );
}

#[test]
fn other_message_tags_are_unsupported() {
    assert_eq!(decode_message(&twap_leaf(1)), Err(PythReceiverError::UnsupportedMessageType));
    let b = bundle(&[twap_leaf(1)]);
    let r = receiver();
    assert_eq!(
        r.parse_price_feed_updates_internal(b, true, 0, 0, false).err(),
        Some(PythReceiverError::UnsupportedMessageType)
    );
}

#[test]
fn bytes_that_are_no_message_are_malformed() {
    assert_eq!(decode_message(&vec![0u8, 1, 2]), Err(PythReceiverError::MalformedData));
    assert_eq!(decode_message(&vec![200u8; 90]), Err(PythReceiverError::MalformedData));
    assert_eq!(decode_message(&Vec::new()), Err(PythReceiverError::MalformedData));
}

#[test]
fn same_bytes_compares_all_bytes() {
    let mut other = EMITTER;
    assert!(same_bytes(&EMITTER, &other));
    other[31] ^= 1;
    assert!(!same_bytes(&EMITTER, &other));
}

#[test]
fn authorize_matches_exactly() {
    let sources = vec![
        DataSource { chain_id: 1, emitter_address: [1; 32] },
        DataSource { chain_id: CHAIN, emitter_address: EMITTER },
    ];
    assert_eq!(authorize(&sources, CHAIN, &EMITTER), Ok(()));
    assert_eq!(authorize(&sources, 1, &EMITTER), Err(PythReceiverError::UnauthorizedSource));
    let mut near = EMITTER;
    near[31] = 0;
    assert_eq!(authorize(&sources, CHAIN, &near), Err(PythReceiverError::UnauthorizedSource));
    assert_eq!(authorize(&Vec::new(), CHAIN, &EMITTER), Err(PythReceiverError::UnauthorizedSource));
}

#[test]
fn emitter_off_the_whitelist_is_rejected_despite_valid_proofs() {
    let mut r = receiver();
    let b = bundle_from(CHAIN, [0xe2; 32], &[leaf(1, 10, 100)]);
    assert_eq!(
        r.parse_price_feed_updates_internal(b.clone(), true, 0, 0, false).err(),
        Some(PythReceiverError::UnauthorizedSource)
    );
    let other_chain = bundle_from(CHAIN + 1, EMITTER, &[leaf(1, 10, 100)]);
    assert_eq!(
        r.update_price_feeds(vec![other_chain], vec![true], 1000),
        Err(PythReceiverError::UnauthorizedSource)
    );
    assert_eq!(r.update_price_feeds(vec![b], vec![true], 1000), Err(PythReceiverError::UnauthorizedSource));
    assert_eq!(r.get_price_unsafe(feed(1)), Err(PythReceiverError::PriceUnavailable));
}

#[test]
fn rejected_envelope_fails_the_bundle() {
    let mut r = receiver();
    let b = bundle(&[leaf(1, 10, 100)]);
    assert_eq!(
        r.update_price_feeds(vec![b.clone()], vec![false], 1000),
        Err(PythReceiverError::AuthenticationFailed)
    );
    assert_eq!(
        r.update_price_feeds(vec![b], Vec::new(), 1000),
        Err(PythReceiverError::AuthenticationFailed)
    );
    assert_eq!(r.get_price_unsafe(feed(1)), Err(PythReceiverError::PriceUnavailable));
}

#[test]
fn tampered_leaf_is_an_invalid_merkle_proof() {
    let leaves = vec![leaf(1, 10, 100), leaf(2, 20, 100)];
    let tree = tree_of(&leaves);
    let vaa = envelope(CHAIN, EMITTER, &commitment(root_of(&tree)));
    let updates = vec![
        MerklePriceUpdate { message: leaves[0].clone().into(), proof: tree.prove(&leaves[0]).unwrap() },
        MerklePriceUpdate { message: leaf(2, 21, 100).into(), proof: tree.prove(&leaves[1]).unwrap() },
    ];
    let b = encode(vaa, updates);
    let mut r = receiver();
    assert_eq!(
        r.update_price_feeds(vec![b], vec![true], 1000),
        Err(PythReceiverError::InvalidMerkleProof)
    );
    assert_eq!(r.get_price_unsafe(feed(1)), Err(PythReceiverError::PriceUnavailable));
}

#[test]
fn check_window_applies_the_three_rules() {
    assert_eq!(check_window(250, 0, 100, 200, false), Err(PythReceiverError::OutOfRange));
    assert_eq!(check_window(150, 0, 100, 200, false), Ok(()));
    assert_eq!(check_window(99, 0, 100, 200, false), Err(PythReceiverError::OutOfRange));
    assert_eq!(check_window(100, 0, 100, 200, false), Ok(()));
    assert_eq!(check_window(200, 0, 100, 200, false), Ok(()));
    assert_eq!(check_window(5, 0, 0, 0, false), Ok(()));
    assert_eq!(check_window(-5, 0, 0, 0, true), Ok(()));
    assert_eq!(check_window(150, 100, 100, 200, true), Err(PythReceiverError::OutOfRange));
    assert_eq!(check_window(150, 99, 100, 200, true), Ok(()));
    assert_eq!(check_window(150, 100, 100, 200, false), Ok(()));
    assert_eq!(check_window(150, 0, 100, 200, true), Ok(()));
    assert_eq!(check_window(i64::MAX, 0, u64::MAX, 0, false), Err(PythReceiverError::OutOfRange));
}

#[test]
fn freshness_filter_on_records() {
    let mut r = receiver();
    let late = bundle(&[leaf(1, 10, 250)]);
    assert_eq!(
        r.parse_price_feed_updates(late, true, vec![feed(1)], 100, 200),
        Err(PythReceiverError::OutOfRange)
    );
    let inside = bundle(&[leaf(1, 10, 150)]);
    assert_eq!(
        r.parse_price_feed_updates(inside, true, vec![feed(1)], 100, 200),
        Ok(vec![info(10, 150)])
    );
    let early = bundle(&[leaf(2, 10, 150), leaf(1, 10, 99)]);
    assert_eq!(
        r.parse_price_feed_updates(early, true, vec![feed(2)], 100, 200),
        Err(PythReceiverError::OutOfRange)
    );
}

#[test]
fn parse_returns_prices_in_the_order_of_the_ids() {
    let mut r = receiver();
    let b = bundle(&[leaf(1, 10, 100), leaf(2, 20, 101), leaf(3, 30, 102)]);
    assert_eq!(
        r.parse_price_feed_updates(b.clone(), true, vec![feed(3), feed(1)], 0, 0),
        Ok(vec![info(30, 102), info(10, 100)])
    );
    assert_eq!(
        r.parse_price_feed_updates(b, true, vec![feed(3), feed(4)], 0, 0),
        Err(PythReceiverError::PriceFeedNotFound)
    );
    assert_eq!(r.get_price_unsafe(feed(1)), Err(PythReceiverError::PriceUnavailable));
}

#[test]
fn exactness_rejects_extra_records() {
    let mut r = receiver();
    let b = bundle(&[leaf(1, 10, 100), leaf(2, 20, 101), leaf(3, 30, 102)]);
    assert_eq!(
        r.parse_price_feed_updates_with_config(
            vec![b.clone()],
            vec![true],
            vec![feed(1), feed(2)],
            0,
            0,
            false,
            true,
            false
        ),
        Err(PythReceiverError::InvalidUpdateData)
    );
    assert_eq!(
        r.parse_price_feed_updates_with_config(
            vec![b.clone()],
            vec![true],
            vec![feed(1), feed(2)],
            0,
            0,
            false,
            false,
            false
        ),
        Ok(vec![info(10, 100), info(20, 101)])
    );
    assert_eq!(
        r.parse_price_feed_updates_with_config(
            vec![b],
            vec![true],
            vec![feed(3), feed(2), feed(1)],
            0,
            0,
            false,
            true,
            false
        ),
        Ok(vec![info(30, 102), info(20, 101), info(10, 100)])
    );
}

#[test]
fn first_bundle_wins_for_a_repeated_feed() {
    let mut r = receiver();
    let first = bundle(&[leaf(1, 10, 100)]);
    let second = bundle(&[leaf(1, 11, 200), leaf(2, 20, 200)]);
    assert_eq!(
        r.parse_price_feed_updates_with_config(
            vec![first, second],
            vec![true, true],
            vec![feed(1), feed(2)],
            0,
            0,
            false,
            false,
            false
        ),
        Ok(vec![info(10, 100), info(20, 200)])
    );
}

#[test]
fn within_a_bundle_the_last_record_of_a_feed_stands() {
    let r = receiver();
    let b = bundle(&[leaf(1, 10, 100), leaf(2, 20, 100), leaf(1, 12, 90)]);
    let found: FeedMap = r.parse_price_feed_updates_internal(b, true, 0, 0, false).ok().unwrap();
    assert_eq!(found.len(), 2);
    assert_eq!(found.get(&feed(1)), Some(info(12, 90)));
    assert_eq!(found.get(&feed(2)), Some(info(20, 100)));
    assert_eq!(found.get(&feed(3)), None);
}

#[test]
fn parse_bundle_reads_the_given_store_and_sources() {
    let sources = vec![DataSource { chain_id: CHAIN, emitter_address: EMITTER }];
    let mut store = FeedMap::new();
    store.insert(feed(1), info(1, 120));
    let b = bundle(&[leaf(1, 10, 150)]);
    assert_eq!(
        parse_bundle(&store, &sources, &b, true, 100, 0, true).err(),
        Some(PythReceiverError::OutOfRange)
    );
    let found = parse_bundle(&store, &sources, &b, true, 121, 0, true).ok().unwrap();
    assert_eq!(found.get(&feed(1)), Some(info(10, 150)));
    assert_eq!(store.copy().get(&feed(1)), Some(info(1, 120)));
}

#[test]
fn uniqueness_compares_with_the_stored_time() {
    let mut r = receiver();
    stored(&mut r, 1, 10, 120);
    let b = bundle(&[leaf(1, 11, 150)]);
    assert_eq!(
        r.parse_price_feed_updates_unique(vec![b.clone()], vec![true], vec![feed(1)], 100, 200),
        Err(PythReceiverError::OutOfRange)
    );
    assert_eq!(
        r.parse_price_feed_updates_unique(vec![b.clone()], vec![true], vec![feed(1)], 121, 200),
        Ok(vec![info(11, 150)])
    );
    assert_eq!(
        r.parse_price_feed_updates(b, true, vec![feed(1)], 100, 200),
        Ok(vec![info(11, 150)])
    );
    let unset = bundle(&[leaf(2, 20, 150)]);
    assert_eq!(
        r.parse_price_feed_updates_unique(vec![unset], vec![true], vec![feed(2)], 100, 200),
        Ok(vec![info(20, 150)])
    );
    assert_eq!(r.get_price_unsafe(feed(1)), Ok(info(10, 120)));
}

#[test]
fn store_is_monotonic() {
    let mut r = receiver();
    stored(&mut r, 1, 10, 500);
    assert_eq!(r.get_price_unsafe(feed(1)), Ok(info(10, 500)));
    stored(&mut r, 1, 11, 400);
    assert_eq!(r.get_price_unsafe(feed(1)), Ok(info(10, 500)));
    stored(&mut r, 1, 12, 500);
    assert_eq!(r.get_price_unsafe(feed(1)), Ok(info(10, 500)));
    stored(&mut r, 1, 13, 501);
    assert_eq!(r.get_price_unsafe(feed(1)), Ok(info(13, 501)));
    assert_eq!(r.latest_price_info_publish_time(feed(1)), 501);
    assert_eq!(r.latest_price_info_publish_time(feed(2)), 0);
}

#[test]
fn a_stored_price_of_zero_is_not_overwritten_by_older_data() {
    let mut r = receiver();
    stored(&mut r, 1, 0, 500);
    stored(&mut r, 1, 7, 400);
    assert_eq!(r.get_price_unsafe(feed(1)), Ok(info(0, 500)));
}

#[test]
fn update_internal_stores_and_returns_the_records() {
    let mut r = receiver();
    let b = bundle(&[leaf(1, 10, 100), leaf(2, 20, 101)]);
    let found = r.update_price_feeds_internal(b, true, 0, 0, false).ok().unwrap();
    assert_eq!(found.len(), 2);
    assert_eq!(r.get_price_unsafe(feed(2)), Ok(info(20, 101)));
    let older = bundle(&[leaf(1, 9, 99), leaf(3, 30, 5)]);
    let found = r.update_price_feeds_internal(older, true, 0, 0, false).ok().unwrap();
    assert_eq!(found.get(&feed(1)), Some(info(9, 99)));
    assert_eq!(r.get_price_unsafe(feed(1)), Ok(info(10, 100)));
    assert_eq!(r.get_price_unsafe(feed(3)), Ok(info(30, 5)));
}

#[test]
fn with_config_stores_only_when_asked() {
    let mut r = receiver();
    let b = bundle(&[leaf(1, 10, 100)]);
    assert_eq!(
        r.parse_price_feed_updates_with_config(
            vec![b.clone()],
            vec![true],
            vec![feed(1)],
            0,
            0,
            false,
            false,
            false
        ),
        Ok(vec![info(10, 100)])
    );
    assert_eq!(r.get_price_unsafe(feed(1)), Err(PythReceiverError::PriceUnavailable));
    assert_eq!(
        r.parse_price_feed_updates_with_config(
            vec![b],
            vec![true],
            vec![feed(1)],
            0,
            0,
            false,
            false,
            true
        ),
        Ok(vec![info(10, 100)])
    );
    assert_eq!(r.get_price_unsafe(feed(1)), Ok(info(10, 100)));
}

#[test]
fn a_failing_batch_stores_nothing() {
    let mut r = receiver();
    let good = bundle(&[leaf(1, 10, 100)]);
    let bad = bundle_from(CHAIN, [0; 32], &[leaf(2, 20, 100)]);
    assert_eq!(
        r.update_price_feeds(vec![good.clone(), bad], vec![true, true], 1000),
        Err(PythReceiverError::UnauthorizedSource)
    );
    assert_eq!(r.get_price_unsafe(feed(1)), Err(PythReceiverError::PriceUnavailable));
    assert_eq!(
        r.parse_price_feed_updates_with_config(
            vec![good],
            vec![true],
            vec![feed(2)],
            0,
            0,
            false,
            false,
            true
        ),
        Err(PythReceiverError::PriceFeedNotFound)
    );
    assert_eq!(r.get_price_unsafe(feed(1)), Err(PythReceiverError::PriceUnavailable));
}

#[test]
fn fee_counts_every_record() {
    let r = receiver();
    let three = bundle(&[leaf(1, 10, 100), leaf(2, 20, 100), leaf(3, 30, 100)]);
    let five = bundle(&[
        leaf(1, 10, 100),
        leaf(2, 20, 100),
        leaf(3, 30, 100),
        leaf(4, 40, 100),
        leaf(5, 50, 100),
    ]);
    assert_eq!(r.get_update_fee(&vec![three.clone(), five]), Ok(8 * 10 + 3));
    assert_eq!(r.get_update_fee(&vec![three]), Ok(33));
    assert_eq!(r.get_update_fee(&Vec::new()), Ok(3));
    assert_eq!(r.get_twap_update_fee(Vec::new()), 0);
}

#[test]
fn fee_does_not_verify_anything() {
    let r = receiver();
    let unlisted = bundle_from(7, [9; 32], &[leaf(1, 10, 100), leaf(1, 10, 100)]);
    assert_eq!(r.get_update_fee(&vec![unlisted]), Ok(23));
}

#[test]
fn payment_must_cover_the_fee() {
    let mut r = receiver();
    let b = bundle(&[leaf(1, 10, 100), leaf(2, 20, 100)]);
    assert_eq!(
        r.update_price_feeds(vec![b.clone()], vec![true], 22),
        Err(PythReceiverError::InsufficientFee)
    );
    assert_eq!(r.get_price_unsafe(feed(1)), Err(PythReceiverError::PriceUnavailable));
    assert_eq!(r.update_price_feeds(vec![b], vec![true], 23), Ok(()));
    assert_eq!(r.get_price_unsafe(feed(1)), Ok(info(10, 100)));
}

#[test]
fn conditional_update_without_fresh_data() {
    let mut r = receiver();
    stored(&mut r, 1, 10, 500);
    let b = bundle(&[leaf(1, 11, 600)]);
    assert_eq!(
        r.update_price_feeds_if_necessary(vec![b.clone()], vec![true], vec![feed(1)], vec![400], 1000),
        Err(PythReceiverError::NoFreshData)
    );
    assert_eq!(
        r.update_price_feeds_if_necessary(vec![vec![1, 2, 3]], Vec::new(), vec![feed(1)], vec![500], 0),
        Err(PythReceiverError::NoFreshData)
    );
    assert_eq!(r.get_price_unsafe(feed(1)), Ok(info(10, 500)));
    assert!(!r.has_fresher(&vec![feed(1)], &vec![500]));
    assert!(r.has_fresher(&vec![feed(1), feed(2)], &vec![500, 1]));
    assert_eq!(
        r.update_price_feeds_if_necessary(vec![b], vec![true], vec![feed(1)], vec![501], 1000),
        Ok(())
    );
    assert_eq!(r.get_price_unsafe(feed(1)), Ok(info(11, 600)));
}

#[test]
fn conditional_update_needs_paired_lists() {
    let mut r = receiver();
    let b = bundle(&[leaf(1, 11, 600)]);
    assert_eq!(
        r.update_price_feeds_if_necessary(vec![b.clone()], vec![true], vec![feed(1)], vec![1, 2], 1000),
        Err(PythReceiverError::InvalidUpdateData)
    );
    assert_eq!(
        r.update_price_feeds_if_necessary(vec![b.clone()], vec![true], Vec::new(), Vec::new(), 1000),
        Err(PythReceiverError::InvalidUpdateData)
    );
    assert_eq!(
        r.update_price_feeds_if_necessary(vec![b], vec![false], vec![feed(1)], vec![1], 1000),
        Err(PythReceiverError::AuthenticationFailed)
    );
}

#[test]
fn getters_report_age_and_moving_average() {
    let mut r = receiver();
    assert_eq!(r.get_price_unsafe(feed(1)), Err(PythReceiverError::PriceUnavailable));
    assert_eq!(r.get_ema_price_unsafe(feed(1)), Err(PythReceiverError::PriceUnavailable));
    assert_eq!(r.get_price_no_older_than(feed(1), 10, 100), Err(PythReceiverError::PriceUnavailable));
    stored(&mut r, 1, 10, 1000);
    let ema = PriceInfo { publish_time: 1000, expo: -8, price: 11, conf: 9, ema_price: 11, ema_conf: 9 };
    assert_eq!(r.get_ema_price_unsafe(feed(1)), Ok(ema));
    assert_eq!(r.get_price_no_older_than(feed(1), 60, 1060), Ok(info(10, 1000)));
    assert_eq!(
        r.get_price_no_older_than(feed(1), 60, 1061),
        Err(PythReceiverError::NewPriceUnavailable)
    );
    assert_eq!(r.get_ema_price_no_older_than(feed(1), 60, 1060), Ok(ema));
    assert_eq!(
        r.get_ema_price_no_older_than(feed(1), 60, 1061),
        Err(PythReceiverError::NewPriceUnavailable)
    );
    assert_eq!(r.get_price_no_older_than(feed(1), 0, 900), Ok(info(10, 1000)));
    assert!(r.is_no_older_than(1000, 0, 1000));
    assert!(!r.is_no_older_than(-1, 0, 0));
    assert!(!r.is_no_older_than(0, u64::MAX - 1, u64::MAX));
}

#[test]
fn initialize_adds_each_source() {
    let mut r = PythReceiver::new();
    let b = bundle(&[leaf(1, 10, 100)]);
    let c = bundle_from(2, [2; 32], &[leaf(2, 20, 100)]);
    assert_eq!(
        r.update_price_feeds(vec![b.clone()], vec![true], 1000),
        Err(PythReceiverError::UnauthorizedSource)
    );
    r.initialize(1, 60, vec![CHAIN, 2], vec![EMITTER, [2; 32], [3; 32]], 1, [0; 32], 0);
    assert_eq!(r.get_update_fee(&vec![b.clone(), c.clone()]), Ok(2));
    assert_eq!(r.update_price_feeds(vec![b, c], vec![true, true], 2), Ok(()));
    assert_eq!(r.get_price_unsafe(feed(2)), Ok(info(20, 100)));
}

#[test]
fn twap_updates_are_not_offered() {
    let mut r = receiver();
    let b = bundle(&[leaf(1, 10, 100)]);
    assert_eq!(r.parse_twap_price_feed_updates(vec![b], vec![feed(1)]), Vec::new());
    assert_eq!(r.get_price_unsafe(feed(1)), Err(PythReceiverError::PriceUnavailable));
}

#[test]
fn feed_map_inserts_and_replaces() {
    let mut m = FeedMap::new();
    assert_eq!(m.len(), 0);
    m.insert(feed(1), info(1, 1));
    m.insert(feed(2), info(2, 2));
    m.insert(feed(1), info(3, 3));
    assert_eq!(m.len(), 2);
    assert_eq!(m.get(&feed(1)), Some(info(3, 3)));
    assert_eq!(m.get(&feed(2)), Some(info(2, 2)));
    assert_eq!(m.get(&feed(3)), None);
    let copy = m.copy();
    assert_eq!(copy.len(), 2);
    assert_eq!(copy.get(&feed(1)), Some(info(3, 3)));
}

#[test]
fn feeds_named_in_lists_price_feeds_in_order() {
    let b = bundle(&[leaf(3, 10, 100), twap_leaf(9), leaf(1, 20, 100), leaf(3, 11, 101)]);
    assert_eq!(feeds_named_in(&b), vec![feed(3), feed(1), feed(3)]);
    assert_eq!(feeds_named_in(&vec![1, 2, 3]), Vec::<[u8; 32]>::new());
}

#[test]
fn load_price_fills_a_slot() {
    let mut r = receiver();
    assert_eq!(r.stored_price(feed(1)), None);
    r.load_price(feed(1), info(10, 500));
    assert_eq!(r.stored_price(feed(1)), Some(info(10, 500)));
    assert_eq!(r.get_price_unsafe(feed(1)), Ok(info(10, 500)));
    r.load_price(feed(2), info(0, 0));
    assert_eq!(r.get_price_unsafe(feed(2)), Err(PythReceiverError::PriceUnavailable));
    let b = bundle(&[leaf(1, 11, 499), leaf(2, 20, -5)]);
    assert_eq!(r.update_price_feeds(vec![b], vec![true], 1000), Ok(()));
    assert_eq!(r.stored_price(feed(1)), Some(info(10, 500)));
    assert_eq!(r.stored_price(feed(2)), Some(info(0, 0)));
}

#[test]
fn apply_found_replaces_only_unset_or_older_slots() {
    let mut store = FeedMap::new();
    store.insert(feed(1), info(1, 100));
    store.insert(feed(2), info(2, 100));
    store.insert(feed(3), info(3, 100));
    let mut found = FeedMap::new();
    found.insert(feed(1), info(10, 101));
    found.insert(feed(2), info(20, 100));
    found.insert(feed(3), info(30, 99));
    found.insert(feed(4), info(40, -7));
    apply_found(&mut store, &found);
    assert_eq!(store.len(), 4);
    assert_eq!(store.get(&feed(1)), Some(info(10, 101)));
    assert_eq!(store.get(&feed(2)), Some(info(2, 100)));
    assert_eq!(store.get(&feed(3)), Some(info(3, 100)));
    assert_eq!(store.get(&feed(4)), Some(info(40, -7)));
    assert_eq!(stored_publish_time(&store, &feed(4)), -7);
    assert_eq!(stored_publish_time(&store, &feed(5)), 0);
}

#[test]
fn merge_found_keeps_what_came_first() {
    let mut merged = FeedMap::new();
    merged.insert(feed(1), info(1, 100));
    let mut found = FeedMap::new();
    found.insert(feed(1), info(10, 200));
    found.insert(feed(2), info(20, 200));
    merge_found(&mut merged, &found);
    assert_eq!(merged.len(), 2);
    assert_eq!(merged.get(&feed(1)), Some(info(1, 100)));
    assert_eq!(merged.get(&feed(2)), Some(info(20, 200)));
    assert_eq!(
        pick_required(&merged, &vec![feed(2), feed(1), feed(2)]),
        Ok(vec![info(20, 200), info(1, 100), info(20, 200)])
    );
    assert_eq!(pick_required(&merged, &vec![feed(3)]), Err(PythReceiverError::PriceFeedNotFound));
    assert_eq!(pick_required(&merged, &Vec::new()), Ok(Vec::new()));
}

#[test]
fn parse_record_checks_proof_then_message_then_window() {
    let leaves = vec![leaf(1, 10, 150), twap_leaf(2)];
    let tree = tree_of(&leaves);
    let root = root_of(&tree);
    let store = FeedMap::new();
    let good = ProvenRecord { leaf: leaves[0].clone(), path: tree.prove(&leaves[0]).unwrap().to_vec() };
    let parsed = parse_record(&store, &root, &good, 100, 200, true).ok().unwrap();
    assert_eq!(parsed.feed_id, feed(1));
    assert_eq!(parsed.info, info(10, 150));
    assert_eq!(
        parse_record(&store, &root, &good, 151, 200, false).err(),
        Some(PythReceiverError::OutOfRange)
    );
    assert_eq!(
        parse_record(&store, &[0; 20], &good, 100, 200, false).err(),
        Some(PythReceiverError::InvalidMerkleProof)
    );
    let twap = ProvenRecord { leaf: leaves[1].clone(), path: tree.prove(&leaves[1]).unwrap().to_vec() };
    assert_eq!(
        parse_record(&store, &root, &twap, 0, 0, false).err(),
        Some(PythReceiverError::UnsupportedMessageType)
    );
    let unproven = ProvenRecord { leaf: vec![9, 9, 9], path: Vec::new() };
    assert_eq!(
        parse_record(&store, &root, &unproven, 0, 0, false).err(),
        Some(PythReceiverError::InvalidMerkleProof)
    );
}

#[test]
fn run_batch_threads_the_store_through_the_bundles() {
    let sources = vec![DataSource { chain_id: CHAIN, emitter_address: EMITTER }];
    let store = FeedMap::new();
    let first = bundle(&[leaf(1, 10, 100), leaf(2, 20, 100)]);
    let second = bundle(&[leaf(1, 11, 150)]);
    let bundles = vec![first, second];
    let verdicts = vec![true, true];
    let kept = run_batch(&store, &sources, &bundles, &verdicts, 0, 0, false, true).ok().unwrap();
    assert_eq!(kept.count, 3);
    assert_eq!(kept.store.get(&feed(1)), Some(info(11, 150)));
    assert_eq!(kept.store.get(&feed(2)), Some(info(20, 100)));
    assert_eq!(kept.merged.get(&feed(1)), Some(info(10, 100)));
    assert_eq!(store.len(), 0);
    let parsed = run_batch(&store, &sources, &bundles, &verdicts, 0, 0, true, false).ok().unwrap();
    assert_eq!(parsed.store.len(), 0);
    assert_eq!(parsed.count, 3);
    assert_eq!(
        run_batch(&store, &sources, &bundles, &verdicts, 50, 0, true, true).err(),
        Some(PythReceiverError::OutOfRange)
    );
    assert_eq!(
        run_batch(&store, &sources, &bundles, &vec![true], 0, 0, false, true).err(),
        Some(PythReceiverError::AuthenticationFailed)
    );
    let empty = run_batch(&store, &sources, &Vec::new(), &Vec::new(), 0, 0, false, true).ok().unwrap();
    assert_eq!(empty.count, 0);
}

#[test]
fn accept_message_takes_price_feeds_only() {
    let m = PriceFeedMessage {
        feed_id: feed(4),
        price: 1,
        conf: 2,
        exponent: 3,
        publish_time: 4,
        ema_price: 5,
        ema_conf: 6,
    };
    assert_eq!(accept_message(Some(LeafMessage::PriceFeed(m))), Ok(m));
    assert_eq!(accept_message(Some(LeafMessage::Twap)), Err(PythReceiverError::UnsupportedMessageType));
    assert_eq!(
        accept_message(Some(LeafMessage::PublisherStakeCaps)),
        Err(PythReceiverError::UnsupportedMessageType)
    );
    assert_eq!(accept_message(None), Err(PythReceiverError::MalformedData));
}

#[test]
fn attest_joins_emitter_and_root() {
    let envelope = Envelope { emitter_chain: 3, emitter_address: [7; 32], payload: vec![1, 2] };
    assert_eq!(
        attest(&envelope, Ok([5; 20])),
        Ok(Attested { emitter_chain: 3, emitter_address: [7; 32], root: [5; 20] })
    );
    assert_eq!(
        attest(&envelope, Err(PythReceiverError::UnexpectedPayloadType)),
        Err(PythReceiverError::UnexpectedPayloadType)
    );
}

#[test]
fn admit_message_filters_against_the_stored_time() {
    let mut store = FeedMap::new();
    store.insert(feed(4), info(1, 120));
    let m = PriceFeedMessage {
        feed_id: feed(4),
        price: 10,
        conf: 7,
        exponent: -8,
        publish_time: 150,
        ema_price: 11,
        ema_conf: 9,
    };
    let admitted = admit_message(&store, &m, 121, 200, true).ok().unwrap();
    assert_eq!(admitted.feed_id, feed(4));
    assert_eq!(admitted.info, info(10, 150));
    assert_eq!(admit_message(&store, &m, 120, 200, true).err(), Some(PythReceiverError::OutOfRange));
    assert_eq!(admit_message(&store, &m, 120, 200, false).ok().map(|p| p.info), Some(info(10, 150)));
    assert_eq!(admit_message(&store, &m, 0, 149, false).err(), Some(PythReceiverError::OutOfRange));
}
