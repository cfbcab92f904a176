use ark_ff::{BigInt, PrimeField};
use pvw_cot::encoding::{
    decode_ciphertexts, decode_elements, decode_points, encode_ciphertexts, encode_elements,
    encode_points,
};
use pvw_cot::errors::Error;
use pvw_cot::field::{sample_elements, Fq};
use pvw_cot::mac::MacKeys;
use pvw_cot::mimc::MIMC_ROUNDS;
use pvw_cot::pvw::{SetupMessy, CRS};
use pvw_cot::session::{receiver_start, sender_start, ReceiverAwaitingMacs, SenderAwaitingMacKeys};
use rand::rngs::StdRng;
use rand::{Rng, SeedableRng};

fn plus_one(x: &Fq) -> Fq {
    let (l0, l1, l2, l3) = x.limbs();
    let y = ark_bn254::Fq::from_bigint(BigInt([l0, l1, l2, l3])).unwrap() + ark_bn254::Fq::from(1u64);
    let l = y.into_bigint().0;
    Fq::from_limbs(l[0], l[1], l[2], l[3]).unwrap()
}

struct Halfway {
    bs: Vec<bool>,
    labels_0: Vec<Fq>,
    labels_1: Vec<Fq>,
    sender: SenderAwaitingMacKeys,
    receiver: ReceiverAwaitingMacs,
    mac_keys: Vec<Fq>,
}

/// Runs both parties up to the point where the MAC keys are revealed.
/// Every message passes through its byte encoding.
fn run_halfway(m: usize, seed: u64) -> Halfway {
    let mut rng = StdRng::seed_from_u64(seed);
    let crs: CRS = SetupMessy(&mut rng).unwrap();
    let constants = sample_elements(&mut rng, MIMC_ROUNDS);
    let labels_0 = sample_elements(&mut rng, m);
    let labels_1 = sample_elements(&mut rng, m);
    let bs: Vec<bool> = (0..m).map(|_| rng.gen()).collect();

    let (receiver, keys) = receiver_start(m, bs.clone(), &crs, &mut rng).unwrap();
    let keys = decode_points(&encode_points(&keys)).unwrap();

    let (sender, seeds, offsets, enclabels) = sender_start(
        m,
        labels_0.clone(),
        labels_1.clone(),
        &keys,
        &crs,
        &constants,
        &mut rng,
    )
    .unwrap();
    let seeds = decode_ciphertexts(&encode_ciphertexts(&seeds)).unwrap();
    let offsets = decode_ciphertexts(&encode_ciphertexts(&offsets)).unwrap();
    let enclabels = decode_elements(&encode_elements(&enclabels)).unwrap();

    let (receiver, mac_keys) =
        receiver.on_transfer(&seeds, &offsets, &enclabels, &constants).unwrap();
    let mac_keys = decode_elements(&encode_elements(&mac_keys)).unwrap();
    Halfway { bs, labels_0, labels_1, sender, receiver, mac_keys }
}

fn run_to_the_end(m: usize, seed: u64) {
    let h = run_halfway(m, seed);
    let macs = h.sender.on_mac_keys(&h.mac_keys).unwrap();
    let macs = decode_elements(&encode_elements(&macs)).unwrap();
    let labels = h.receiver.on_macs(&macs).unwrap();
    assert_eq!(labels.len(), m);
    for i in 0..m {
        assert_eq!(labels[i], if h.bs[i] { h.labels_1[i] } else { h.labels_0[i] });
    }
}

#[test]
fn a_session_of_sixteen_transfers() {
    run_to_the_end(16, 91);
}

#[test]
fn a_session_of_one_transfer() {
    for seed in 0..4 {
        run_to_the_end(1, 92 + seed);
    }
}

#[test]
fn sessions_of_other_sizes() {
    for m in [2usize, 3, 7] {
        run_to_the_end(m, 96);
    }
}

#[test]
fn no_session_for_an_empty_batch() {
    let mut rng = StdRng::seed_from_u64(97);
    let crs = SetupMessy(&mut rng).unwrap();
    let constants = sample_elements(&mut rng, MIMC_ROUNDS);
    assert_eq!(
        receiver_start(0, vec![], &crs, &mut rng).err(),
        Some(Error::EmptyBatch)
    );
    assert_eq!(
        sender_start(0, vec![], vec![], &vec![], &crs, &constants, &mut rng).err(),
        Some(Error::EmptyBatch)
    );
}

#[test]
fn the_sender_names_what_is_wrong_at_the_start() {
    let mut rng = StdRng::seed_from_u64(98);
    let crs = SetupMessy(&mut rng).unwrap();
    let constants = sample_elements(&mut rng, MIMC_ROUNDS);
    let (_, keys) = receiver_start(2, vec![true, false], &crs, &mut rng).unwrap();
    let two = sample_elements(&mut rng, 2);
    let three = sample_elements(&mut rng, 3);
    assert_eq!(
        sender_start(2, three.clone(), two.clone(), &keys, &crs, &constants, &mut rng).err(),
        Some(Error::LengthMismatch)
    );
    assert_eq!(
        sender_start(2, two.clone(), two.clone(), &keys[..3].to_vec(), &crs, &constants, &mut rng)
            .err(),
        Some(Error::MalformedPayload)
    );
    assert_eq!(
        sender_start(
            2,
            two.clone(),
            two.clone(),
            &keys,
            &crs,
            &constants[..MIMC_ROUNDS - 1].to_vec(),
            &mut rng
        )
        .err(),
        Some(Error::LengthMismatch)
    );
    assert!(sender_start(2, two.clone(), two, &keys, &crs, &constants, &mut rng).is_ok());
}

#[test]
fn the_receiver_refuses_messages_of_the_wrong_length() {
    let mut rng = StdRng::seed_from_u64(99);
    let crs = SetupMessy(&mut rng).unwrap();
    let constants = sample_elements(&mut rng, MIMC_ROUNDS);
    let labels = sample_elements(&mut rng, 2);
    let bs = vec![true, false];
    let start = |rng: &mut StdRng| {
        let (receiver, keys) = receiver_start(2, bs.clone(), &crs, rng).unwrap();
        let (_, seeds, offsets, enclabels) =
            sender_start(2, labels.clone(), labels.clone(), &keys, &crs, &constants, rng).unwrap();
        (receiver, seeds, offsets, enclabels)
    };
    let (receiver, seeds, offsets, enclabels) = start(&mut rng);
    assert_eq!(
        receiver.on_transfer(&seeds[..3].to_vec(), &offsets, &enclabels, &constants).err(),
        Some(Error::MalformedPayload)
    );
    let (receiver, seeds, offsets, enclabels) = start(&mut rng);
    assert_eq!(
        receiver.on_transfer(&seeds, &vec![], &enclabels, &constants).err(),
        Some(Error::MalformedPayload)
    );
    let (receiver, seeds, offsets, enclabels) = start(&mut rng);
    assert_eq!(
        receiver.on_transfer(&seeds, &offsets, &enclabels[..2].to_vec(), &constants).err(),
        Some(Error::MalformedPayload)
    );
    let (receiver, seeds, offsets, enclabels) = start(&mut rng);
    assert_eq!(
        receiver.on_transfer(&seeds, &offsets, &enclabels, &vec![]).err(),
        Some(Error::LengthMismatch)
    );
}

#[test]
fn the_receiver_reveals_its_two_mac_keys() {
    let h = run_halfway(3, 100);
    assert_eq!(h.mac_keys.len(), 2);
    assert_ne!(h.mac_keys[0], h.mac_keys[1]);
}

#[test]
fn the_sender_wants_exactly_two_mac_keys() {
    let h = run_halfway(3, 101);
    assert_eq!(h.sender.on_mac_keys(&h.mac_keys[..1].to_vec()).err(), Some(Error::MalformedPayload));
    let h = run_halfway(3, 101);
    let mut three = h.mac_keys.clone();
    three.push(Fq::one());
    assert_eq!(h.sender.on_mac_keys(&three).err(), Some(Error::MalformedPayload));
}

#[test]
fn macs_alternate_the_two_branches() {
    let h = run_halfway(2, 102);
    let keys = MacKeys::new(h.mac_keys[0], h.mac_keys[1]);
    let macs = h.sender.on_mac_keys(&h.mac_keys).unwrap();
    assert_eq!(macs.len(), 4);
    // The offsets stay with the sender; the receiver's check of its own
    // branch is what ties the MACs to the labels.
    let labels = h.receiver.on_macs(&macs).unwrap();
    for i in 0..2 {
        assert_eq!(labels[i], if h.bs[i] { h.labels_1[i] } else { h.labels_0[i] });
    }
    assert_ne!(macs[0], keys.mac(&h.labels_0[0], &Fq::zero()));
}

#[test]
fn a_tampered_mac_ends_the_session_with_cheating_detected() {
    let m = 5;
    for index in 0..m {
        let h = run_halfway(m, 103);
        let mut macs = h.sender.on_mac_keys(&h.mac_keys).unwrap();
        let slot = 2 * index + if h.bs[index] { 1 } else { 0 };
        macs[slot] = plus_one(&macs[slot]);
        assert_eq!(h.receiver.on_macs(&macs), Err(Error::CheatingDetected));
    }
}

#[test]
fn tampering_with_the_other_branch_goes_unnoticed() {
    let m = 4;
    for index in 0..m {
        let h = run_halfway(m, 104);
        let mut macs = h.sender.on_mac_keys(&h.mac_keys).unwrap();
        let slot = 2 * index + if h.bs[index] { 0 } else { 1 };
        macs[slot] = plus_one(&macs[slot]);
        assert!(h.receiver.on_macs(&macs).is_ok());
    }
}

#[test]
fn a_tampered_label_ends_the_session_with_cheating_detected() {
    let mut rng = StdRng::seed_from_u64(105);
    let crs = SetupMessy(&mut rng).unwrap();
    let constants = sample_elements(&mut rng, MIMC_ROUNDS);
    let m = 3;
    let labels_0 = sample_elements(&mut rng, m);
    let labels_1 = sample_elements(&mut rng, m);
    for index in 0..m {
        let bs = vec![true, false, true];
        let (receiver, keys) = receiver_start(m, bs.clone(), &crs, &mut rng).unwrap();
        let (sender, seeds, offsets, mut enclabels) =
            sender_start(m, labels_0.clone(), labels_1.clone(), &keys, &crs, &constants, &mut rng)
                .unwrap();
        // The label that is sent differs from the one that is authenticated.
        let slot = 2 * index + if bs[index] { 1 } else { 0 };
        enclabels[slot] = plus_one(&enclabels[slot]);
        let (receiver, mac_keys) =
            receiver.on_transfer(&seeds, &offsets, &enclabels, &constants).unwrap();
        let macs = sender.on_mac_keys(&mac_keys).unwrap();
        assert_eq!(receiver.on_macs(&macs), Err(Error::CheatingDetected));
    }
}

#[test]
fn macs_of_the_wrong_length_are_a_malformed_message() {
    let h = run_halfway(2, 106);
    let macs = h.sender.on_mac_keys(&h.mac_keys).unwrap();
    assert_eq!(h.receiver.on_macs(&macs[..3].to_vec()), Err(Error::MalformedPayload));
}
